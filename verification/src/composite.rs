//! Records and enums: how the encoding of a composite type is put together from those of
//! its parts.
//!
//! A record is its fields one after the other, in the order of their declaration: the
//! tuples are the records without names. An enum is the index of the variant, one byte,
//! and then the value of the variant where it has one.

use crate::error::Fault;
use crate::error::MarshalError;
use crate::stream::ByteStream;
use crate::stream::MarshalIterator;
use crate::traits::read_as;
use crate::traits::Decoded;
use crate::traits::Marshal;
use crate::traits::UnMarshal;
use vstd::prelude::*;
use vstd::std_specs::iter::IteratorSpec;

verus! {

/// The greatest number of variants that an enum can have: the index is one byte.
pub const MAX_VARIANTS: usize = 256;

/// The bytes that stand for a value of a variant: the index, then the bytes of the
/// value.
pub open spec fn variant_encoding(index: u8, payload: Seq<u8>) -> Seq<u8> {
    u8::encoding(index) + payload
}

/// Encodes a value of a variant without data.
pub fn marshal_unit_variant(index: u8) -> (out: MarshalIterator)
    ensures
        out.lawful(),
        out.pending() == variant_encoding(index, Seq::empty()),
{
    let out = index.marshal();
    assert(out.pending() =~= variant_encoding(index, Seq::empty()));
    out
}

/// Encodes a value of a variant that holds `payload`.
pub fn marshal_variant<T: Marshal>(index: u8, payload: T) -> (out: MarshalIterator)
    ensures
        T::obeys_marshal_spec() ==> out.lawful() && out.pending() == variant_encoding(
            index,
            T::encoding(payload.model()),
        ),
{
    index.marshal().chain(payload.marshal())
}

/// The variant that a byte names in an enum of `variants` variants, or the fault that
/// names the byte.
pub open spec fn variant_of_byte(byte: u8, variants: usize) -> Result<u8, Fault> {
    if byte < variants {
        Ok(byte)
    } else {
        Err(Fault::VariantTag(byte))
    }
}

/// What `input` decodes to as the index of a variant of an enum of `variants` variants.
pub open spec fn decode_variant_index(input: Seq<u8>, variants: usize) -> Decoded<u8> {
    u8::decode(input).and_then(|byte: u8| variant_of_byte(byte, variants))
}

/// Reads the index of a variant of an enum of `variants` variants.
pub fn unmarshal_variant_index<I: Iterator<Item = u8>>(data: &mut I, variants: usize) -> (res:
    Result<u8, MarshalError>)
    ensures
        (*old(data)).obeys_prophetic_iter_laws() ==> {
            &&& (*final(data)).obeys_prophetic_iter_laws()
            &&& read_as(
                decode_variant_index((*old(data)).remaining(), variants),
                (*old(data)).remaining(),
                (*final(data)).remaining(),
                res,
            )
        },
{
    match u8::unmarshal(data) {
        Ok(byte) => {
            if (byte as usize) < variants {
                Ok(byte)
            } else {
                Err(MarshalError::variant_tag(byte))
            }
        },
        Err(e) => Err(e),
    }
}

/// The shape of a variant, as its declaration gives it.
#[derive(Debug, Clone, Copy, PartialEq, Eq, Structural)]
pub enum VariantShape {
    /// No data.
    Unit,
    /// Unnamed fields, this many.
    Unnamed(usize),
    /// Named fields.
    Named,
}

/// Why no codec can be derived for a type.
#[derive(Debug, Clone, Copy, PartialEq, Eq, Structural)]
pub enum Rejection {
    /// A variant has named fields.
    NamedFields,
    /// A variant has unnamed fields, and not exactly one.
    NotOneUnnamedField,
    /// The enum has more variants than one byte can index.
    TooManyVariants,
}

/// The words that tell a rejection.
pub open spec fn rejection_message(rejection: Rejection) -> Seq<char> {
    match rejection {
        Rejection::NamedFields => "Named fields are not supported"@,
        Rejection::NotOneUnnamedField => "Only single unnamed fields are supported"@,
        Rejection::TooManyVariants => "Only enums of up to 256 variants are supported"@,
    }
}

impl Rejection {
    /// The words that tell this rejection.
    pub fn message(self) -> (out: &'static str)
        ensures
            out@ == rejection_message(self),
    {
        match self {
            Rejection::NamedFields => "Named fields are not supported",
            Rejection::NotOneUnnamedField => "Only single unnamed fields are supported",
            Rejection::TooManyVariants => "Only enums of up to 256 variants are supported",
        }
    }
}

/// What a variant is encoded as.
#[derive(Debug, Clone, Copy, PartialEq, Eq, Structural)]
pub struct VariantPlan {
    /// The index of the variant: its place in the declaration, from 0.
    pub index: u8,
    /// Whether the value of the variant follows the index.
    pub payload: bool,
}

/// The plan of the variant at `position` with `shape`, or why there is none.
pub open spec fn variant_plan(position: usize, shape: VariantShape) -> Result<
    VariantPlan,
    Rejection,
> {
    if position >= MAX_VARIANTS {
        Err(Rejection::TooManyVariants)
    } else {
        match shape {
            VariantShape::Unit => Ok(VariantPlan { index: position as u8, payload: false }),
            VariantShape::Unnamed(n) => if n == 1 {
                Ok(VariantPlan { index: position as u8, payload: true })
            } else {
                Err(Rejection::NotOneUnnamedField)
            },
            VariantShape::Named => Err(Rejection::NamedFields),
        }
    }
}

/// Plans the variant at `position` with `shape`.
pub fn plan_variant(position: usize, shape: VariantShape) -> (res: Result<VariantPlan, Rejection>)
    ensures
        res == variant_plan(position, shape),
{
    if position >= MAX_VARIANTS {
        return Err(Rejection::TooManyVariants);
    }
    match shape {
        VariantShape::Unit => Ok(VariantPlan { index: position as u8, payload: false }),
        VariantShape::Unnamed(n) => {
            if n == 1 {
                Ok(VariantPlan { index: position as u8, payload: true })
            } else {
                Err(Rejection::NotOneUnnamedField)
            }
        },
        VariantShape::Named => Err(Rejection::NamedFields),
    }
}

/// Whether `plans` are the plans of the variants `shapes`, each at its place.
pub open spec fn plans_of(plans: Seq<VariantPlan>, shapes: Seq<VariantShape>) -> bool {
    &&& plans.len() == shapes.len()
    &&& forall|i: int|
        0 <= i < shapes.len() ==> variant_plan(i as usize, shapes[i]) == Ok::<
            VariantPlan,
            Rejection,
        >(#[trigger] plans[i])
}

/// Whether `rejection` is why the variants `shapes` have no plan: the first variant that
/// has none gives it.
pub open spec fn rejected_for(rejection: Rejection, shapes: Seq<VariantShape>) -> bool {
    exists|i: int|
        {
            &&& 0 <= i < shapes.len()
            &&& #[trigger] variant_plan(i as usize, shapes[i]) == Err::<VariantPlan, Rejection>(
                rejection,
            )
            &&& forall|j: int| 0 <= j < i ==> (#[trigger] variant_plan(j as usize, shapes[j])) is Ok
        }
}

/// Plans the variants of an enum, in the order of their declaration.
pub fn plan_enum(shapes: &Vec<VariantShape>) -> (res: Result<Vec<VariantPlan>, Rejection>)
    ensures
        match res {
            Ok(plans) => plans_of(plans@, shapes@),
            Err(rejection) => rejected_for(rejection, shapes@),
        },
{
    let mut plans: Vec<VariantPlan> = Vec::new();
    let mut i: usize = 0;
    while i < shapes.len()
        invariant
            i <= shapes@.len(),
            plans@.len() == i,
            forall|j: int|
                0 <= j < i ==> variant_plan(j as usize, shapes@[j]) == Ok::<VariantPlan, Rejection>(
                    #[trigger] plans@[j],
                ),
        decreases shapes@.len() - i,
    {
        match plan_variant(i, shapes[i]) {
            Ok(plan) => {
                plans.push(plan);
            },
            Err(rejection) => {
                assert(variant_plan(i as usize, shapes@[i as int]) == Err::<
                    VariantPlan,
                    Rejection,
                >(rejection));
                assert forall|j: int| 0 <= j < i implies (#[trigger] variant_plan(
                    j as usize,
                    shapes@[j],
                )) is Ok by {
                    assert(variant_plan(j as usize, shapes@[j]) == Ok::<VariantPlan, Rejection>(
                        plans@[j],
                    ));
                }
                return Err(rejection);
            },
        }
        i = i + 1;
    }
    Ok(plans)
}

} // verus!
