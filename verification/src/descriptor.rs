//! The structural description of a declared type, as the reflection layer
//! hands it over to the generator.

use vstd::prelude::*;

verus! {

/// Whether a tagged-union case carries no payload, positional payload
/// fields, or named payload fields. Payload contents never influence a
/// derived label; the shape only chooses the binding pattern of the
/// generated dispatch case.
#[derive(Clone, Copy, PartialEq, Eq, Structural, Debug)]
pub enum VariantShape {
    Unit,
    Tuple,
    Named,
}

/// One case of a tagged union: its identifier and its payload shape.
#[derive(Clone, Debug)]
pub struct VariantDescriptor {
    pub name: String,
    pub shape: VariantShape,
}

/// The kind classification of a declared type: a plain record, a tagged
/// union of variants, or a union of overlapping fields. No other kind is
/// representable.
#[derive(Clone, Copy, PartialEq, Eq, Structural, Debug)]
pub enum TypeKind {
    Record,
    TaggedUnion,
    OverlapUnion,
}

/// The structural description of a declared type: its kind, its identifier
/// and, meaningful only when the kind is `TaggedUnion`, its ordered list of
/// variants.
#[derive(Clone, Debug)]
pub struct TypeDescriptor {
    pub kind: TypeKind,
    pub name: String,
    pub variants: Vec<VariantDescriptor>,
}

/// No two variants of the list share a name.
pub open spec fn distinct_variant_names(vs: Seq<VariantDescriptor>) -> bool {
    forall|i: int, j: int| 0 <= i < j < vs.len() ==> #[trigger] vs[i].name@ != #[trigger] vs[j].name@
}

impl TypeDescriptor {
    /// A descriptor the generator accepts: a tagged union must declare at
    /// least one variant, and dispatch would be ambiguous if two variants
    /// shared a name.
    pub open spec fn wf(self) -> bool {
        self.kind is TaggedUnion ==> self.variants@.len() > 0 && distinct_variant_names(
            self.variants@,
        )
    }
}

} // verus!
