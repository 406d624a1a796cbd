//! Generation of the `ShortName` capability from a type descriptor.

use crate::descriptor::{
    distinct_variant_names, TypeDescriptor, TypeKind, VariantDescriptor, VariantShape,
};
use crate::splitter::{split_spec, split_words};
use vstd::prelude::*;
use vstd::string::*;

verus! {

/// Why generation refused a descriptor. Each error names the offending
/// type. A kind outside the model cannot be written down, so no further
/// failure exists.
#[derive(Debug)]
pub enum GenError {
    /// A tagged union declared no variants: a dispatch would have no cases.
    EmptyVariants { offending_type: String },
    /// Two variants of a tagged union share a name: dispatch over them
    /// would be ambiguous.
    DuplicateVariantNames { offending_type: String },
}

impl GenError {
    /// The descriptive message of the error.
    pub open spec fn spec_message(self) -> Seq<char> {
        match self {
            GenError::EmptyVariants { offending_type } => "tagged union "@ + offending_type@
                + " declares no variants"@,
            GenError::DuplicateVariantNames { offending_type } => "tagged union "@ + offending_type@
                + " declares duplicate variant names"@,
        }
    }

    /// Renders the descriptive message, naming the offending type.
    pub fn message(&self) -> (r: String)
        ensures
            r@ == self.spec_message(),
    {
        let mut r = String::new();
        r.append("tagged union ");
        match self {
            GenError::EmptyVariants { offending_type } => {
                r.append(offending_type.as_str());
                r.append(" declares no variants");
            },
            GenError::DuplicateVariantNames { offending_type } => {
                r.append(offending_type.as_str());
                r.append(" declares duplicate variant names");
            },
        }
        proof {
            assert(r@ =~= self.spec_message());
        }
        r
    }
}

/// The generated capability: only the derived label constants, with no
/// reference back to the descriptor it was generated from.
#[derive(Debug)]
pub enum CapabilityImpl {
    /// For a record or an overlapping-fields union: one constant label,
    /// computed once at generation time.
    Constant { label: String },
    /// For a tagged union: one label per declared variant, in declaration
    /// order, keyed by the variant's discriminant.
    Dispatch { labels: Vec<String> },
}

impl CapabilityImpl {
    /// Whether `tag` is a discriminant this capability answers for. A
    /// constant capability answers for every value of its type.
    pub open spec fn spec_tag_ok(self, tag: int) -> bool {
        match self {
            CapabilityImpl::Constant { .. } => true,
            CapabilityImpl::Dispatch { labels } => 0 <= tag && tag < labels@.len(),
        }
    }

    /// The label answered for a value whose variant discriminant is `tag`.
    pub open spec fn spec_short_name(self, tag: int) -> Seq<char> {
        match self {
            CapabilityImpl::Constant { label } => label@,
            CapabilityImpl::Dispatch { labels } => labels@[tag]@,
        }
    }

    /// Answers the short name of a value of the described type, given the
    /// discriminant of the variant the value holds. A constant capability
    /// ignores the discriminant; a dispatch capability requires it to be
    /// one of the declared variants, which the host type system guarantees
    /// of every value. No payload ever reaches this lookup.
    pub fn as_short_name(&self, tag: usize) -> (r: &str)
        requires
            self.spec_tag_ok(tag as int),
        ensures
            r@ == self.spec_short_name(tag as int),
    {
        match self {
            CapabilityImpl::Constant { label } => label.as_str(),
            CapabilityImpl::Dispatch { labels } => labels[tag].as_str(),
        }
    }
}

/// The capability that generation owes a well-formed descriptor: for a
/// record or an overlap union, a constant holding the split type name; for
/// a tagged union, the split variant names in declaration order.
pub open spec fn cap_matches(cap: CapabilityImpl, d: TypeDescriptor) -> bool {
    match d.kind {
        TypeKind::Record | TypeKind::OverlapUnion => cap matches CapabilityImpl::Constant { label }
            && label@ == split_spec(d.name@),
        TypeKind::TaggedUnion => {
            &&& cap matches CapabilityImpl::Dispatch { labels }
            &&& labels@.len() == d.variants@.len()
            &&& forall|i: int|
                0 <= i < d.variants@.len() ==> (#[trigger] labels@[i])@ == split_spec(
                    d.variants@[i].name@,
                )
        },
    }
}

/// The error that generation owes a malformed descriptor: only a tagged
/// union can be malformed, an empty variant list is reported before
/// duplicate names, and the error names the type.
pub open spec fn err_matches(e: GenError, d: TypeDescriptor) -> bool {
    &&& d.kind is TaggedUnion
    &&& if d.variants@.len() == 0 {
        e matches GenError::EmptyVariants { offending_type } && offending_type@ == d.name@
    } else {
        &&& !distinct_variant_names(d.variants@)
        &&& e matches GenError::DuplicateVariantNames { offending_type } && offending_type@ == d.name@
    }
}

/// Decides whether two variants of the list share a name.
fn has_duplicate_names(vs: &Vec<VariantDescriptor>) -> (r: bool)
    ensures
        r == !distinct_variant_names(vs@),
{
    let n = vs.len();
    let mut i: usize = 0;
    while i < n
        invariant
            n == vs@.len(),
            i <= n,
            forall|a: int, b: int|
                0 <= a < b < vs@.len() && a < i ==> #[trigger] vs@[a].name@ != #[trigger] vs@[b].name@,
        decreases n - i,
    {
        let mut j: usize = i + 1;
        while j < n
            invariant
                n == vs@.len(),
                i < j <= n,
                forall|b: int| i < b < j ==> vs@[i as int].name@ != #[trigger] vs@[b].name@,
            decreases n - j,
        {
            if vs[i].name == vs[j].name {
                proof {
                    assert(vs@[i as int].name@ == vs@[j as int].name@);
                    assert(!distinct_variant_names(vs@));
                }
                return true;
            }
            j = j + 1;
        }
        i = i + 1;
    }
    false
}

/// Generates the capability for a descriptor. Generation succeeds exactly
/// on well-formed descriptors; a tagged union with no variants, or with two
/// variants of one name, is refused with an error naming the type. The
/// result is a function of the descriptor alone: the labels are computed
/// once, here, and the capability answers them unchanged ever after.
pub fn generate(d: &TypeDescriptor) -> (r: Result<CapabilityImpl, GenError>)
    ensures
        r is Ok <==> d.wf(),
        r matches Ok(cap) ==> cap_matches(cap, *d),
        r matches Err(e) ==> err_matches(e, *d),
{
    match d.kind {
        TypeKind::Record | TypeKind::OverlapUnion => Ok(
            CapabilityImpl::Constant { label: split_words(d.name.as_str()) },
        ),
        TypeKind::TaggedUnion => {
            if d.variants.len() == 0 {
                Err(GenError::EmptyVariants { offending_type: d.name.clone() })
            } else if has_duplicate_names(&d.variants) {
                Err(GenError::DuplicateVariantNames { offending_type: d.name.clone() })
            } else {
                let mut labels: Vec<String> = Vec::new();
                let mut i: usize = 0;
                while i < d.variants.len()
                    invariant
                        i <= d.variants@.len(),
                        labels@.len() == i,
                        forall|k: int|
                            0 <= k < i ==> (#[trigger] labels@[k])@ == split_spec(
                                d.variants@[k].name@,
                            ),
                    decreases d.variants@.len() - i,
                {
                    labels.push(split_words(d.variants[i].name.as_str()));
                    i = i + 1;
                }
                Ok(CapabilityImpl::Dispatch { labels })
            }
        },
    }
}

/// The binding pattern of a dispatch case, by payload shape: payload
/// fields are bound by a wildcard, so their contents never reach the label.
pub open spec fn spec_shape_pattern(shape: VariantShape) -> Seq<char> {
    match shape {
        VariantShape::Unit => Seq::<char>::empty(),
        VariantShape::Tuple => "(..)"@,
        VariantShape::Named => " { .. }"@,
    }
}

/// One dispatch case of the generated match: the qualified variant path,
/// the shape's wildcard pattern, and the precomputed label.
pub open spec fn spec_arm_text(ty: Seq<char>, v: VariantDescriptor) -> Seq<char> {
    "            "@ + ty + "::"@ + v.name@ + spec_shape_pattern(v.shape) + " => \""@ + split_spec(
        v.name@,
    ) + "\",\n"@
}

/// The dispatch cases for all variants, in declaration order.
pub open spec fn spec_arms_text(ty: Seq<char>, vs: Seq<VariantDescriptor>) -> Seq<char>
    decreases vs.len(),
{
    if vs.len() == 0 {
        Seq::<char>::empty()
    } else {
        spec_arms_text(ty, vs.drop_last()) + spec_arm_text(ty, vs.last())
    }
}

/// The opening lines of the generated implementation.
pub open spec fn spec_impl_header(ty: Seq<char>) -> Seq<char> {
    "impl ShortName for "@ + ty + " {\n    fn as_short_name(&self) -> &str {\n"@
}

/// The full source text of the generated implementation: a constant body
/// for a record or an overlap union; for a tagged union, a match over the
/// variants that is exhaustive by construction and has no default case.
pub open spec fn spec_impl_text(d: TypeDescriptor) -> Seq<char> {
    match d.kind {
        TypeKind::Record | TypeKind::OverlapUnion => spec_impl_header(d.name@) + "        \""@
            + split_spec(d.name@) + "\"\n    }\n}\n"@,
        TypeKind::TaggedUnion => spec_impl_header(d.name@) + "        match self {\n"@
            + spec_arms_text(d.name@, d.variants@) + "        }\n    }\n}\n"@,
    }
}

/// Renders one dispatch case of the generated match.
fn render_arm(ty: &str, v: &VariantDescriptor) -> (r: String)
    ensures
        r@ == spec_arm_text(ty@, *v),
{
    let mut r = String::new();
    r.append("            ");
    r.append(ty);
    r.append("::");
    r.append(v.name.as_str());
    match v.shape {
        VariantShape::Unit => {},
        VariantShape::Tuple => r.append("(..)"),
        VariantShape::Named => r.append(" { .. }"),
    }
    r.append(" => \"");
    let label = split_words(v.name.as_str());
    r.append(label.as_str());
    r.append("\",\n");
    proof {
        assert(r@ =~= spec_arm_text(ty@, *v));
    }
    r
}

/// Renders the source text of the generated implementation: the source
/// form of the capability that `generate` builds, refused on exactly the
/// same malformed descriptors. The text is a function of the descriptor
/// alone, so rendering one descriptor twice yields byte-identical output.
pub fn render_impl(d: &TypeDescriptor) -> (r: Result<String, GenError>)
    ensures
        r is Ok <==> d.wf(),
        r matches Ok(text) ==> text@ == spec_impl_text(*d),
        r matches Err(e) ==> err_matches(e, *d),
{
    let mut out = String::new();
    out.append("impl ShortName for ");
    out.append(d.name.as_str());
    out.append(" {\n    fn as_short_name(&self) -> &str {\n");
    match d.kind {
        TypeKind::Record | TypeKind::OverlapUnion => {
            out.append("        \"");
            let label = split_words(d.name.as_str());
            out.append(label.as_str());
            out.append("\"\n    }\n}\n");
            proof {
                assert(out@ =~= spec_impl_text(*d));
            }
            Ok(out)
        },
        TypeKind::TaggedUnion => {
            if d.variants.len() == 0 {
                return Err(GenError::EmptyVariants { offending_type: d.name.clone() });
            }
            if has_duplicate_names(&d.variants) {
                return Err(GenError::DuplicateVariantNames { offending_type: d.name.clone() });
            }
            out.append("        match self {\n");
            proof {
                assert(d.variants@.take(0) =~= Seq::<VariantDescriptor>::empty());
                assert(out@ =~= spec_impl_header(d.name@) + "        match self {\n"@
                    + spec_arms_text(d.name@, d.variants@.take(0)));
            }
            let mut i: usize = 0;
            while i < d.variants.len()
                invariant
                    i <= d.variants@.len(),
                    out@ == spec_impl_header(d.name@) + "        match self {\n"@
                        + spec_arms_text(d.name@, d.variants@.take(i as int)),
                decreases d.variants@.len() - i,
            {
                let arm = render_arm(d.name.as_str(), &d.variants[i]);
                out.append(arm.as_str());
                proof {
                    assert(d.variants@.take(i + 1).drop_last() =~= d.variants@.take(i as int));
                    assert(d.variants@.take(i + 1).last() == d.variants@[i as int]);
                    assert(out@ =~= spec_impl_header(d.name@) + "        match self {\n"@
                        + spec_arms_text(d.name@, d.variants@.take(i + 1)));
                }
                i = i + 1;
            }
            out.append("        }\n    }\n}\n");
            proof {
                assert(d.variants@.take(d.variants@.len() as int) =~= d.variants@);
                assert(out@ =~= spec_impl_text(*d));
            }
            Ok(out)
        },
    }
}

/// The labels a capability answers are determined by the descriptor alone:
/// two capabilities generated from one descriptor answer the same short
/// name for every value of the described type.
pub proof fn lemma_generate_deterministic(
    d: TypeDescriptor,
    c1: CapabilityImpl,
    c2: CapabilityImpl,
    tag: int,
)
    requires
        cap_matches(c1, d),
        cap_matches(c2, d),
        c1.spec_tag_ok(tag),
    ensures
        c2.spec_tag_ok(tag),
        c1.spec_short_name(tag) == c2.spec_short_name(tag),
{
}

/// A constant capability — the one owed to a record or an overlap union —
/// answers the split type name whatever value it is asked about.
pub proof fn lemma_constant_ignores_value(
    d: TypeDescriptor,
    cap: CapabilityImpl,
    t1: int,
    t2: int,
)
    requires
        d.kind is Record || d.kind is OverlapUnion,
        cap_matches(cap, d),
    ensures
        cap.spec_short_name(t1) == split_spec(d.name@),
        cap.spec_short_name(t1) == cap.spec_short_name(t2),
{
}

/// The capability owed a tagged union answers, for a value holding the
/// variant with discriminant `tag`, exactly the split identifier of that
/// variant, whatever payload the variant carries.
pub proof fn lemma_dispatch_answers_variant(d: TypeDescriptor, cap: CapabilityImpl, tag: int)
    requires
        d.kind is TaggedUnion,
        cap_matches(cap, d),
        0 <= tag < d.variants@.len(),
    ensures
        cap.spec_tag_ok(tag),
        cap.spec_short_name(tag) == split_spec(d.variants@[tag].name@),
{
}

/// The label answered for a tagged-union value depends only on the
/// identifier of the variant it holds: not on any payload shape, and not
/// on the other variants, their shapes or their number.
pub proof fn lemma_labels_ignore_shapes(
    d1: TypeDescriptor,
    d2: TypeDescriptor,
    c1: CapabilityImpl,
    c2: CapabilityImpl,
    tag: int,
)
    requires
        d1.kind is TaggedUnion,
        d2.kind is TaggedUnion,
        cap_matches(c1, d1),
        cap_matches(c2, d2),
        0 <= tag < d1.variants@.len(),
        0 <= tag < d2.variants@.len(),
        d1.variants@[tag].name@ == d2.variants@[tag].name@,
    ensures
        c1.spec_short_name(tag) == c2.spec_short_name(tag),
{
}

} // verus!
