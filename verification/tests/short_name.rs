use short_name::descriptor::{TypeDescriptor, TypeKind, VariantDescriptor, VariantShape};
use short_name::generator::{generate, render_impl, GenError};
use short_name::splitter::{split_words, splitted_variants_names};

fn variant(name: &str, shape: VariantShape) -> VariantDescriptor {
    VariantDescriptor { name: String::from(name), shape }
}

fn tagged_union(name: &str, variants: Vec<VariantDescriptor>) -> TypeDescriptor {
    TypeDescriptor { kind: TypeKind::TaggedUnion, name: String::from(name), variants }
}

fn record(name: &str) -> TypeDescriptor {
    TypeDescriptor { kind: TypeKind::Record, name: String::from(name), variants: Vec::new() }
}

fn overlap_union(name: &str) -> TypeDescriptor {
    TypeDescriptor { kind: TypeKind::OverlapUnion, name: String::from(name), variants: Vec::new() }
}

#[test]
fn as_short_name_for_enum_with_unnamed_variants() {
    let descriptor = tagged_union(
        "UnnamedVariantsEnum",
        vec![
            variant("UnnamedVariant1", VariantShape::Tuple),
            variant("AnotherOneUnnamedVariant", VariantShape::Tuple),
            variant("TheLastOneUnnamedVariant", VariantShape::Tuple),
        ],
    );
    let cap = generate(&descriptor).unwrap();

    assert_eq!("Unnamed Variant1", cap.as_short_name(0));
    assert_eq!("Another One Unnamed Variant", cap.as_short_name(1));
    assert_eq!("The Last One Unnamed Variant", cap.as_short_name(2));
}

#[test]
fn as_short_name_for_enum_with_named_variants() {
    let descriptor = tagged_union(
        "NamedVariantsEnum",
        vec![
            variant("NamedVariant1", VariantShape::Named),
            variant("AnotherOneNamedVariant", VariantShape::Named),
            variant("TheLastOneNamedVariant", VariantShape::Named),
        ],
    );
    let cap = generate(&descriptor).unwrap();

    assert_eq!("Named Variant1", cap.as_short_name(0));
    assert_eq!("Another One Named Variant", cap.as_short_name(1));
    assert_eq!("The Last One Named Variant", cap.as_short_name(2));
}

#[test]
fn as_short_name_for_enum_with_units() {
    let descriptor = tagged_union(
        "UnitsEnum",
        vec![
            variant("VariantUnit1", VariantShape::Unit),
            variant("AnotherOneVariantUnit", VariantShape::Unit),
            variant("TheLastOneVariantUnit", VariantShape::Unit),
        ],
    );
    let cap = generate(&descriptor).unwrap();

    assert_eq!("Variant Unit1", cap.as_short_name(0));
    assert_eq!("Another One Variant Unit", cap.as_short_name(1));
    assert_eq!("The Last One Variant Unit", cap.as_short_name(2));
}

#[test]
fn as_short_name_for_enum_with_mixed_variants() {
    let mixed = tagged_union(
        "MixedEnum",
        vec![
            variant("UnnamedVariant1", VariantShape::Tuple),
            variant("AnotherOneNamedVariant", VariantShape::Named),
            variant("TheLastOneVariantUnit", VariantShape::Unit),
        ],
    );
    let units = tagged_union(
        "UnitsEnum",
        vec![
            variant("VariantUnit1", VariantShape::Unit),
            variant("AnotherOneVariantUnit", VariantShape::Unit),
            variant("TheLastOneVariantUnit", VariantShape::Unit),
        ],
    );
    let mixed_cap = generate(&mixed).unwrap();
    let units_cap = generate(&units).unwrap();

    assert_eq!("Unnamed Variant1", mixed_cap.as_short_name(0));
    assert_eq!("Another One Named Variant", mixed_cap.as_short_name(1));
    assert_eq!("The Last One Variant Unit", units_cap.as_short_name(2));
}

#[test]
fn as_short_name_for_struct_without_fields() {
    let cap = generate(&record("NoFieldsStruct")).unwrap();

    assert_eq!("No Fields Struct", cap.as_short_name(0));
}

#[test]
fn as_short_name_for_struct_with_unnamed_field() {
    let cap = generate(&record("UnnamedFieldsStruct")).unwrap();

    assert_eq!("Unnamed Fields Struct", cap.as_short_name(0));
}

#[test]
fn as_short_name_for_struct_with_named_field() {
    let cap = generate(&record("NamedFieldsStruct")).unwrap();

    assert_eq!("Named Fields Struct", cap.as_short_name(0));
}

#[test]
fn split_separates_concatenated_words() {
    assert_eq!("No Fields Struct", split_words("NoFieldsStruct"));
    assert_eq!("The Last One Unnamed Variant", split_words("TheLastOneUnnamedVariant"));
}

#[test]
fn split_is_idempotent_on_split_output() {
    let once = split_words("TheLastOneUnnamedVariant");
    let twice = split_words(&once);
    assert_eq!(once, twice);

    let once = split_words("VariantUnit1");
    let twice = split_words(&once);
    assert_eq!(once, twice);
}

#[test]
fn split_single_word_and_digit_run() {
    assert_eq!("Variant1", split_words("Variant1"));
    assert_eq!("Variant Unit1", split_words("VariantUnit1"));
    assert_eq!("Mode2 X", split_words("Mode2X"));
}

#[test]
fn split_leaves_uppercase_runs_whole() {
    assert_eq!("ABC", split_words("ABC"));
    assert_eq!("HTTPServer", split_words("HTTPServer"));
}

#[test]
fn split_list_of_names() {
    let names = vec![
        String::from("VariantUnit1"),
        String::from("AnotherOneVariantUnit"),
        String::from("TheLastOneVariantUnit"),
    ];
    let split = splitted_variants_names(&names);
    assert_eq!(3, split.len());
    assert_eq!("Variant Unit1", split[0]);
    assert_eq!("Another One Variant Unit", split[1]);
    assert_eq!("The Last One Variant Unit", split[2]);
}

#[test]
fn split_only_inserts_spaces() {
    let split = split_words("TheLastOneUnnamedVariant");
    let stripped: String = split.chars().filter(|c| *c != ' ').collect();
    assert_eq!("TheLastOneUnnamedVariant", stripped);
}

#[test]
fn single_variant_union_dispatches() {
    let descriptor = tagged_union("LoneEnum", vec![variant("OnlyVariant", VariantShape::Unit)]);
    let cap = generate(&descriptor).unwrap();
    assert_eq!("Only Variant", cap.as_short_name(0));
}

#[test]
fn overlap_union_label_ignores_value() {
    let cap = generate(&overlap_union("RegistersUnion")).unwrap();

    assert_eq!("Registers Union", cap.as_short_name(0));
    assert_eq!("Registers Union", cap.as_short_name(7));
}

#[test]
fn generation_is_deterministic() {
    let make = || {
        tagged_union(
            "MixedEnum",
            vec![
                variant("UnnamedVariant1", VariantShape::Tuple),
                variant("AnotherOneNamedVariant", VariantShape::Named),
                variant("TheLastOneVariantUnit", VariantShape::Unit),
            ],
        )
    };
    let first = generate(&make()).unwrap();
    let second = generate(&make()).unwrap();
    for tag in 0..3 {
        assert_eq!(first.as_short_name(tag), second.as_short_name(tag));
    }

    let first_text = render_impl(&make()).unwrap();
    let second_text = render_impl(&make()).unwrap();
    assert_eq!(first_text, second_text);
}

#[test]
fn empty_tagged_union_is_refused() {
    let descriptor = tagged_union("EmptyEnum", Vec::new());

    let generated = generate(&descriptor);
    assert!(matches!(generated, Err(GenError::EmptyVariants { .. })));
    assert_eq!(
        "tagged union EmptyEnum declares no variants",
        generated.unwrap_err().message()
    );

    let rendered = render_impl(&descriptor);
    assert!(matches!(rendered, Err(GenError::EmptyVariants { .. })));
}

#[test]
fn duplicate_variant_names_are_refused() {
    let descriptor = tagged_union(
        "AmbiguousEnum",
        vec![
            variant("SameVariant", VariantShape::Unit),
            variant("OtherVariant", VariantShape::Tuple),
            variant("SameVariant", VariantShape::Named),
        ],
    );

    let generated = generate(&descriptor);
    assert!(matches!(generated, Err(GenError::DuplicateVariantNames { .. })));
    assert_eq!(
        "tagged union AmbiguousEnum declares duplicate variant names",
        generated.unwrap_err().message()
    );

    let rendered = render_impl(&descriptor);
    assert!(matches!(rendered, Err(GenError::DuplicateVariantNames { .. })));
}

#[test]
fn rendered_record_impl_text() {
    let text = render_impl(&record("NamedFieldsStruct")).unwrap();
    let expected = "impl ShortName for NamedFieldsStruct {\n    fn as_short_name(&self) -> &str {\n        \"Named Fields Struct\"\n    }\n}\n";
    assert_eq!(expected, text);
}

#[test]
fn rendered_tagged_union_impl_text() {
    let descriptor = tagged_union(
        "MixedEnum",
        vec![
            variant("UnnamedVariant1", VariantShape::Tuple),
            variant("AnotherOneNamedVariant", VariantShape::Named),
            variant("TheLastOneVariantUnit", VariantShape::Unit),
        ],
    );
    let text = render_impl(&descriptor).unwrap();
    let expected = "impl ShortName for MixedEnum {\n    fn as_short_name(&self) -> &str {\n        match self {\n            MixedEnum::UnnamedVariant1(..) => \"Unnamed Variant1\",\n            MixedEnum::AnotherOneNamedVariant { .. } => \"Another One Named Variant\",\n            MixedEnum::TheLastOneVariantUnit => \"The Last One Variant Unit\",\n        }\n    }\n}\n";
    assert_eq!(expected, text);
}
