use jvm_typegen::hoist::{anonymous_struct_generics, hoist_anonymous_structs};
use jvm_typegen::mapping::TypeMappings;
use jvm_typegen::model::{EnumDef, EnumShared, FieldDef, Id, ModelType, Variant, VariantShared};
use jvm_typegen::text::{quote, remove_dash_from_identifier, to_pascal_case};

fn id(s: &str) -> Id {
    Id { original: s.to_string(), renamed: s.to_string(), serde_rename: false }
}

fn field(name: &str, ty: ModelType) -> FieldDef {
    FieldDef { id: id(name), ty, comments: vec![], has_default: false, type_overrides: vec![] }
}

fn simple(name: &str) -> ModelType {
    ModelType::Simple { id: name.to_string() }
}

fn shared(name: &str, generics: &[&str]) -> EnumShared {
    EnumShared {
        id: id(name),
        generic_params: generics.iter().map(|g| g.to_string()).collect(),
        comments: vec![],
        is_redacted: false,
        decorators: vec![],
    }
}

fn variant(name: &str) -> VariantShared {
    VariantShared { id: id(name), comments: vec![] }
}

fn event_union() -> EnumDef {
    EnumDef::TaggedUnion {
        shared: shared("Event", &["T", "U"]),
        content_key: "content".to_string(),
        variants: vec![
            Variant::InlineRecord {
                shared: variant("Started"),
                fields: vec![field("at", simple("T")), field("by", ModelType::List(Box::new(simple("T"))))],
            },
            Variant::NoPayload(variant("Stopped")),
            Variant::InlineRecord {
                shared: variant("Failed"),
                fields: vec![field("code", ModelType::I32)],
            },
        ],
    }
}

#[test]
fn hoisted_generics_are_exactly_the_used_ones() {
    let records = hoist_anonymous_structs(&event_union());
    assert_eq!(records.len(), 2);
    assert_eq!(records[0].variant_index, 0);
    assert_eq!(records[0].name, "EventStartedInner");
    assert_eq!(records[0].generic_params, vec!["T".to_string()]);
    assert_eq!(records[1].variant_index, 2);
    assert_eq!(records[1].name, "EventFailedInner");
    assert!(records[1].generic_params.is_empty());
}

#[test]
fn hoisting_twice_gives_the_same_records() {
    let e = event_union();
    let a = hoist_anonymous_structs(&e);
    let b = hoist_anonymous_structs(&e);
    assert_eq!(a.len(), b.len());
    for (x, y) in a.iter().zip(b.iter()) {
        assert_eq!(x.variant_index, y.variant_index);
        assert_eq!(x.name, y.name);
        assert_eq!(x.generic_params, y.generic_params);
    }
}

#[test]
fn used_generics_keep_first_use_order_without_repeats() {
    let generics = vec!["T".to_string(), "U".to_string(), "V".to_string()];
    let fields = vec![
        field("a", simple("U")),
        field("b", ModelType::Dictionary(Box::new(simple("T")), Box::new(simple("U")))),
        field("c", ModelType::Optional(Box::new(simple("U")))),
    ];
    assert_eq!(anonymous_struct_generics(&generics, &fields), vec!["U".to_string(), "T".to_string()]);
}

#[test]
fn unit_enum_hoists_nothing() {
    let e = EnumDef::UnitEnum { shared: shared("Color", &[]), variants: vec![variant("Red")] };
    assert!(hoist_anonymous_structs(&e).is_empty());
}

#[test]
fn pascal_case_of_identifiers() {
    assert_eq!(to_pascal_case(&"my_variant".to_string()), "MyVariant");
    assert_eq!(to_pascal_case(&"URL_PATH".to_string()), "UrlPath");
    assert_eq!(to_pascal_case(&"Ready".to_string()), "Ready");
}

#[test]
fn quoting_escapes_quotes_and_backslashes() {
    assert_eq!(quote(&"a\"b\\c".to_string()), "\"a\\\"b\\\\c\"");
    assert_eq!(quote(&"user-id".to_string()), "\"user-id\"");
    assert_eq!(quote(&"a\u{1b}b\u{7f}".to_string()), "\"a\\u001bb\\u007f\"");
    assert_eq!(quote(&"x\ny".to_string()), "\"x\\ny\"");
}

#[test]
fn dashes_become_underscores() {
    assert_eq!(remove_dash_from_identifier(&"user-id-x".to_string()), "user_id_x");
}

#[test]
fn type_mappings_replace_earlier_entries() {
    let mut m = TypeMappings::new();
    m.insert("Url".to_string(), "String".to_string());
    m.insert("Date".to_string(), "Instant".to_string());
    m.insert("Url".to_string(), "URI".to_string());
    assert_eq!(m.get(&"Url".to_string()).cloned(), Some("URI".to_string()));
    assert_eq!(m.get(&"Date".to_string()).cloned(), Some("Instant".to_string()));
    assert_eq!(m.get(&"Other".to_string()), None);
    assert_eq!(m.keys(), vec!["Url".to_string(), "Date".to_string()]);
}
