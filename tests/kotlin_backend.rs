use jvm_typegen::kotlin::{Kotlin, Visibility};
use jvm_typegen::mapping::TypeMappings;
use jvm_typegen::model::{
    AliasDef, ConstDef, Decorator, DecoratorKind, EnumDef, EnumShared, FieldDef, GenError, Id,
    ImportGroup, Model, ModelType, StructDef, TypeOverride, Variant, VariantShared,
};

fn kid(s: &str) -> Id {
    Id { original: s.to_string(), renamed: s.to_string(), serde_rename: false }
}

fn kfield(name: &str, ty: ModelType) -> FieldDef {
    FieldDef { id: kid(name), ty, comments: vec![], has_default: false, type_overrides: vec![] }
}

fn kbackend(prefix: &str) -> Kotlin {
    Kotlin {
        package: "com.example".to_string(),
        module_name: String::new(),
        prefix: prefix.to_string(),
        type_mappings: TypeMappings::new(),
        no_version_header: true,
    }
}

fn kstruct(name: &str, fields: Vec<FieldDef>, redacted: bool) -> StructDef {
    StructDef {
        id: kid(name),
        fields,
        generic_params: vec![],
        comments: vec![],
        is_redacted: redacted,
        decorators: vec![],
    }
}

fn kalias(name: &str, target: ModelType) -> AliasDef {
    AliasDef {
        id: kid(name),
        target,
        generic_params: vec![],
        comments: vec![],
        is_redacted: false,
        decorators: vec![],
    }
}

fn kshared(name: &str, generics: &[&str]) -> EnumShared {
    EnumShared {
        id: kid(name),
        generic_params: generics.iter().map(|g| g.to_string()).collect(),
        comments: vec![],
        is_redacted: false,
        decorators: vec![],
    }
}

fn kvariant(name: &str) -> VariantShared {
    VariantShared { id: kid(name), comments: vec![] }
}

fn status_union() -> EnumDef {
    EnumDef::TaggedUnion {
        shared: kshared("Status", &[]),
        content_key: "count".to_string(),
        variants: vec![
            Variant::NoPayload(kvariant("Loading")),
            Variant::SinglePayload { shared: kvariant("Ready"), ty: ModelType::U32 },
        ],
    }
}

#[test]
fn kotlin_alias_is_prefixed_typealias() {
    let k = kbackend("Core");
    let a = kalias("UserId", ModelType::Str);
    assert_eq!(k.write_type_alias(&a).unwrap(), "typealias CoreUserId = String\n\n");
}

#[test]
fn kotlin_union_with_singleton_and_unsigned_payload() {
    let k = kbackend("");
    let expected = "@Serializable\n\
sealed class Status {\n\
\t@Serializable\n\
\t@SerialName(\"Loading\")\n\
\tobject Loading: Status()\n\
\t@Serializable\n\
\t@SerialName(\"Ready\")\n\
\tdata class Ready(val count: UInt): Status()\n\
}\n\n";
    assert_eq!(k.write_enum(&status_union()).unwrap(), expected);
}

#[test]
fn kotlin_dashed_field_keeps_wire_name() {
    let k = kbackend("");
    let mut f = kfield("user_id", ModelType::Str);
    f.id.renamed = "user-id".to_string();
    let s = kstruct("User", vec![f, kfield("age", ModelType::U8)], false);
    let expected = "@Serializable\n\
data class User (\n\
\t@SerialName(\"user-id\")\n\
\tval user_id: String,\n\
\t@SerialName(\"age\")\n\
\tval age: UByte\n\
)\n\n";
    assert_eq!(k.write_struct(&s).unwrap(), expected);
}

#[test]
fn kotlin_optional_field_defaults_to_null() {
    let k = kbackend("");
    let opt = ModelType::Optional(Box::new(ModelType::I32));
    let mut f = kfield("x", opt);
    let plain = k.write_element(&f, &vec![], false, Visibility::Public).unwrap();
    f.has_default = true;
    let flagged = k.write_element(&f, &vec![], false, Visibility::Public).unwrap();
    assert_eq!(plain, "\tval x: Int? = null");
    assert_eq!(flagged, plain);
    let mut g = kfield("y", ModelType::Bool);
    g.has_default = true;
    assert_eq!(k.write_element(&g, &vec![], false, Visibility::Private).unwrap(), "\tprivate val y: Boolean? = null");
}

#[test]
fn kotlin_redacted_struct_masks_its_text() {
    let k = kbackend("");
    let s = kstruct("Secret", vec![kfield("token", ModelType::Str)], true);
    let expected = "@Serializable\n\
data class Secret (\n\
\tval token: String\n\
) {\n\
\toverride fun toString(): String = \"Secret\"\n\
}\n\n";
    assert_eq!(k.write_struct(&s).unwrap(), expected);
}

#[test]
fn kotlin_redacted_inline_value_masks_its_text() {
    let k = kbackend("");
    let mut a = kalias("Password", ModelType::Str);
    a.is_redacted = true;
    a.decorators = vec![Decorator { kind: DecoratorKind::Kotlin, flag: "JvmInline".to_string() }];
    let expected = "@Serializable\n\
@JvmInline\n\
value class Password(\n\
\tprivate val value: String\n\
) {\n\
\tfun unwrap() = value\n\
\n\
\toverride fun toString(): String = \"***\"\n\
}\n\n";
    assert_eq!(k.write_type_alias(&a).unwrap(), expected);
}

#[test]
fn kotlin_inline_flag_only_counts_for_this_backend() {
    let k = kbackend("");
    let mine = vec![Decorator { kind: DecoratorKind::Kotlin, flag: "JvmInline".to_string() }];
    let other = vec![Decorator { kind: DecoratorKind::Scala, flag: "JvmInline".to_string() }];
    assert!(k.is_inline(&mine));
    assert!(!k.is_inline(&other));
    assert!(!k.is_inline(&vec![]));
}

#[test]
fn kotlin_hoists_inline_records_before_the_union() {
    let k = kbackend("");
    let e = EnumDef::TaggedUnion {
        shared: kshared("Event", &["T", "U"]),
        content_key: "content".to_string(),
        variants: vec![
            Variant::InlineRecord {
                shared: kvariant("Started"),
                fields: vec![
                    kfield("at", ModelType::Simple { id: "U".to_string() }),
                    kfield("by", ModelType::Simple { id: "T".to_string() }),
                ],
            },
            Variant::NoPayload(kvariant("Stopped")),
        ],
    };
    let expected = "@Serializable\n\
data class EventStartedInner<U, T> (\n\
\tval at: U,\n\
\tval by: T\n\
)\n\n\
@Serializable\n\
sealed class Event<T, U> {\n\
\t@Serializable\n\
\t@SerialName(\"Started\")\n\
\tdata class Started<T, U>(val content: EventStartedInner<U, T>): Event<T, U>()\n\
\t@Serializable\n\
\t@SerialName(\"Stopped\")\n\
\tobject Stopped: Event<T, U>()\n\
}\n\n";
    assert_eq!(k.write_enum(&e).unwrap(), expected);
}

#[test]
fn kotlin_unit_enum() {
    let k = kbackend("");
    let mut red = kvariant("Red");
    red.id.renamed = "red".to_string();
    let e = EnumDef::UnitEnum { shared: kshared("Color", &[]), variants: vec![red] };
    let expected = "@Serializable\n\
enum class Color(val string: String) {\n\
\t@SerialName(\"red\")\n\
\tRed(\"red\"),\n\
}\n\n";
    assert_eq!(k.write_enum(&e).unwrap(), expected);
}

#[test]
fn kotlin_variant_names_get_pascal_case_and_digit_guard() {
    let k = kbackend("");
    let e = EnumDef::TaggedUnion {
        shared: kshared("Step", &[]),
        content_key: "c".to_string(),
        variants: vec![Variant::NoPayload(kvariant("1st")), Variant::NoPayload(kvariant("go_on"))],
    };
    let out = k.write_enum(&e).unwrap();
    assert!(out.contains("\tobject _1st: Step()\n"));
    assert!(out.contains("\tobject GoOn: Step()\n"));
}

#[test]
fn kotlin_type_projection() {
    let mut k = kbackend("Pre");
    k.type_mappings.insert("Url".to_string(), "java.net.URI".to_string());
    let generics = vec!["T".to_string()];
    let map = ModelType::Dictionary(
        Box::new(ModelType::Str),
        Box::new(ModelType::List(Box::new(ModelType::Simple { id: "T".to_string() }))),
    );
    assert_eq!(k.format_type(&map, &generics).unwrap(), "HashMap<String, List<T>>");
    assert_eq!(k.format_type(&ModelType::Simple { id: "Url".to_string() }, &generics).unwrap(), "java.net.URI");
    assert_eq!(k.format_type(&ModelType::Simple { id: "User".to_string() }, &generics).unwrap(), "PreUser");
    assert_eq!(k.format_type(&ModelType::FixedArray(Box::new(ModelType::U64), 4), &generics).unwrap(), "List<ULong>");
    assert_eq!(k.format_type(&ModelType::Char, &generics).unwrap(), "String");
    assert_eq!(k.format_type(&ModelType::I54, &generics).unwrap(), "Long");
    assert_eq!(k.format_type(&ModelType::F64, &generics).unwrap(), "Double");
}

#[test]
fn kotlin_date_time_is_unsupported() {
    let k = kbackend("");
    let t = ModelType::Optional(Box::new(ModelType::DateTime));
    assert_eq!(k.format_type(&t, &vec![]), Err(GenError::UnsupportedType));
    let s = kstruct("When", vec![kfield("at", ModelType::DateTime)], false);
    assert_eq!(k.write_struct(&s), Err(GenError::UnsupportedType));
}

#[test]
fn kotlin_type_override_replaces_projection() {
    let k = kbackend("");
    let mut f = kfield("at", ModelType::DateTime);
    f.type_overrides = vec![TypeOverride { kind: DecoratorKind::Kotlin, ty: "Instant".to_string() }];
    assert_eq!(k.write_element(&f, &vec![], false, Visibility::Public).unwrap(), "\tval at: Instant");
}

#[test]
fn kotlin_constants_are_unsupported() {
    let k = kbackend("");
    let c = ConstDef { id: kid("MAX"), ty: ModelType::U32, value: "3".to_string() };
    assert_eq!(k.write_const(&c), Err(GenError::UnsupportedCapability));
}

#[test]
fn kotlin_preamble() {
    let mut k = kbackend("");
    k.no_version_header = false;
    let data = Model { crate_name: "core".to_string(), structs: vec![], enums: vec![], aliases: vec![], multi_file: true };
    let expected = "/**\n * Generated by jvm_typegen 0.1.0\n */\n\n\
package com.example.core\n\n\
import kotlinx.serialization.Serializable\n\
import kotlinx.serialization.SerialName\n\n";
    assert_eq!(k.begin_file(&data), expected);
    k.package = String::new();
    assert_eq!(k.begin_file(&data), "");
}

#[test]
fn kotlin_imports() {
    let k = kbackend("");
    let imports = vec![ImportGroup { path: "other".to_string(), types: vec!["A".to_string(), "B".to_string()] }];
    assert_eq!(k.write_imports(&imports), "import com.example.other.A\nimport com.example.other.B\n\n");
}

#[test]
fn kotlin_comments() {
    let k = kbackend("");
    assert_eq!(k.write_comment(1, &"hi".to_string()), "\t/// hi\n");
    assert_eq!(k.write_comments(0, &vec!["a".to_string(), "b".to_string()]), "/// a\n/// b\n");
}

#[test]
fn kotlin_one_declaration_per_definition() {
    let k = kbackend("");
    let data = Model {
        crate_name: "core".to_string(),
        structs: vec![kstruct("User", vec![kfield("name", ModelType::Str)], false)],
        enums: vec![EnumDef::UnitEnum { shared: kshared("Color", &[]), variants: vec![kvariant("Red")] }],
        aliases: vec![kalias("UserId", ModelType::Str)],
        multi_file: false,
    };
    let out = k.generate_types(&vec![], &data).unwrap();
    assert_eq!(out.matches("typealias UserId").count(), 1);
    assert_eq!(out.matches("data class User").count(), 1);
    assert_eq!(out.matches("enum class Color").count(), 1);
    assert!(out.starts_with("package com.example\n"));
}

#[test]
fn kotlin_ignored_reference_types_are_the_mapped_names() {
    let mut k = kbackend("");
    k.type_mappings.insert("Url".to_string(), "URI".to_string());
    assert_eq!(k.ignored_reference_types(), vec!["Url".to_string()]);
}

#[test]
fn kotlin_renamed_union_variants_extend_the_declared_class() {
    let k = kbackend("Pre");
    let mut sh = kshared("Status", &[]);
    sh.id.renamed = "State".to_string();
    let e = EnumDef::TaggedUnion {
        shared: sh,
        content_key: "count".to_string(),
        variants: vec![
            Variant::NoPayload(kvariant("Loading")),
            Variant::SinglePayload { shared: kvariant("Ready"), ty: ModelType::U32 },
        ],
    };
    let out = k.write_enum(&e).unwrap();
    assert!(out.contains("sealed class PreState {\n"));
    assert!(out.contains("\tobject Loading: PreState()\n"));
    assert!(out.contains("\tdata class Ready(val count: UInt): PreState()\n"));
    assert!(!out.contains("PreStatus"));
}
