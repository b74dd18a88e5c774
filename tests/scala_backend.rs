use jvm_typegen::mapping::TypeMappings;
use jvm_typegen::model::{
    AliasDef, EnumDef, EnumShared, FieldDef, GenError, Id, ImportGroup, Model, ModelType, StructDef,
    Variant, VariantShared,
};
use jvm_typegen::scala::Scala;

fn sid(s: &str) -> Id {
    Id { original: s.to_string(), renamed: s.to_string(), serde_rename: false }
}

fn sfield(name: &str, ty: ModelType) -> FieldDef {
    FieldDef { id: sid(name), ty, comments: vec![], has_default: false, type_overrides: vec![] }
}

fn sbackend(package: &str) -> Scala {
    Scala::new(package.to_string(), String::new(), TypeMappings::new(), true).unwrap()
}

fn sstruct(name: &str, fields: Vec<FieldDef>, redacted: bool) -> StructDef {
    StructDef {
        id: sid(name),
        fields,
        generic_params: vec![],
        comments: vec![],
        is_redacted: redacted,
        decorators: vec![],
    }
}

fn sshared(name: &str) -> EnumShared {
    EnumShared { id: sid(name), generic_params: vec![], comments: vec![], is_redacted: false, decorators: vec![] }
}

fn svariant(name: &str) -> VariantShared {
    VariantShared { id: sid(name), comments: vec![] }
}

fn scala_status() -> EnumDef {
    EnumDef::TaggedUnion {
        shared: sshared("Status"),
        content_key: "count".to_string(),
        variants: vec![
            Variant::NoPayload(svariant("Loading")),
            Variant::SinglePayload { shared: svariant("Ready"), ty: ModelType::U32 },
        ],
    }
}

const STATUS_TEXT: &str = "sealed trait Status {\n\
\tdef serialName: String\n\
}\n\
object Status {\n\
\tcase object Loading extends Status {\n\
\t\tval serialName: String = \"Loading\"\n\
\t}\n\
\tcase class Ready(count: UInt) extends Status {\n\
\t\tval serialName: String = \"Ready\"\n\
\t}\n\
}\n\n";

#[test]
fn scala_alias_is_plain_type() {
    let s = sbackend("com.example.models");
    let a = AliasDef {
        id: sid("UserId"),
        target: ModelType::Str,
        generic_params: vec![],
        comments: vec![],
        is_redacted: false,
        decorators: vec![],
    };
    assert_eq!(s.write_type_alias(&a).unwrap(), "type UserId = String\n\n");
}

#[test]
fn scala_union_with_singleton_and_unsigned_payload() {
    let s = sbackend("com.example.models");
    assert_eq!(s.write_enum(&scala_status()).unwrap(), STATUS_TEXT);
}

#[test]
fn scala_unsigned_payload_brings_signed_aliases() {
    let s = sbackend("com.example.models");
    let data = Model { crate_name: "core".to_string(), structs: vec![], enums: vec![scala_status()], aliases: vec![], multi_file: false };
    let expected = format!(
        "package com.example\n\npackage object models {{\n\ntype UByte = Byte\ntype UShort = Short\ntype UInt = Int\ntype ULong = Int\n\n}}\npackage models {{\n\n{}}}\n",
        STATUS_TEXT
    );
    assert_eq!(s.generate_types(&data).unwrap(), expected);
}

#[test]
fn scala_optional_field_defaults_to_none() {
    let s = sbackend("com.example.models");
    let mut f = sfield("x", ModelType::Optional(Box::new(ModelType::I32)));
    let plain = s.write_element(&f, &vec![], false).unwrap();
    f.has_default = true;
    assert_eq!(plain, "\tx: Option[Int] = None");
    assert_eq!(s.write_element(&f, &vec![], false).unwrap(), plain);
    let mut g = sfield("y", ModelType::Bool);
    g.has_default = true;
    assert_eq!(s.write_element(&g, &vec![], false).unwrap(), "\ty: Boolean = _");
}

#[test]
fn scala_redacted_struct_masks_its_text() {
    let s = sbackend("com.example.models");
    let st = sstruct("Secret", vec![sfield("token", ModelType::Str)], true);
    let expected = "case class Secret (\n\
\ttoken: String\n\
) {\n\
\toverride def toString: String = \"Secret\"\n\
}\n\n";
    assert_eq!(s.write_struct(&st).unwrap(), expected);
}

#[test]
fn scala_struct_and_empty_struct() {
    let s = sbackend("com.example.models");
    let mut f = sfield("user_id", ModelType::Str);
    f.id.renamed = "user-id".to_string();
    let st = sstruct("User", vec![f, sfield("tags", ModelType::List(Box::new(ModelType::Str)))], false);
    let expected = "case class User (\n\
\t@SerialName(\"user-id\")\n\
\tuser_id: String,\n\
\t@SerialName(\"tags\")\n\
\ttags: Vector[String]\n\
)\n\n";
    assert_eq!(s.write_struct(&st).unwrap(), expected);
    let plain = sstruct("Tag", vec![sfield("name", ModelType::Str)], false);
    assert_eq!(s.write_struct(&plain).unwrap(), "case class Tag (\n\tname: String\n)\n\n");
    assert_eq!(s.write_struct(&sstruct("Empty", vec![], false)).unwrap(), "class Empty extends Serializable\n\n");
}

#[test]
fn scala_unit_enum() {
    let s = sbackend("com.example.models");
    let mut red = svariant("Red");
    red.id.renamed = "red".to_string();
    let e = EnumDef::UnitEnum { shared: sshared("Color"), variants: vec![red] };
    let expected = "sealed trait Color {\n\
\tdef serialName: String\n\
}\n\
object Color {\n\
\tcase object Red extends Color {\n\
\t\tval serialName: String = \"red\"\n\
\t}\n\
}\n\n";
    assert_eq!(s.write_enum(&e).unwrap(), expected);
}

#[test]
fn scala_type_projection() {
    let s = sbackend("com.example.models");
    let map = ModelType::Dictionary(Box::new(ModelType::Str), Box::new(ModelType::Slice(Box::new(ModelType::U64))));
    assert_eq!(s.format_type(&map, &vec![]).unwrap(), "Map[String, Vector[ULong]]");
    assert_eq!(s.format_type(&ModelType::Simple { id: "User".to_string() }, &vec![]).unwrap(), "User");
    assert_eq!(s.format_type(&ModelType::DateTime, &vec![]), Err(GenError::UnsupportedType));
}

#[test]
fn scala_generic_parameters() {
    let s = sbackend("com.example.models");
    assert_eq!(s.format_generic_parameters(&vec!["A".to_string(), "B".to_string()]), "[A, B]");
}

#[test]
fn scala_requires_a_package() {
    let r = Scala::new(String::new(), String::new(), TypeMappings::new(), true);
    assert!(matches!(r, Err(GenError::MissingPackage)));
}

#[test]
fn scala_imports_are_unsupported() {
    let s = sbackend("com.example.models");
    let imports = vec![ImportGroup { path: "x".to_string(), types: vec![] }];
    assert_eq!(s.write_imports(&imports), Err(GenError::UnsupportedCapability));
}

#[test]
fn scala_package_lines() {
    let mut s = sbackend("com.example.models");
    s.no_version_header = false;
    assert_eq!(s.begin_file().unwrap(), "/**\n * Generated by jvm_typegen 0.1.0\n */\npackage com.example\n\n");
    assert_eq!(s.begin_package_object(), "package object models {\n\n");
    assert_eq!(s.begin_package(), "package models {\n\n");
    assert_eq!(s.end_package(), "}\n");
    assert_eq!(s.end_package_object(), "}\n");
    let flat = sbackend("models");
    assert_eq!(flat.begin_package(), "");
}

#[test]
fn scala_unsigned_detection_covers_the_whole_type() {
    let s = sbackend("com.example.models");
    let with = |ty: ModelType| Model {
        crate_name: "c".to_string(),
        structs: vec![sstruct("S", vec![sfield("f", ty)], false)],
        enums: vec![],
        aliases: vec![],
        multi_file: false,
    };
    assert!(s.unsigned_integer_used(&with(ModelType::Optional(Box::new(ModelType::U8)))));
    assert!(!s.unsigned_integer_used(&with(ModelType::I32)));
    assert!(s.unsigned_integer_used(&with(ModelType::List(Box::new(ModelType::List(Box::new(ModelType::U8)))))));
    assert!(s.unsigned_integer_used(&with(ModelType::List(Box::new(ModelType::Optional(Box::new(ModelType::U32)))))));
    assert!(s.unsigned_integer_used(&with(ModelType::FixedArray(Box::new(ModelType::U16), 3))));
    assert!(s.unsigned_integer_used(&with(ModelType::Slice(Box::new(ModelType::U64)))));
    assert!(!s.unsigned_integer_used(&with(ModelType::List(Box::new(ModelType::I64)))));
}

#[test]
fn scala_hoisted_record_reference() {
    let s = sbackend("com.example.models");
    let e = EnumDef::TaggedUnion {
        shared: EnumShared {
            id: sid("Event"),
            generic_params: vec!["T".to_string(), "U".to_string()],
            comments: vec![],
            is_redacted: false,
            decorators: vec![],
        },
        content_key: "content".to_string(),
        variants: vec![Variant::InlineRecord {
            shared: svariant("Started"),
            fields: vec![
                sfield("a", ModelType::Simple { id: "T".to_string() }),
                sfield("b", ModelType::Simple { id: "U".to_string() }),
            ],
        }],
    };
    let out = s.write_enum(&e).unwrap();
    assert!(out.starts_with("case class EventStartedInner[T, U] (\n\ta: T,\n\tb: U\n)\n\n"));
    assert!(out.contains("\tcase class Started[T, U](content: EventStartedInner[T, U]) extends Event[T, U] {\n"));
}

#[test]
fn scala_renamed_union_variants_extend_the_declared_trait() {
    let s = sbackend("com.example.models");
    let mut sh = sshared("Status");
    sh.id.renamed = "State".to_string();
    let e = EnumDef::TaggedUnion {
        shared: sh,
        content_key: "count".to_string(),
        variants: vec![Variant::SinglePayload { shared: svariant("Ready"), ty: ModelType::U32 }],
    };
    let out = s.write_enum(&e).unwrap();
    assert!(out.starts_with("sealed trait State {\n"));
    assert!(out.contains("object State {\n"));
    assert!(out.contains("\tcase class Ready(count: UInt) extends State {\n"));
    assert!(!out.contains("extends Status"));
}

#[test]
fn scala_nested_unsigned_brings_aliases() {
    let s = sbackend("com.example.models");
    let st = sstruct("Counts", vec![sfield("n", ModelType::List(Box::new(ModelType::Optional(Box::new(ModelType::U32)))))], false);
    let data = Model { crate_name: "c".to_string(), structs: vec![st], enums: vec![], aliases: vec![], multi_file: false };
    let out = s.generate_types(&data).unwrap();
    assert!(out.contains("type UInt = Int\n"));
    assert!(out.contains("\tn: Vector[Option[UInt]]\n"));
}
