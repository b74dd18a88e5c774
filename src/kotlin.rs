use vstd::prelude::*;
use itertools::Itertools;

use crate::hoist::{
    anonymous_struct_generics, hoist_anonymous_structs, hoisted_for, hoisted_name, hoisting_of, inline_positions, lemma_no_inline_records,
    record_fields, referenced_generics, HoistedRecord,
};
use crate::mapping::{entry_names, TypeMappings};
use crate::model::{
    override_for, representable, AliasDef, ConstDef, Decorator, DecoratorKind, EnumDef,
    EnumShared, FieldDef, GenError, ImportGroup, Model, ModelType, StructDef, Variant,
    VariantShared,
};
use crate::model::{all_fields_typed, field_typed, fields_typed};
use crate::text::{
    needs_serial, needs_serial_name, serial_part, serial_name, serial_name_line, surround, version_header, write_version_header,
    append_comments, comment_lines, concat_all, contains_string, digit_guarded,
    format_param_list, guard_leading_digit, join_with_comma, joined, pascal, param_list, quote, quoted,
    remove_dash_from_identifier, sanitized, strs, tab_string, tabs, to_pascal_case,
};

verus! {

/// Whether a field of a definition may be read from outside it.
#[derive(PartialEq, Eq, Structural, Clone, Copy, Debug)]
pub enum Visibility {
    Public,
    Private,
}

/// Configuration of the null-safety backend.
pub struct Kotlin {
    /// Name of the package.
    pub package: String,
    /// Name of the module.
    pub module_name: String,
    /// Put in front of every user-defined type name.
    pub prefix: String,
    /// Origin type names to target type names.
    pub type_mappings: TypeMappings,
    /// Leave out the version header at the top of a file.
    pub no_version_header: bool,
}

/// The flags that `decorators` give this backend, in order.
pub open spec fn kotlin_flags(decorators: Seq<Decorator>) -> Seq<Seq<char>>
    decreases decorators.len(),
{
    if decorators.len() == 0 {
        Seq::empty()
    } else if decorators.last().kind == DecoratorKind::Kotlin {
        kotlin_flags(decorators.drop_last()).push(decorators.last().flag@)
    } else {
        kotlin_flags(decorators.drop_last())
    }
}

/// A definition flagged to be emitted as an inline value class.
pub open spec fn inline_flagged(decorators: Seq<Decorator>) -> bool {
    kotlin_flags(decorators).contains("JvmInline"@)
}

/// The default that a field gets: `= null` for an optional type, `? = null`
/// for another type with a default, none otherwise.
pub open spec fn default_suffix(f: FieldDef) -> Seq<char> {
    if f.ty is Optional {
        " = null"@
    } else if f.has_default {
        "? = null"@
    } else {
        Seq::empty()
    }
}

pub open spec fn visibility_text(v: Visibility) -> Seq<char> {
    match v {
        Visibility::Public => "\tval "@,
        Visibility::Private => "\tprivate val "@,
    }
}

pub open spec fn field_type_ok(f: FieldDef) -> bool {
    field_typed(f, DecoratorKind::Kotlin)
}

pub open spec fn fields_ok(fields: Seq<FieldDef>) -> bool {
    all_fields_typed(fields, DecoratorKind::Kotlin)
}

pub open spec fn variant_ok(v: Variant) -> bool {
    match v {
        Variant::NoPayload(_) => true,
        Variant::SinglePayload { ty, .. } => representable(ty),
        Variant::InlineRecord { fields, .. } => fields_ok(fields@),
    }
}

pub open spec fn enum_ok(e: EnumDef) -> bool {
    match e {
        EnumDef::UnitEnum { .. } => true,
        EnumDef::TaggedUnion { variants, .. } => forall|i: int|
            0 <= i < variants@.len() ==> variant_ok(#[trigger] variants@[i]),
    }
}

/// The name of a union case: Pascal case, with a leading underscore before a digit.
pub open spec fn variant_ident(original: Seq<char>) -> Seq<char> {
    digit_guarded(pascal(original))
}

pub open spec fn unit_variant_text(v: VariantShared) -> Seq<char> {
    comment_lines(1, "/// "@, strs(v.comments@)) + serial_name_line(v.id.renamed@) + "\t"@
        + v.id.original@ + "("@ + quoted(v.id.renamed@) + "),\n"@
}

pub open spec fn model_ok(data: Model) -> bool {
    &&& forall|i: int| 0 <= i < data.aliases@.len() ==> representable(#[trigger] data.aliases@[i].target)
    &&& forall|i: int| 0 <= i < data.structs@.len() ==> fields_ok(#[trigger] data.structs@[i].fields@)
    &&& forall|i: int| 0 <= i < data.enums@.len() ==> enum_ok(#[trigger] data.enums@[i])
}

pub open spec fn redacted_tail(name: Seq<char>, redacted: bool) -> Seq<char> {
    if redacted {
        ") {\n"@ + "\toverride fun toString(): String = "@ + quoted(name) + "\n"@ + "}\n"@
    } else {
        ")\n"@
    }
}

pub open spec fn value_visibility(redacted: bool) -> Visibility {
    if redacted {
        Visibility::Private
    } else {
        Visibility::Public
    }
}

pub open spec fn optional_default(t: ModelType) -> Seq<char> {
    if t is Optional {
        " = null"@
    } else {
        Seq::empty()
    }
}

/// The end of an inline value class; a redacted one masks its text as `***`.
pub open spec fn inline_tail(redacted: bool) -> Seq<char> {
    if redacted {
        ") {\n"@ + "\tfun unwrap() = value\n"@ + "\n"@ + "\toverride fun toString(): String = \"***\"\n"@
            + "}\n"@
    } else {
        ")\n"@
    }
}

/// An empty line after the version header, when there is one.
pub open spec fn header_gap(suppressed: bool) -> Seq<char> {
    if suppressed {
        Seq::empty()
    } else {
        "\n"@
    }
}

pub open spec fn crate_suffix(data: Model) -> Seq<char> {
    if data.multi_file {
        "."@ + data.crate_name@
    } else {
        Seq::empty()
    }
}

impl Kotlin {
    pub open spec fn simple_text(&self, base: Seq<char>, generics: Seq<Seq<char>>) -> Seq<char> {
        if generics.contains(base) {
            base
        } else {
            match self.type_mappings.spec_get(base) {
                Some(m) => m,
                None => self.prefix@ + base,
            }
        }
    }

    /// The target syntax of `t`, with `generics` in scope.
    pub open spec fn type_text(&self, t: ModelType, generics: Seq<Seq<char>>) -> Seq<char>
        decreases t,
    {
        match t {
            ModelType::Simple { id } => self.simple_text(id@, generics),
            ModelType::List(e) => "List<"@ + self.type_text(*e, generics) + ">"@,
            ModelType::FixedArray(e, _) => "List<"@ + self.type_text(*e, generics) + ">"@,
            ModelType::Slice(e) => "List<"@ + self.type_text(*e, generics) + ">"@,
            ModelType::Optional(e) => self.type_text(*e, generics) + "?"@,
            ModelType::Dictionary(k, v) => "HashMap<"@ + self.type_text(*k, generics) + ", "@
                + self.type_text(*v, generics) + ">"@,
            ModelType::Unit => "Unit"@,
            ModelType::Str => "String"@,
            ModelType::Char => "String"@,
            ModelType::I8 => "Byte"@,
            ModelType::I16 => "Short"@,
            ModelType::I32 => "Int"@,
            ModelType::ISize => "Int"@,
            ModelType::I54 => "Long"@,
            ModelType::I64 => "Long"@,
            ModelType::U8 => "UByte"@,
            ModelType::U16 => "UShort"@,
            ModelType::U32 => "UInt"@,
            ModelType::USize => "UInt"@,
            ModelType::U53 => "ULong"@,
            ModelType::U64 => "ULong"@,
            ModelType::Bool => "Boolean"@,
            ModelType::F32 => "Float"@,
            ModelType::F64 => "Double"@,
            ModelType::DateTime => Seq::empty(),
        }
    }

    pub open spec fn field_type_text(&self, f: FieldDef, generics: Seq<Seq<char>>) -> Seq<char> {
        match override_for(f.type_overrides@, DecoratorKind::Kotlin) {
            Some(o) => o,
            None => self.type_text(f.ty, generics),
        }
    }

    pub open spec fn element_text(
        &self,
        f: FieldDef,
        generics: Seq<Seq<char>>,
        serial: bool,
        vis: Visibility,
    ) -> Seq<char> {
        comment_lines(1, "/// "@, strs(f.comments@)) + serial_part(f.id.renamed@, serial)
            + visibility_text(vis) + sanitized(f.id.renamed@) + ": "@ + self.field_type_text(f, generics)
            + default_suffix(f)
    }

    pub open spec fn elements(&self, fields: Seq<FieldDef>, generics: Seq<Seq<char>>) -> Seq<Seq<char>> {
        Seq::new(
            fields.len(),
            |i: int|
                self.element_text(fields[i], generics, needs_serial_name(fields), Visibility::Public),
        )
    }

    pub open spec fn struct_body(
        &self,
        name: Seq<char>,
        fields: Seq<FieldDef>,
        generics: Seq<Seq<char>>,
        redacted: bool,
    ) -> Seq<char> {
        if fields.len() == 0 {
            "object "@ + self.prefix@ + name + "\n\n"@
        } else {
            "data class "@ + self.prefix@ + name + param_list(generics, "<"@, ">"@) + " (\n"@
                + joined(self.elements(fields, generics), ",\n"@) + "\n"@ + redacted_tail(name, redacted)
                + "\n"@
        }
    }

    /// A data class (or an object, when there are no fields) named `prefix + name`.
    pub open spec fn struct_text(
        &self,
        name: Seq<char>,
        fields: Seq<FieldDef>,
        generics: Seq<Seq<char>>,
        comments: Seq<Seq<char>>,
        redacted: bool,
    ) -> Seq<char> {
        comment_lines(0, "/// "@, comments) + "@Serializable\n"@ + self.struct_body(
            name,
            fields,
            generics,
            redacted,
        )
    }

    pub open spec fn alias_body(&self, a: AliasDef) -> Seq<char> {
        if inline_flagged(a.decorators@) {
            "@Serializable\n"@ + "@JvmInline\n"@ + "value class "@ + self.prefix@ + a.id.renamed@
                + "(\n"@ + visibility_text(value_visibility(a.is_redacted)) + "value: "@
                + self.type_text(a.target, Seq::empty()) + optional_default(a.target) + "\n"@
                + inline_tail(a.is_redacted) + "\n"@
        } else {
            "typealias "@ + self.prefix@ + a.id.original@ + param_list(
                strs(a.generic_params@),
                "<"@,
                ">"@,
            ) + " = "@ + self.type_text(a.target, strs(a.generic_params@)) + "\n\n"@
        }
    }

    pub open spec fn alias_text(&self, a: AliasDef) -> Seq<char> {
        comment_lines(0, "/// "@, strs(a.comments@)) + self.alias_body(a)
    }

    /// The struct synthesized for the inline-record variant `v` of the union `shared`.
    pub open spec fn record_text(&self, shared: EnumShared, v: Variant) -> Seq<char> {
        self.struct_text(
            hoisted_name(shared.id.original@, v.spec_shared().id.original@),
            record_fields(v),
            referenced_generics(strs(shared.generic_params@), record_fields(v)),
            strs(v.spec_shared().comments@),
            shared.is_redacted,
        )
    }

    pub open spec fn record_texts(&self, shared: EnumShared, variants: Seq<Variant>) -> Seq<Seq<char>> {
        Seq::new(
            inline_positions(variants).len(),
            |k: int| self.record_text(shared, variants[inline_positions(variants)[k]]),
        )
    }

    pub open spec fn variant_decl(&self, shared: EnumShared, content_key: Seq<char>, v: Variant) -> Seq<char> {
        let egen = strs(shared.generic_params@);
        let vs = v.spec_shared();
        match v {
            Variant::NoPayload(_) => "\tobject "@ + variant_ident(vs.id.original@),
            Variant::SinglePayload { ty, .. } => "\tdata class "@ + variant_ident(vs.id.original@)
                + param_list(egen, "<"@, ">"@) + "("@ + "val "@ + content_key + ": "@
                + self.type_text(ty, egen) + ")"@,
            Variant::InlineRecord { fields, .. } => "\tdata class "@ + variant_ident(
                vs.id.original@,
            ) + param_list(egen, "<"@, ">"@) + "("@ + "val "@ + content_key + ": "@ + self.prefix@
                + hoisted_name(shared.id.original@, vs.id.original@) + param_list(
                referenced_generics(egen, fields@),
                "<"@,
                ">"@,
            ) + ")"@,
        }
    }

    pub open spec fn tagged_variant_text(
        &self,
        shared: EnumShared,
        content_key: Seq<char>,
        v: Variant,
    ) -> Seq<char> {
        comment_lines(1, "/// "@, strs(v.spec_shared().comments@)) + "\t@Serializable\n"@
            + serial_name_line(v.spec_shared().id.renamed@) + self.variant_decl(shared, content_key, v)
            + ": "@ + self.prefix@ + shared.id.renamed@ + param_list(
            strs(shared.generic_params@),
            "<"@,
            ">"@,
        ) + "()\n"@
    }

    pub open spec fn variant_texts(&self, e: EnumDef) -> Seq<Seq<char>> {
        match e {
            EnumDef::UnitEnum { variants, .. } => Seq::new(
                variants@.len(),
                |i: int| unit_variant_text(variants@[i]),
            ),
            EnumDef::TaggedUnion { shared, content_key, variants } => Seq::new(
                variants@.len(),
                |i: int| self.tagged_variant_text(shared, content_key@, variants@[i]),
            ),
        }
    }

    pub open spec fn enum_hoisted(&self, e: EnumDef) -> Seq<char> {
        match e {
            EnumDef::UnitEnum { .. } => Seq::empty(),
            EnumDef::TaggedUnion { shared, variants, .. } => concat_all(
                self.record_texts(shared, variants@),
            ),
        }
    }

    pub open spec fn enum_head(&self, e: EnumDef) -> Seq<char> {
        match e {
            EnumDef::UnitEnum { shared, .. } => "enum class "@ + self.prefix@ + shared.id.renamed@
                + param_list(strs(shared.generic_params@), "<"@, ">"@) + "(val string: String) "@,
            EnumDef::TaggedUnion { shared, .. } => "sealed class "@ + self.prefix@
                + shared.id.renamed@ + param_list(strs(shared.generic_params@), "<"@, ">"@) + " "@,
        }
    }

    /// The structs hoisted from the union's inline records, then the enum
    /// class or sealed class with one entry per variant.
    pub open spec fn enum_text(&self, e: EnumDef) -> Seq<char> {
        self.enum_hoisted(e) + comment_lines(0, "/// "@, strs(e.spec_shared().comments@))
            + "@Serializable\n"@ + self.enum_head(e) + "{\n"@ + concat_all(self.variant_texts(e))
            + "}\n\n"@
    }

    pub open spec fn begin_text(&self, data: Model) -> Seq<char> {
        if self.package@.len() == 0 {
            Seq::empty()
        } else {
            version_header(self.no_version_header) + header_gap(self.no_version_header) + "package "@ + self.package@ + crate_suffix(data)
                + "\n"@ + "\n"@ + "import kotlinx.serialization.Serializable\n"@
                + "import kotlinx.serialization.SerialName\n"@ + "\n"@
        }
    }

    pub open spec fn import_lines(&self, g: ImportGroup) -> Seq<Seq<char>> {
        Seq::new(
            g.types@.len(),
            |j: int| "import "@ + self.package@ + "."@ + g.path@ + "."@ + g.types@[j]@ + "\n"@,
        )
    }

    pub open spec fn import_groups(&self, imports: Seq<ImportGroup>) -> Seq<Seq<char>> {
        Seq::new(imports.len(), |i: int| concat_all(self.import_lines(imports[i])))
    }

    pub open spec fn imports_text(&self, imports: Seq<ImportGroup>) -> Seq<char> {
        concat_all(self.import_groups(imports)) + "\n"@
    }

    pub open spec fn alias_texts(&self, aliases: Seq<AliasDef>) -> Seq<Seq<char>> {
        Seq::new(aliases.len(), |i: int| self.alias_text(aliases[i]))
    }

    pub open spec fn struct_texts(&self, structs: Seq<StructDef>) -> Seq<Seq<char>> {
        Seq::new(
            structs.len(),
            |i: int|
                self.struct_text(
                    structs[i].id.renamed@,
                    structs[i].fields@,
                    strs(structs[i].generic_params@),
                    strs(structs[i].comments@),
                    structs[i].is_redacted,
                ),
        )
    }

    pub open spec fn enum_texts(&self, enums: Seq<EnumDef>) -> Seq<Seq<char>> {
        Seq::new(enums.len(), |i: int| self.enum_text(enums[i]))
    }

    /// A whole file: the preamble, the imports of a multi-file run, then each
    /// alias, struct and enum of `data`, in that order and each once.
    pub open spec fn file_text(&self, imports: Seq<ImportGroup>, data: Model) -> Seq<char> {
        self.begin_text(data) + (if data.multi_file {
            self.imports_text(imports)
        } else {
            Seq::empty()
        }) + concat_all(self.alias_texts(data.aliases@)) + concat_all(
            self.struct_texts(data.structs@),
        ) + concat_all(self.enum_texts(data.enums@))
    }

    pub fn type_map(&self) -> (r: &TypeMappings)
        ensures
            r == &self.type_mappings,
    {
        &self.type_mappings
    }

    /// A named type: a generic parameter as it is, else its mapped name, else prefixed.
    pub fn format_simple_type(&self, base: &String, generic_types: &Vec<String>) -> (r: String)
        ensures
            r@ == self.simple_text(base@, strs(generic_types@)),
    {
        if contains_string(generic_types, base) {
            base.clone()
        } else {
            match self.type_mappings.get(base) {
                Some(m) => m.clone(),
                None => {
                    let mut s = self.prefix.clone();
                    s.append(base.as_str());
                    s
                },
            }
        }
    }

    /// Projects `ty` into target syntax; a date/time anywhere in it has no representation.
    pub fn format_type(&self, ty: &ModelType, generic_types: &Vec<String>) -> (r: Result<
        String,
        GenError,
    >)
        ensures
            r is Ok <==> representable(*ty),
            r matches Ok(s) ==> s@ == self.type_text(*ty, strs(generic_types@)),
            r matches Err(e) ==> e == GenError::UnsupportedType,
        decreases ty,
    {
        match ty {
            ModelType::Simple { id } => Ok(self.format_simple_type(id, generic_types)),
            ModelType::List(e) => match self.format_type(e, generic_types) {
                Ok(s) => Ok(surround("List<", s, ">")),
                Err(x) => Err(x),
            },
            ModelType::FixedArray(e, _) => match self.format_type(e, generic_types) {
                Ok(s) => Ok(surround("List<", s, ">")),
                Err(x) => Err(x),
            },
            ModelType::Slice(e) => match self.format_type(e, generic_types) {
                Ok(s) => Ok(surround("List<", s, ">")),
                Err(x) => Err(x),
            },
            ModelType::Optional(e) => match self.format_type(e, generic_types) {
                Ok(s) => {
                    let mut s = s;
                    s.append("?");
                    Ok(s)
                },
                Err(x) => Err(x),
            },
            ModelType::Dictionary(k, v) => match self.format_type(k, generic_types) {
                Ok(ks) => match self.format_type(v, generic_types) {
                    Ok(vs) => {
                        let mut s = String::from_str("HashMap<");
                        s.append(ks.as_str());
                        s.append(", ");
                        s.append(vs.as_str());
                        s.append(">");
                        Ok(s)
                    },
                    Err(x) => Err(x),
                },
                Err(x) => Err(x),
            },
            ModelType::Unit => Ok(String::from_str("Unit")),
            ModelType::Str => Ok(String::from_str("String")),
            ModelType::Char => Ok(String::from_str("String")),
            ModelType::I8 => Ok(String::from_str("Byte")),
            ModelType::I16 => Ok(String::from_str("Short")),
            ModelType::I32 => Ok(String::from_str("Int")),
            ModelType::ISize => Ok(String::from_str("Int")),
            ModelType::I54 => Ok(String::from_str("Long")),
            ModelType::I64 => Ok(String::from_str("Long")),
            ModelType::U8 => Ok(String::from_str("UByte")),
            ModelType::U16 => Ok(String::from_str("UShort")),
            ModelType::U32 => Ok(String::from_str("UInt")),
            ModelType::USize => Ok(String::from_str("UInt")),
            ModelType::U53 => Ok(String::from_str("ULong")),
            ModelType::U64 => Ok(String::from_str("ULong")),
            ModelType::Bool => Ok(String::from_str("Boolean")),
            ModelType::F32 => Ok(String::from_str("Float")),
            ModelType::F64 => Ok(String::from_str("Double")),
            ModelType::DateTime => Err(GenError::UnsupportedType),
        }
    }

    /// One comment line at `indent` tabs.
    pub fn write_comment(&self, indent: usize, comment: &String) -> (r: String)
        ensures
            r@ == tabs(indent as nat) + "/// "@ + comment@ + "\n"@,
    {
        let mut out = tab_string(indent);
        out.append("/// ");
        out.append(comment.as_str());
        out.append("\n");
        out
    }

    pub fn write_comments(&self, indent: usize, comments: &Vec<String>) -> (r: String)
        ensures
            r@ == comment_lines(indent as nat, "/// "@, strs(comments@)),
    {
        let mut out = String::new();
        append_comments(&mut out, indent, "/// ", comments);
        proof {
            assert(out@ =~= comment_lines(indent as nat, "/// "@, strs(comments@)));
        }
        out
    }

    /// Whether `decorators` flag a definition as an inline value class.
    pub fn is_inline(&self, decorators: &Vec<Decorator>) -> (r: bool)
        ensures
            r == inline_flagged(decorators@),
    {
        let mut flags: Vec<String> = Vec::new();
        let mut i: usize = 0;
        while i < decorators.len()
            invariant
                i <= decorators@.len(),
                strs(flags@) == kotlin_flags(decorators@.take(i as int)),
            decreases decorators@.len() - i,
        {
            proof {
                assert(decorators@.take(i + 1).drop_last() =~= decorators@.take(i as int));
            }
            if decorators[i].kind == DecoratorKind::Kotlin {
                let ghost prev = flags@;
                flags.push(decorators[i].flag.clone());
                proof {
                    assert(strs(flags@) =~= strs(prev).push(decorators@[i as int].flag@));
                }
            }
            i = i + 1;
        }
        proof {
            assert(decorators@.take(decorators@.len() as int) =~= decorators@);
        }
        let inline_flag = String::from_str("JvmInline");
        contains_name(&flags, &inline_flag)
    }

    /// One field: its comments, an optional serial name, then `val name: Type` and its default.
    pub fn write_element(
        &self,
        f: &FieldDef,
        generic_types: &Vec<String>,
        requires_serial_name: bool,
        visibility: Visibility,
    ) -> (r: Result<String, GenError>)
        ensures
            r is Ok <==> field_type_ok(*f),
            r matches Ok(s) ==> s@ == self.element_text(
                *f,
                strs(generic_types@),
                requires_serial_name,
                visibility,
            ),
            r matches Err(e) ==> e == GenError::UnsupportedType,
    {
        let ty = match f.type_override(DecoratorKind::Kotlin) {
            Some(o) => o.clone(),
            None => match self.format_type(&f.ty, generic_types) {
                Ok(s) => s,
                Err(x) => {
                    return Err(x);
                },
            },
        };
        let mut out = String::new();
        append_comments(&mut out, 1, "/// ", &f.comments);
        let serial = if requires_serial_name {
            serial_name(&f.id.renamed)
        } else {
            String::new()
        };
        out.append(serial.as_str());
        let vis = match visibility {
            Visibility::Public => String::from_str("\tval "),
            Visibility::Private => String::from_str("\tprivate val "),
        };
        out.append(vis.as_str());
        let name = remove_dash_from_identifier(&f.id.renamed);
        out.append(name.as_str());
        out.append(": ");
        out.append(ty.as_str());
        let default = if f.ty.is_optional() {
            String::from_str(" = null")
        } else if f.has_default {
            String::from_str("? = null")
        } else {
            String::new()
        };
        out.append(default.as_str());
        proof {
            assert(out@ =~= self.element_text(
                *f,
                strs(generic_types@),
                requires_serial_name,
                visibility,
            ));
        }
        Ok(out)
    }

    fn write_struct_body(
        &self,
        name: &String,
        fields: &Vec<FieldDef>,
        generic_types: &Vec<String>,
        redacted: bool,
    ) -> (r: Result<String, GenError>)
        ensures
            r is Ok <==> fields_ok(fields@),
            r matches Ok(s) ==> s@ == self.struct_body(name@, fields@, strs(generic_types@), redacted),
            r matches Err(e) ==> e == GenError::UnsupportedType,
    {
        let mut out = String::new();
        if fields.len() == 0 {
            out.append("object ");
            out.append(self.prefix.as_str());
            out.append(name.as_str());
            out.append("\n\n");
            proof {
                assert(out@ =~= self.struct_body(name@, fields@, strs(generic_types@), redacted));
            }
            return Ok(out);
        }
        out.append("data class ");
        out.append(self.prefix.as_str());
        out.append(name.as_str());
        let params = format_param_list(generic_types, "<", ">");
        out.append(params.as_str());
        out.append(" (\n");
        let serial = needs_serial(fields);
        let ghost head = out@;
        let ghost elems = self.elements(fields@, strs(generic_types@));
        let mut i: usize = 0;
        while i < fields.len()
            invariant
                i <= fields@.len(),
                serial == needs_serial_name(fields@),
                elems == self.elements(fields@, strs(generic_types@)),
                out@ == head + joined(elems.take(i as int), ",\n"@),
                forall|j: int| 0 <= j < i ==> field_type_ok(#[trigger] fields@[j]),
            decreases fields@.len() - i,
        {
            proof {
                assert(elems.take(i + 1).drop_last() =~= elems.take(i as int));
            }
            match self.write_element(&fields[i], generic_types, serial, Visibility::Public) {
                Ok(el) => {
                    let ghost before = out@;
                    if i > 0 {
                        out.append(",\n");
                    }
                    out.append(el.as_str());
                    proof {
                        assert(el@ == elems[i as int]);
                        assert(elems.take(i + 1).last() == elems[i as int]);
                        if i == 0 {
                            assert(elems.take(i + 1) =~= seq![elems[0]]);
                        }
                        assert(out@ =~= head + joined(elems.take(i + 1), ",\n"@));
                    }
                },
                Err(x) => {
                    return Err(x);
                },
            }
            i = i + 1;
        }
        proof {
            assert(elems.take(fields@.len() as int) =~= elems);
        }
        out.append("\n");
        let tail = if redacted {
            let mut t = String::from_str(") {\n");
            t.append("\toverride fun toString(): String = ");
            let q = quote(name);
            t.append(q.as_str());
            t.append("\n");
            t.append("}\n");
            t
        } else {
            String::from_str(")\n")
        };
        out.append(tail.as_str());
        out.append("\n");
        proof {
            assert(out@ =~= self.struct_body(name@, fields@, strs(generic_types@), redacted));
        }
        Ok(out)
    }

    /// A struct given by its parts; `name` is the renamed identifier.
    pub fn write_struct_parts(
        &self,
        name: &String,
        fields: &Vec<FieldDef>,
        generic_types: &Vec<String>,
        comments: &Vec<String>,
        redacted: bool,
    ) -> (r: Result<String, GenError>)
        ensures
            r is Ok <==> fields_ok(fields@),
            r matches Ok(s) ==> s@ == self.struct_text(
                name@,
                fields@,
                strs(generic_types@),
                strs(comments@),
                redacted,
            ),
            r matches Err(e) ==> e == GenError::UnsupportedType,
    {
        let mut out = String::new();
        append_comments(&mut out, 0, "/// ", comments);
        out.append("@Serializable\n");
        match self.write_struct_body(name, fields, generic_types, redacted) {
            Ok(b) => out.append(b.as_str()),
            Err(x) => {
                return Err(x);
            },
        }
        proof {
            assert(out@ =~= self.struct_text(
                name@,
                fields@,
                strs(generic_types@),
                strs(comments@),
                redacted,
            ));
        }
        Ok(out)
    }

    pub fn write_struct(&self, rs: &StructDef) -> (r: Result<String, GenError>)
        ensures
            r is Ok <==> fields_ok(rs.fields@),
            r matches Ok(s) ==> s@ == self.struct_text(
                rs.id.renamed@,
                rs.fields@,
                strs(rs.generic_params@),
                strs(rs.comments@),
                rs.is_redacted,
            ),
            r matches Err(e) ==> e == GenError::UnsupportedType,
    {
        self.write_struct_parts(
            &rs.id.renamed,
            &rs.fields,
            &rs.generic_params,
            &rs.comments,
            rs.is_redacted,
        )
    }

    fn write_alias_body(&self, ty: &AliasDef) -> (r: Result<String, GenError>)
        ensures
            r is Ok <==> representable(ty.target),
            r matches Ok(s) ==> s@ == self.alias_body(*ty),
            r matches Err(e) ==> e == GenError::UnsupportedType,
    {
        let mut out = String::new();
        if self.is_inline(&ty.decorators) {
            let no_generics: Vec<String> = Vec::new();
            let target = match self.format_type(&ty.target, &no_generics) {
                Ok(s) => s,
                Err(x) => {
                    return Err(x);
                },
            };
            proof {
                assert(strs(no_generics@) =~= Seq::<Seq<char>>::empty());
            }
            out.append("@Serializable\n");
            out.append("@JvmInline\n");
            out.append("value class ");
            out.append(self.prefix.as_str());
            out.append(ty.id.renamed.as_str());
            out.append("(\n");
            let vis = if ty.is_redacted {
                String::from_str("\tprivate val ")
            } else {
                String::from_str("\tval ")
            };
            out.append(vis.as_str());
            out.append("value: ");
            out.append(target.as_str());
            let default = if ty.target.is_optional() {
                String::from_str(" = null")
            } else {
                String::new()
            };
            out.append(default.as_str());
            out.append("\n");
            let tail = if ty.is_redacted {
                let mut t = String::from_str(") {\n");
                t.append("\tfun unwrap() = value\n");
                t.append("\n");
                t.append("\toverride fun toString(): String = \"***\"\n");
                t.append("}\n");
                t
            } else {
                String::from_str(")\n")
            };
            out.append(tail.as_str());
            out.append("\n");
        } else {
            let target = match self.format_type(&ty.target, &ty.generic_params) {
                Ok(s) => s,
                Err(x) => {
                    return Err(x);
                },
            };
            out.append("typealias ");
            out.append(self.prefix.as_str());
            out.append(ty.id.original.as_str());
            let params = format_param_list(&ty.generic_params, "<", ">");
            out.append(params.as_str());
            out.append(" = ");
            out.append(target.as_str());
            out.append("\n\n");
        }
        proof {
            assert(out@ =~= self.alias_body(*ty));
        }
        Ok(out)
    }

    /// An alias: an inline value class when flagged so, else a `typealias`.
    pub fn write_type_alias(&self, ty: &AliasDef) -> (r: Result<String, GenError>)
        ensures
            r is Ok <==> representable(ty.target),
            r matches Ok(s) ==> s@ == self.alias_text(*ty),
            r matches Err(e) ==> e == GenError::UnsupportedType,
    {
        let mut out = String::new();
        append_comments(&mut out, 0, "/// ", &ty.comments);
        match self.write_alias_body(ty) {
            Ok(b) => out.append(b.as_str()),
            Err(x) => {
                return Err(x);
            },
        }
        proof {
            assert(out@ =~= self.alias_text(*ty));
        }
        Ok(out)
    }

    /// Constants have no rendering in this backend.
    pub fn write_const(&self, c: &ConstDef) -> (r: Result<String, GenError>)
        ensures
            r == Err::<String, GenError>(GenError::UnsupportedCapability),
    {
        Err(GenError::UnsupportedCapability)
    }

    /// The structs synthesized for the inline-record variants of a union, in variant order.
    fn write_hoisted(&self, shared: &EnumShared, variants: &Vec<Variant>, e: &EnumDef) -> (r: Result<
        String,
        GenError,
    >)
        requires
            *e == (EnumDef::TaggedUnion { shared: *shared, content_key: e->content_key, variants: *variants }),
        ensures
            r matches Ok(s) ==> s@ == concat_all(self.record_texts(*shared, variants@)),
            r is Err ==> !enum_ok(*e),
            enum_ok(*e) ==> r is Ok,
    {
        let records = hoist_anonymous_structs(e);
        let ghost pos = inline_positions(variants@);
        let ghost texts = self.record_texts(*shared, variants@);
        let mut out = String::new();
        let mut k: usize = 0;
        while k < records.len()
            invariant
                *e == (EnumDef::TaggedUnion { shared: *shared, content_key: e->content_key, variants: *variants }),
                hoisting_of(*e, records@),
                pos == inline_positions(variants@),
                records@.len() == pos.len(),
                texts == self.record_texts(*shared, variants@),
                k <= records@.len(),
                out@ == concat_all(texts.take(k as int)),
            decreases records@.len() - k,
        {
            let rec: &HoistedRecord = &records[k];
            proof {
                assert(hoisted_for(*e, pos[k as int], records@[k as int]));
                assert(texts.take(k + 1).drop_last() =~= texts.take(k as int));
            }
            let v = &variants[rec.variant_index];
            match v {
                Variant::InlineRecord { shared: vs, fields } => {
                    match self.write_struct_parts(
                        &rec.name,
                        fields,
                        &rec.generic_params,
                        &vs.comments,
                        shared.is_redacted,
                    ) {
                        Ok(s) => {
                            out.append(s.as_str());
                            proof {
                                assert(s@ == texts[k as int]);
                                assert(out@ =~= concat_all(texts.take(k + 1)));
                            }
                        },
                        Err(x) => {
                            proof {
                                assert(!variant_ok(variants@[rec.variant_index as int]));
                            }
                            return Err(x);
                        },
                    }
                },
                _ => {
                    proof {
                        assert(false);
                    }
                },
            }
            k = k + 1;
        }
        proof {
            assert(texts.take(pos.len() as int) =~= texts);
        }
        Ok(out)
    }

    fn write_enum_variants(&self, e: &EnumDef) -> (r: Result<String, GenError>)
        ensures
            r is Ok <==> enum_ok(*e),
            r matches Ok(s) ==> s@ == concat_all(self.variant_texts(*e)),
    {
        let mut out = String::new();
        let ghost texts = self.variant_texts(*e);
        match e {
            EnumDef::UnitEnum { variants, .. } => {
                let mut i: usize = 0;
                while i < variants.len()
                    invariant
                        texts == self.variant_texts(*e),
                        *e is UnitEnum,
                        variants@ == e->UnitEnum_variants@,
                        i <= variants@.len(),
                        out@ == concat_all(texts.take(i as int)),
                    decreases variants@.len() - i,
                {
                    proof {
                        assert(texts.take(i + 1).drop_last() =~= texts.take(i as int));
                    }
                    let v = &variants[i];
                    append_comments(&mut out, 1, "/// ", &v.comments);
                    let sn = serial_name(&v.id.renamed);
                    out.append(sn.as_str());
                    out.append("\t");
                    out.append(v.id.original.as_str());
                    out.append("(");
                    let q = quote(&v.id.renamed);
                    out.append(q.as_str());
                    out.append("),\n");
                    proof {
                        assert(out@ =~= concat_all(texts.take(i + 1)));
                    }
                    i = i + 1;
                }
                proof {
                    assert(texts.take(variants@.len() as int) =~= texts);
                }
            },
            EnumDef::TaggedUnion { shared, content_key, variants } => {
                let mut i: usize = 0;
                while i < variants.len()
                    invariant
                        *e == (EnumDef::TaggedUnion { shared: *shared, content_key: *content_key, variants: *variants }),
                        texts == self.variant_texts(*e),
                        i <= variants@.len(),
                        out@ == concat_all(texts.take(i as int)),
                        forall|j: int| 0 <= j < i ==> variant_ok(#[trigger] variants@[j]),
                    decreases variants@.len() - i,
                {
                    proof {
                        assert(texts.take(i + 1).drop_last() =~= texts.take(i as int));
                    }
                    match self.write_tagged_variant(shared, content_key, &variants[i]) {
                        Ok(s) => {
                            out.append(s.as_str());
                            proof {
                                assert(out@ =~= concat_all(texts.take(i + 1)));
                            }
                        },
                        Err(x) => {
                            proof {
                                assert(!variant_ok(variants@[i as int]));
                            }
                            return Err(x);
                        },
                    }
                    i = i + 1;
                }
                proof {
                    assert(texts.take(variants@.len() as int) =~= texts);
                }
            },
        }
        Ok(out)
    }

    fn write_variant_decl(&self, shared: &EnumShared, content_key: &String, v: &Variant) -> (r:
        Result<String, GenError>)
        ensures
            r is Ok <==> variant_ok(*v),
            r matches Ok(s) ==> s@ == self.variant_decl(*shared, content_key@, *v),
    {
        let vs = v.shared();
        let ident = guard_leading_digit(to_pascal_case(&vs.id.original));
        let mut out = String::new();
        match v {
            Variant::NoPayload(_) => {
                out.append("\tobject ");
                out.append(ident.as_str());
            },
            Variant::SinglePayload { ty, .. } => {
                let t = match self.format_type(ty, &shared.generic_params) {
                    Ok(s) => s,
                    Err(x) => {
                        return Err(x);
                    },
                };
                out.append("\tdata class ");
                out.append(ident.as_str());
                let params = format_param_list(&shared.generic_params, "<", ">");
                out.append(params.as_str());
                out.append("(");
                out.append("val ");
                out.append(content_key.as_str());
                out.append(": ");
                out.append(t.as_str());
                out.append(")");
            },
            Variant::InlineRecord { fields, .. } => {
                let used = anonymous_struct_generics(&shared.generic_params, fields);
                out.append("\tdata class ");
                out.append(ident.as_str());
                let params = format_param_list(&shared.generic_params, "<", ">");
                out.append(params.as_str());
                out.append("(");
                out.append("val ");
                out.append(content_key.as_str());
                out.append(": ");
                out.append(self.prefix.as_str());
                let mut inner = shared.id.original.clone();
                inner.append(vs.id.original.as_str());
                inner.append("Inner");
                out.append(inner.as_str());
                let used_params = if used.len() > 0 {
                    let mut p = String::from_str("<");
                    let joined_names = join_with_comma(&used);
                    p.append(joined_names.as_str());
                    p.append(">");
                    p
                } else {
                    String::new()
                };
                out.append(used_params.as_str());
                out.append(")");
                if !fields_typed(fields, DecoratorKind::Kotlin) {
                    return Err(GenError::UnsupportedType);
                }
            },
        }
        proof {
            assert(out@ =~= self.variant_decl(*shared, content_key@, *v));
        }
        Ok(out)
    }

    fn write_tagged_variant(&self, shared: &EnumShared, content_key: &String, v: &Variant) -> (r:
        Result<String, GenError>)
        ensures
            r is Ok <==> variant_ok(*v),
            r matches Ok(s) ==> s@ == self.tagged_variant_text(*shared, content_key@, *v),
    {
        let vs = v.shared();
        let mut out = String::new();
        append_comments(&mut out, 1, "/// ", &vs.comments);
        out.append("\t@Serializable\n");
        let sn = serial_name(&vs.id.renamed);
        out.append(sn.as_str());
        match self.write_variant_decl(shared, content_key, v) {
            Ok(d) => out.append(d.as_str()),
            Err(x) => {
                return Err(x);
            },
        }
        out.append(": ");
        out.append(self.prefix.as_str());
        out.append(shared.id.renamed.as_str());
        let params = format_param_list(&shared.generic_params, "<", ">");
        out.append(params.as_str());
        out.append("()\n");
        proof {
            assert(out@ =~= self.tagged_variant_text(*shared, content_key@, *v));
        }
        Ok(out)
    }

    /// An enum: the structs hoisted from its inline records, then an enum
    /// class (unit enum) or a sealed class with one subclass per variant.
    pub fn write_enum(&self, e: &EnumDef) -> (r: Result<String, GenError>)
        ensures
            r is Ok <==> enum_ok(*e),
            r matches Ok(s) ==> s@ == self.enum_text(*e),
            r matches Err(x) ==> x == GenError::UnsupportedType,
    {
        let mut out = match e {
            EnumDef::TaggedUnion { shared, variants, .. } => match self.write_hoisted(shared, variants, e) {
                Ok(s) => s,
                Err(_) => {
                    return Err(GenError::UnsupportedType);
                },
            },
            EnumDef::UnitEnum { .. } => String::new(),
        };
        let shared = e.shared();
        append_comments(&mut out, 0, "/// ", &shared.comments);
        out.append("@Serializable\n");
        let params = format_param_list(&shared.generic_params, "<", ">");
        let mut head = match e {
            EnumDef::UnitEnum { .. } => String::from_str("enum class "),
            EnumDef::TaggedUnion { .. } => String::from_str("sealed class "),
        };
        head.append(self.prefix.as_str());
        head.append(shared.id.renamed.as_str());
        head.append(params.as_str());
        match e {
            EnumDef::UnitEnum { .. } => head.append("(val string: String) "),
            EnumDef::TaggedUnion { .. } => head.append(" "),
        }
        out.append(head.as_str());
        out.append("{\n");
        match self.write_enum_variants(e) {
            Ok(s) => out.append(s.as_str()),
            Err(_) => {
                return Err(GenError::UnsupportedType);
            },
        }
        out.append("}\n\n");
        proof {
            assert(head@ =~= self.enum_head(*e));
            assert(out@ =~= self.enum_text(*e));
        }
        Ok(out)
    }

    /// The preamble: a version header unless suppressed, the package line and
    /// the serialization imports; nothing when the package name is empty.
    pub fn begin_file(&self, parsed_data: &Model) -> (r: String)
        ensures
            r@ == self.begin_text(*parsed_data),
    {
        let mut out = String::new();
        if self.package.as_str().unicode_len() > 0 {
            let header = write_version_header(self.no_version_header);
            out.append(header.as_str());
            let gap = if self.no_version_header {
                String::new()
            } else {
                String::from_str("\n")
            };
            out.append(gap.as_str());
            out.append("package ");
            out.append(self.package.as_str());
            let suffix = if parsed_data.multi_file {
                let mut s = String::from_str(".");
                s.append(parsed_data.crate_name.as_str());
                s
            } else {
                String::new()
            };
            out.append(suffix.as_str());
            out.append("\n");
            out.append("\n");
            out.append("import kotlinx.serialization.Serializable\n");
            out.append("import kotlinx.serialization.SerialName\n");
            out.append("\n");
        }
        proof {
            assert(out@ =~= self.begin_text(*parsed_data));
        }
        out
    }

    /// One import line per imported type, then an empty line.
    pub fn write_imports(&self, imports: &Vec<ImportGroup>) -> (r: String)
        ensures
            r@ == self.imports_text(imports@),
    {
        let ghost texts = self.import_groups(imports@);
        let mut out = String::new();
        let mut i: usize = 0;
        while i < imports.len()
            invariant
                i <= imports@.len(),
                texts == self.import_groups(imports@),
                out@ == concat_all(texts.take(i as int)),
            decreases imports@.len() - i,
        {
            proof {
                assert(texts.take(i + 1).drop_last() =~= texts.take(i as int));
            }
            let g = &imports[i];
            let ghost lines = self.import_lines(*g);
            let ghost base = out@;
            let mut j: usize = 0;
            while j < g.types.len()
                invariant
                    j <= g.types@.len(),
                    lines == self.import_lines(*g),
                    out@ == base + concat_all(lines.take(j as int)),
                decreases g.types@.len() - j,
            {
                proof {
                    assert(lines.take(j + 1).drop_last() =~= lines.take(j as int));
                }
                let mut line = String::from_str("import ");
                line.append(self.package.as_str());
                line.append(".");
                line.append(g.path.as_str());
                line.append(".");
                line.append(g.types[j].as_str());
                line.append("\n");
                out.append(line.as_str());
                proof {
                    assert(line@ == lines[j as int]);
                    assert(out@ =~= base + concat_all(lines.take(j + 1)));
                }
                j = j + 1;
            }
            proof {
                assert(lines.take(g.types@.len() as int) =~= lines);
                assert(out@ =~= concat_all(texts.take(i + 1)));
            }
            i = i + 1;
        }
        proof {
            assert(texts.take(imports@.len() as int) =~= texts);
        }
        out.append("\n");
        out
    }

    /// The type names that the rename table resolves, for which no import is generated.
    pub fn ignored_reference_types(&self) -> (r: Vec<String>)
        ensures
            strs(r@) == entry_names(self.type_mappings.entries@),
    {
        self.type_mappings.keys()
    }

    fn write_aliases(&self, aliases: &Vec<AliasDef>) -> (r: Result<String, GenError>)
        ensures
            r is Ok <==> (forall|j: int| 0 <= j < aliases@.len() ==> representable(#[trigger] aliases@[j].target)),
            r matches Ok(s) ==> s@ == concat_all(self.alias_texts(aliases@)),
            r matches Err(x) ==> x == GenError::UnsupportedType,
    {
        let ghost at = self.alias_texts(aliases@);
        let mut out = String::new();
        let mut i: usize = 0;
        while i < aliases.len()
            invariant
                i <= aliases@.len(),
                at == self.alias_texts(aliases@),
                out@ == concat_all(at.take(i as int)),
                forall|j: int| 0 <= j < i ==> representable(#[trigger] aliases@[j].target),
            decreases aliases@.len() - i,
        {
            proof {
                assert(at.take(i + 1).drop_last() =~= at.take(i as int));
            }
            match self.write_type_alias(&aliases[i]) {
                Ok(s) => {
                    out.append(s.as_str());
                    proof {
                        assert(out@ =~= concat_all(at.take(i + 1)));
                    }
                },
                Err(x) => {
                    return Err(x);
                },
            }
            i = i + 1;
        }
        proof {
            assert(at.take(aliases@.len() as int) =~= at);
        }
        Ok(out)
    }

    fn write_structs(&self, structs: &Vec<StructDef>) -> (r: Result<String, GenError>)
        ensures
            r is Ok <==> (forall|j: int| 0 <= j < structs@.len() ==> fields_ok(#[trigger] structs@[j].fields@)),
            r matches Ok(s) ==> s@ == concat_all(self.struct_texts(structs@)),
            r matches Err(x) ==> x == GenError::UnsupportedType,
    {
        let ghost st = self.struct_texts(structs@);
        let mut out = String::new();
        let mut i: usize = 0;
        while i < structs.len()
            invariant
                i <= structs@.len(),
                st == self.struct_texts(structs@),
                out@ == concat_all(st.take(i as int)),
                forall|j: int| 0 <= j < i ==> fields_ok(#[trigger] structs@[j].fields@),
            decreases structs@.len() - i,
        {
            proof {
                assert(st.take(i + 1).drop_last() =~= st.take(i as int));
            }
            match self.write_struct(&structs[i]) {
                Ok(s) => {
                    out.append(s.as_str());
                    proof {
                        assert(out@ =~= concat_all(st.take(i + 1)));
                    }
                },
                Err(x) => {
                    return Err(x);
                },
            }
            i = i + 1;
        }
        proof {
            assert(st.take(structs@.len() as int) =~= st);
        }
        Ok(out)
    }

    fn write_enums(&self, enums: &Vec<EnumDef>) -> (r: Result<String, GenError>)
        ensures
            r is Ok <==> (forall|j: int| 0 <= j < enums@.len() ==> enum_ok(#[trigger] enums@[j])),
            r matches Ok(s) ==> s@ == concat_all(self.enum_texts(enums@)),
            r matches Err(x) ==> x == GenError::UnsupportedType,
    {
        let ghost et = self.enum_texts(enums@);
        let mut out = String::new();
        let mut i: usize = 0;
        while i < enums.len()
            invariant
                i <= enums@.len(),
                et == self.enum_texts(enums@),
                out@ == concat_all(et.take(i as int)),
                forall|j: int| 0 <= j < i ==> enum_ok(#[trigger] enums@[j]),
            decreases enums@.len() - i,
        {
            proof {
                assert(et.take(i + 1).drop_last() =~= et.take(i as int));
            }
            match self.write_enum(&enums[i]) {
                Ok(s) => {
                    out.append(s.as_str());
                    proof {
                        assert(out@ =~= concat_all(et.take(i + 1)));
                    }
                },
                Err(x) => {
                    return Err(x);
                },
            }
            i = i + 1;
        }
        proof {
            assert(et.take(enums@.len() as int) =~= et);
        }
        Ok(out)
    }

    /// Renders a whole model into one file.
    pub fn generate_types(&self, imports: &Vec<ImportGroup>, data: &Model) -> (r: Result<
        String,
        GenError,
    >)
        ensures
            r is Ok <==> model_ok(*data),
            r matches Ok(s) ==> s@ == self.file_text(imports@, *data),
            r matches Err(x) ==> x == GenError::UnsupportedType,
    {
        let mut out = self.begin_file(data);
        let imports_part = if data.multi_file {
            self.write_imports(imports)
        } else {
            String::new()
        };
        out.append(imports_part.as_str());
        let a = match self.write_aliases(&data.aliases) {
            Ok(s) => s,
            Err(x) => {
                return Err(x);
            },
        };
        out.append(a.as_str());
        let st = match self.write_structs(&data.structs) {
            Ok(s) => s,
            Err(x) => {
                return Err(x);
            },
        };
        out.append(st.as_str());
        let en = match self.write_enums(&data.enums) {
            Ok(s) => s,
            Err(x) => {
                return Err(x);
            },
        };
        out.append(en.as_str());
        proof {
            assert(imports_part@ == (if data.multi_file {
                self.imports_text(imports@)
            } else {
                Seq::empty()
            }));
        }
        Ok(out)
    }
}

/// Relies on itertools::Itertools::contains: true when some element equals the query.
#[verifier::external_body]
fn contains_name(v: &Vec<String>, s: &String) -> (r: bool)
    ensures
        r == strs(v@).contains(s@),
{
    v.iter().contains(s)
}

/// A field of optional type ends in an explicit `= null` default, and its
/// text is the same whether or not it is flagged as having a default.
pub proof fn lemma_optional_field_default(
    k: &Kotlin,
    f: FieldDef,
    g: FieldDef,
    generics: Seq<Seq<char>>,
    serial: bool,
    vis: Visibility,
)
    requires
        f.ty is Optional,
        g.id == f.id,
        g.ty == f.ty,
        g.comments == f.comments,
        g.type_overrides == f.type_overrides,
    ensures
        k.element_text(f, generics, serial, vis) == k.element_text(g, generics, serial, vis),
        exists|head: Seq<char>| k.element_text(f, generics, serial, vis) == head + " = null"@,
{
    let t = k.element_text(f, generics, serial, vis);
    let head = comment_lines(1, "/// "@, strs(f.comments@)) + serial_part(f.id.renamed@, serial)
        + visibility_text(vis) + sanitized(f.id.renamed@) + ": "@ + k.field_type_text(f, generics);
    assert(t == head + " = null"@);
}

/// A redacted struct with fields renders its text as its own quoted name,
/// whatever the fields hold.
pub proof fn lemma_redacted_struct_masked(
    k: &Kotlin,
    name: Seq<char>,
    fields: Seq<FieldDef>,
    generics: Seq<Seq<char>>,
    comments: Seq<Seq<char>>,
)
    requires
        fields.len() > 0,
    ensures
        exists|head: Seq<char>|
            k.struct_text(name, fields, generics, comments, true) == head + ") {\n"@
                + "\toverride fun toString(): String = "@ + quoted(name) + "\n"@ + "}\n"@ + "\n"@,
{
    let head = comment_lines(0, "/// "@, comments) + "@Serializable\n"@ + "data class "@ + k.prefix@
        + name + param_list(generics, "<"@, ">"@) + " (\n"@ + joined(k.elements(fields, generics), ",\n"@)
        + "\n"@;
    assert(k.struct_text(name, fields, generics, comments, true) =~= head + ") {\n"@
        + "\toverride fun toString(): String = "@ + quoted(name) + "\n"@ + "}\n"@ + "\n"@);
}

/// A redacted inline value class hides its value and renders its text as `***`.
pub proof fn lemma_redacted_inline_masked(k: &Kotlin, a: AliasDef)
    requires
        a.is_redacted,
        inline_flagged(a.decorators@),
    ensures
        exists|head: Seq<char>|
            k.alias_text(a) == head + "\tprivate val "@ + "value: "@ + k.type_text(a.target, Seq::empty())
                + optional_default(a.target) + "\n"@ + ") {\n"@ + "\tfun unwrap() = value\n"@ + "\n"@
                + "\toverride fun toString(): String = \"***\"\n"@ + "}\n"@ + "\n"@,
{
    let head = comment_lines(0, "/// "@, strs(a.comments@)) + "@Serializable\n"@ + "@JvmInline\n"@
        + "value class "@ + k.prefix@ + a.id.renamed@ + "(\n"@;
    assert(k.alias_text(a) =~= head + "\tprivate val "@ + "value: "@ + k.type_text(a.target, Seq::empty())
        + optional_default(a.target) + "\n"@ + ") {\n"@ + "\tfun unwrap() = value\n"@ + "\n"@
        + "\toverride fun toString(): String = \"***\"\n"@ + "}\n"@ + "\n"@);
}

/// A file holds one declaration per definition of the model, in model order:
/// alias `i` renders as the `i`-th alias text, and likewise for structs and
/// enums; an enum without inline-record variants adds nothing before its own
/// declaration.
pub proof fn lemma_one_declaration_per_definition(k: &Kotlin, imports: Seq<ImportGroup>, data: Model)
    ensures
        k.alias_texts(data.aliases@).len() == data.aliases@.len(),
        k.struct_texts(data.structs@).len() == data.structs@.len(),
        k.enum_texts(data.enums@).len() == data.enums@.len(),
        forall|i: int| 0 <= i < data.aliases@.len() ==> #[trigger] k.alias_texts(data.aliases@)[i]
            == k.alias_text(data.aliases@[i]),
        forall|i: int| 0 <= i < data.enums@.len() ==> #[trigger] k.enum_texts(data.enums@)[i]
            == k.enum_text(data.enums@[i]),
        forall|i: int|
            0 <= i < data.enums@.len() && (forall|j: int|
                0 <= j < data.enums@[i]->TaggedUnion_variants@.len()
                    ==> !(#[trigger] data.enums@[i]->TaggedUnion_variants@[j] is InlineRecord))
                ==> #[trigger] k.enum_hoisted(data.enums@[i]) == Seq::<char>::empty(),
        k.file_text(imports, data) == k.begin_text(data) + (if data.multi_file {
            k.imports_text(imports)
        } else {
            Seq::empty()
        }) + concat_all(k.alias_texts(data.aliases@)) + concat_all(k.struct_texts(data.structs@))
            + concat_all(k.enum_texts(data.enums@)),
{
    assert forall|i: int|
        0 <= i < data.enums@.len() && (forall|j: int|
            0 <= j < data.enums@[i]->TaggedUnion_variants@.len()
                ==> !(#[trigger] data.enums@[i]->TaggedUnion_variants@[j] is InlineRecord))
        implies #[trigger] k.enum_hoisted(data.enums@[i]) == Seq::<char>::empty() by {
        match data.enums@[i] {
            EnumDef::UnitEnum { .. } => {},
            EnumDef::TaggedUnion { shared, variants, .. } => {
                lemma_no_inline_records(variants@);
                assert(k.record_texts(shared, variants@) =~= Seq::<Seq<char>>::empty());
            },
        }
    }
}

} // verus!
