use vstd::prelude::*;
use itertools::Itertools;

use crate::hoist::{
    anonymous_struct_generics, hoist_anonymous_structs, hoisted_for, hoisted_name, hoisting_of,
    inline_positions, lemma_no_inline_records, record_fields, referenced_generics, HoistedRecord,
};
use crate::mapping::TypeMappings;
use crate::model::{
    is_unsigned, override_for, representable, AliasDef, ConstDef, DecoratorKind, EnumDef,
    EnumShared, FieldDef, GenError, ImportGroup, Model, ModelType, StructDef, Variant,
    VariantShared,
};
use crate::model::{all_fields_typed, field_typed, fields_typed};
use crate::text::{
    needs_serial, needs_serial_name, serial_part, serial_name, surround, version_header, write_version_header,
    append_comments, comment_lines, concat_all, contains_string, digit_guarded,
    guard_leading_digit, join_with_comma, joined, param_list, quote, quoted,
    remove_dash_from_identifier, sanitized, strs, tab_string, tabs,
};

verus! {

/// Configuration of the case-class backend.
pub struct Scala {
    /// Name of the package, dotted; its last segment names the package object.
    pub package: String,
    /// Name of the module.
    pub module_name: String,
    /// Origin type names to target type names.
    pub type_mappings: TypeMappings,
    /// Leave out the version header at the top of a file.
    pub no_version_header: bool,
}

/// The position of the last dot in `s`, if any.
pub open spec fn last_dot(s: Seq<char>) -> Option<int>
    decreases s.len(),
{
    if s.len() == 0 {
        None
    } else if s.last() == '.' {
        Some(s.len() - 1)
    } else {
        last_dot(s.drop_last())
    }
}

/// An unsigned integer occurs somewhere in `t`.
pub open spec fn contains_unsigned(t: ModelType) -> bool
    decreases t,
{
    match t {
        ModelType::List(e) => contains_unsigned(*e),
        ModelType::FixedArray(e, _) => contains_unsigned(*e),
        ModelType::Slice(e) => contains_unsigned(*e),
        ModelType::Optional(e) => contains_unsigned(*e),
        ModelType::Dictionary(k, v) => contains_unsigned(*k) || contains_unsigned(*v),
        _ => is_unsigned(t),
    }
}

pub open spec fn fields_use_unsigned(fields: Seq<FieldDef>) -> bool {
    exists|i: int| 0 <= i < fields.len() && contains_unsigned(#[trigger] fields[i].ty)
}

pub open spec fn variant_uses_unsigned(v: Variant) -> bool {
    match v {
        Variant::NoPayload(_) => false,
        Variant::SinglePayload { ty, .. } => contains_unsigned(ty),
        Variant::InlineRecord { fields, .. } => fields_use_unsigned(fields@),
    }
}

pub open spec fn enum_uses_unsigned(e: EnumDef) -> bool {
    match e {
        EnumDef::UnitEnum { .. } => false,
        EnumDef::TaggedUnion { variants, .. } => exists|j: int|
            0 <= j < variants@.len() && variant_uses_unsigned(#[trigger] variants@[j]),
    }
}

/// Some alias, field or payload of `data` uses an unsigned integer, so the
/// file needs the aliases that stand for the unsigned types.
pub open spec fn uses_unsigned(data: Model) -> bool {
    ||| exists|i: int| 0 <= i < data.aliases@.len() && contains_unsigned(#[trigger] data.aliases@[i].target)
    ||| exists|i: int| 0 <= i < data.structs@.len() && fields_use_unsigned(#[trigger] data.structs@[i].fields@)
    ||| exists|i: int| 0 <= i < data.enums@.len() && enum_uses_unsigned(#[trigger] data.enums@[i])
}

pub open spec fn field_type_ok(f: FieldDef) -> bool {
    field_typed(f, DecoratorKind::Scala)
}

pub open spec fn fields_ok(fields: Seq<FieldDef>) -> bool {
    all_fields_typed(fields, DecoratorKind::Scala)
}

pub open spec fn variant_ok(v: Variant) -> bool {
    match v {
        Variant::NoPayload(_) => true,
        Variant::SinglePayload { ty, .. } => representable(ty),
        Variant::InlineRecord { fields, .. } => fields_ok(fields@),
    }
}

pub open spec fn enum_ok(e: EnumDef) -> bool {
    match e {
        EnumDef::UnitEnum { .. } => true,
        EnumDef::TaggedUnion { variants, .. } => forall|i: int|
            0 <= i < variants@.len() ==> variant_ok(#[trigger] variants@[i]),
    }
}

pub open spec fn model_ok(data: Model) -> bool {
    &&& forall|i: int| 0 <= i < data.aliases@.len() ==> representable(#[trigger] data.aliases@[i].target)
    &&& forall|i: int| 0 <= i < data.structs@.len() ==> fields_ok(#[trigger] data.structs@[i].fields@)
    &&& forall|i: int| 0 <= i < data.enums@.len() ==> enum_ok(#[trigger] data.enums@[i])
}

/// The default that a field gets: `None` for an optional type, `_` for
/// another type with a default, none otherwise.
pub open spec fn default_suffix(f: FieldDef) -> Seq<char> {
    if f.ty is Optional {
        " = None"@
    } else if f.has_default {
        " = _"@
    } else {
        Seq::empty()
    }
}

pub open spec fn params_text(params: Seq<Seq<char>>) -> Seq<char> {
    param_list(params, "["@, "]"@)
}

/// The end of a case class; a redacted one shows its name only.
pub open spec fn redacted_tail(name: Seq<char>, redacted: bool) -> Seq<char> {
    if redacted {
        ") {\n"@ + "\toverride def toString: String = "@ + quoted(name) + "\n"@ + "}\n"@
    } else {
        ")\n"@
    }
}

pub open spec fn serial_name_member(renamed: Seq<char>) -> Seq<char> {
    "\t\tval serialName: String = "@ + quoted(renamed) + "\n"@ + "\t}\n"@
}

pub open spec fn unit_variant_text(shared: EnumShared, v: VariantShared) -> Seq<char> {
    comment_lines(1, "// "@, strs(v.comments@)) + "\tcase object "@ + v.id.original@ + " extends "@
        + shared.id.renamed@ + " {\n"@ + serial_name_member(v.id.renamed@)
}

pub open spec fn unsigned_aliases_text() -> Seq<char> {
    "type UByte = Byte\n"@ + "type UShort = Short\n"@ + "type UInt = Int\n"@ + "type ULong = Int\n"@
        + "\n"@
}

impl Scala {
    pub open spec fn simple_text(&self, base: Seq<char>, generics: Seq<Seq<char>>) -> Seq<char> {
        if generics.contains(base) {
            base
        } else {
            match self.type_mappings.spec_get(base) {
                Some(m) => m,
                None => base,
            }
        }
    }

    /// The target syntax of `t`, with `generics` in scope. Unsigned integers
    /// keep their names, which the file aliases to signed types.
    pub open spec fn type_text(&self, t: ModelType, generics: Seq<Seq<char>>) -> Seq<char>
        decreases t,
    {
        match t {
            ModelType::Simple { id } => self.simple_text(id@, generics),
            ModelType::List(e) => "Vector["@ + self.type_text(*e, generics) + "]"@,
            ModelType::FixedArray(e, _) => "Vector["@ + self.type_text(*e, generics) + "]"@,
            ModelType::Slice(e) => "Vector["@ + self.type_text(*e, generics) + "]"@,
            ModelType::Optional(e) => "Option["@ + self.type_text(*e, generics) + "]"@,
            ModelType::Dictionary(k, v) => "Map["@ + self.type_text(*k, generics) + ", "@
                + self.type_text(*v, generics) + "]"@,
            ModelType::Unit => "Unit"@,
            ModelType::Str => "String"@,
            ModelType::Char => "String"@,
            ModelType::I8 => "Byte"@,
            ModelType::I16 => "Short"@,
            ModelType::I32 => "Int"@,
            ModelType::ISize => "Int"@,
            ModelType::I54 => "Long"@,
            ModelType::I64 => "Long"@,
            ModelType::U8 => "UByte"@,
            ModelType::U16 => "UShort"@,
            ModelType::U32 => "UInt"@,
            ModelType::USize => "UInt"@,
            ModelType::U53 => "ULong"@,
            ModelType::U64 => "ULong"@,
            ModelType::Bool => "Boolean"@,
            ModelType::F32 => "Float"@,
            ModelType::F64 => "Double"@,
            ModelType::DateTime => Seq::empty(),
        }
    }

    pub open spec fn field_type_text(&self, f: FieldDef, generics: Seq<Seq<char>>) -> Seq<char> {
        match override_for(f.type_overrides@, DecoratorKind::Scala) {
            Some(o) => o,
            None => self.type_text(f.ty, generics),
        }
    }

    /// One field; every field of a definition with a dashed wire name carries that name.
    pub open spec fn element_text(&self, f: FieldDef, generics: Seq<Seq<char>>, serial: bool) -> Seq<char> {
        comment_lines(1, "// "@, strs(f.comments@)) + serial_part(f.id.renamed@, serial) + "\t"@
            + sanitized(f.id.renamed@) + ": "@ + self.field_type_text(f, generics) + default_suffix(f)
    }

    pub open spec fn elements(&self, fields: Seq<FieldDef>, generics: Seq<Seq<char>>) -> Seq<Seq<char>> {
        Seq::new(fields.len(), |i: int| self.element_text(fields[i], generics, needs_serial_name(fields)))
    }

    pub open spec fn struct_body(
        &self,
        name: Seq<char>,
        fields: Seq<FieldDef>,
        generics: Seq<Seq<char>>,
        redacted: bool,
    ) -> Seq<char> {
        if fields.len() == 0 {
            "class "@ + name + " extends Serializable\n\n"@
        } else {
            "case class "@ + name + params_text(generics) + " (\n"@ + joined(
                self.elements(fields, generics),
                ",\n"@,
            ) + "\n"@ + redacted_tail(name, redacted) + "\n"@
        }
    }

    /// A case class (or a plain class, when there are no fields) named `name`.
    pub open spec fn struct_text(
        &self,
        name: Seq<char>,
        fields: Seq<FieldDef>,
        generics: Seq<Seq<char>>,
        comments: Seq<Seq<char>>,
        redacted: bool,
    ) -> Seq<char> {
        comment_lines(0, "// "@, comments) + self.struct_body(name, fields, generics, redacted)
    }

    pub open spec fn alias_text(&self, a: AliasDef) -> Seq<char> {
        comment_lines(0, "// "@, strs(a.comments@)) + "type "@ + a.id.original@ + params_text(
            strs(a.generic_params@),
        ) + " = "@ + self.type_text(a.target, strs(a.generic_params@)) + "\n\n"@
    }

    pub open spec fn record_text(&self, shared: EnumShared, v: Variant) -> Seq<char> {
        self.struct_text(
            hoisted_name(shared.id.original@, v.spec_shared().id.original@),
            record_fields(v),
            referenced_generics(strs(shared.generic_params@), record_fields(v)),
            strs(v.spec_shared().comments@),
            shared.is_redacted,
        )
    }

    pub open spec fn record_texts(&self, shared: EnumShared, variants: Seq<Variant>) -> Seq<Seq<char>> {
        Seq::new(
            inline_positions(variants).len(),
            |k: int| self.record_text(shared, variants[inline_positions(variants)[k]]),
        )
    }

    pub open spec fn variant_decl(&self, shared: EnumShared, content_key: Seq<char>, v: Variant) -> Seq<char> {
        let egen = strs(shared.generic_params@);
        let vs = v.spec_shared();
        match v {
            Variant::NoPayload(_) => "\tcase object "@ + digit_guarded(vs.id.original@),
            Variant::SinglePayload { ty, .. } => "\tcase class "@ + digit_guarded(vs.id.original@)
                + params_text(egen) + "("@ + content_key + ": "@ + self.type_text(ty, egen) + ")"@,
            Variant::InlineRecord { fields, .. } => "\tcase class "@ + digit_guarded(
                vs.id.original@,
            ) + params_text(egen) + "("@ + content_key + ": "@ + hoisted_name(
                shared.id.original@,
                vs.id.original@,
            ) + params_text(referenced_generics(egen, fields@)) + ")"@,
        }
    }

    pub open spec fn tagged_variant_text(
        &self,
        shared: EnumShared,
        content_key: Seq<char>,
        v: Variant,
    ) -> Seq<char> {
        comment_lines(1, "// "@, strs(v.spec_shared().comments@)) + self.variant_decl(
            shared,
            content_key,
            v,
        ) + " extends "@ + shared.id.renamed@ + params_text(strs(shared.generic_params@))
            + " {\n"@ + serial_name_member(v.spec_shared().id.renamed@)
    }

    pub open spec fn variant_texts(&self, e: EnumDef) -> Seq<Seq<char>> {
        match e {
            EnumDef::UnitEnum { shared, variants } => Seq::new(
                variants@.len(),
                |i: int| unit_variant_text(shared, variants@[i]),
            ),
            EnumDef::TaggedUnion { shared, content_key, variants } => Seq::new(
                variants@.len(),
                |i: int| self.tagged_variant_text(shared, content_key@, variants@[i]),
            ),
        }
    }

    pub open spec fn enum_hoisted(&self, e: EnumDef) -> Seq<char> {
        match e {
            EnumDef::UnitEnum { .. } => Seq::empty(),
            EnumDef::TaggedUnion { shared, variants, .. } => concat_all(
                self.record_texts(shared, variants@),
            ),
        }
    }

    /// The structs hoisted from the union's inline records, a sealed trait,
    /// and an object that holds one case per variant.
    pub open spec fn enum_text(&self, e: EnumDef) -> Seq<char> {
        let shared = e.spec_shared();
        self.enum_hoisted(e) + comment_lines(0, "// "@, strs(shared.comments@)) + "sealed trait "@
            + shared.id.renamed@ + params_text(strs(shared.generic_params@)) + " {\n"@
            + "\tdef serialName: String\n"@ + "}\n"@ + "object "@ + shared.id.renamed@ + " {\n"@
            + concat_all(self.variant_texts(e)) + "}\n\n"@
    }

    pub open spec fn begin_text(&self) -> Seq<char> {
        version_header(self.no_version_header) + match last_dot(self.package@) {
            None => Seq::empty(),
            Some(i) => "package "@ + self.package@.take(i) + "\n"@ + "\n"@,
        }
    }

    pub open spec fn package_object_text(&self) -> Seq<char> {
        match last_dot(self.package@) {
            None => Seq::empty(),
            Some(i) => "package object "@ + self.package@.skip(i + 1) + " {\n"@ + "\n"@,
        }
    }

    pub open spec fn package_text(&self) -> Seq<char> {
        match last_dot(self.package@) {
            None => Seq::empty(),
            Some(i) => "package "@ + self.package@.skip(i + 1) + " {\n"@ + "\n"@,
        }
    }

    pub open spec fn alias_texts(&self, aliases: Seq<AliasDef>) -> Seq<Seq<char>> {
        Seq::new(aliases.len(), |i: int| self.alias_text(aliases[i]))
    }

    pub open spec fn struct_texts(&self, structs: Seq<StructDef>) -> Seq<Seq<char>> {
        Seq::new(
            structs.len(),
            |i: int|
                self.struct_text(
                    structs[i].id.renamed@,
                    structs[i].fields@,
                    strs(structs[i].generic_params@),
                    strs(structs[i].comments@),
                    structs[i].is_redacted,
                ),
        )
    }

    pub open spec fn enum_texts(&self, enums: Seq<EnumDef>) -> Seq<Seq<char>> {
        Seq::new(enums.len(), |i: int| self.enum_text(enums[i]))
    }

    /// The package object holding the aliases, present when there are
    /// aliases or an unsigned integer is used.
    pub open spec fn aliases_block(&self, data: Model) -> Seq<char> {
        if uses_unsigned(data) || data.aliases@.len() > 0 {
            self.package_object_text() + (if uses_unsigned(data) {
                unsigned_aliases_text()
            } else {
                Seq::empty()
            }) + concat_all(self.alias_texts(data.aliases@)) + "}\n"@
        } else {
            Seq::empty()
        }
    }

    /// The package holding the structs and enums, present when there are any.
    pub open spec fn types_block(&self, data: Model) -> Seq<char> {
        if data.structs@.len() > 0 || data.enums@.len() > 0 {
            self.package_text() + concat_all(self.struct_texts(data.structs@)) + concat_all(
                self.enum_texts(data.enums@),
            ) + "}\n"@
        } else {
            Seq::empty()
        }
    }

    /// A whole file: the preamble, the aliases block and the types block, each
    /// definition of `data` once.
    pub open spec fn file_text(&self, data: Model) -> Seq<char> {
        self.begin_text() + self.aliases_block(data) + self.types_block(data)
    }

    /// A backend for `package`, which must not be empty.
    pub fn new(package: String, module_name: String, type_mappings: TypeMappings, no_version_header: bool) -> (r: Result<Scala, GenError>)
        ensures
            package@.len() == 0 <==> r is Err,
            r matches Err(x) ==> x == GenError::MissingPackage,
            r matches Ok(s) ==> s.package == package && s.module_name == module_name
                && s.type_mappings == type_mappings && s.no_version_header == no_version_header,
    {
        if package.as_str().unicode_len() == 0 {
            return Err(GenError::MissingPackage);
        }
        Ok(Scala { package, module_name, type_mappings, no_version_header })
    }

    pub fn type_map(&self) -> (r: &TypeMappings)
        ensures
            r == &self.type_mappings,
    {
        &self.type_mappings
    }

    /// `[p1, p2]`.
    pub fn format_generic_parameters(&self, parameters: &Vec<String>) -> (r: String)
        ensures
            r@ == "["@ + joined(strs(parameters@), ", "@) + "]"@,
    {
        let mut out = String::from_str("[");
        let inner = join_params(parameters);
        out.append(inner.as_str());
        out.append("]");
        out
    }

    fn param_list_text(&self, parameters: &Vec<String>) -> (r: String)
        ensures
            r@ == params_text(strs(parameters@)),
    {
        if parameters.len() == 0 {
            String::new()
        } else {
            self.format_generic_parameters(parameters)
        }
    }

    /// A named type: a generic parameter as it is, else its mapped name, else as it is.
    pub fn format_simple_type(&self, base: &String, generic_types: &Vec<String>) -> (r: String)
        ensures
            r@ == self.simple_text(base@, strs(generic_types@)),
    {
        if contains_string(generic_types, base) {
            base.clone()
        } else {
            match self.type_mappings.get(base) {
                Some(m) => m.clone(),
                None => base.clone(),
            }
        }
    }

    /// Projects `ty` into target syntax; a date/time anywhere in it has no representation.
    pub fn format_type(&self, ty: &ModelType, generic_types: &Vec<String>) -> (r: Result<
        String,
        GenError,
    >)
        ensures
            r is Ok <==> representable(*ty),
            r matches Ok(s) ==> s@ == self.type_text(*ty, strs(generic_types@)),
            r matches Err(e) ==> e == GenError::UnsupportedType,
        decreases ty,
    {
        match ty {
            ModelType::Simple { id } => Ok(self.format_simple_type(id, generic_types)),
            ModelType::List(e) => match self.format_type(e, generic_types) {
                Ok(s) => Ok(surround("Vector[", s, "]")),
                Err(x) => Err(x),
            },
            ModelType::FixedArray(e, _) => match self.format_type(e, generic_types) {
                Ok(s) => Ok(surround("Vector[", s, "]")),
                Err(x) => Err(x),
            },
            ModelType::Slice(e) => match self.format_type(e, generic_types) {
                Ok(s) => Ok(surround("Vector[", s, "]")),
                Err(x) => Err(x),
            },
            ModelType::Optional(e) => match self.format_type(e, generic_types) {
                Ok(s) => Ok(surround("Option[", s, "]")),
                Err(x) => Err(x),
            },
            ModelType::Dictionary(k, v) => match self.format_type(k, generic_types) {
                Ok(ks) => match self.format_type(v, generic_types) {
                    Ok(vs) => {
                        let mut s = String::from_str("Map[");
                        s.append(ks.as_str());
                        s.append(", ");
                        s.append(vs.as_str());
                        s.append("]");
                        Ok(s)
                    },
                    Err(x) => Err(x),
                },
                Err(x) => Err(x),
            },
            ModelType::Unit => Ok(String::from_str("Unit")),
            ModelType::Str => Ok(String::from_str("String")),
            ModelType::Char => Ok(String::from_str("String")),
            ModelType::I8 => Ok(String::from_str("Byte")),
            ModelType::I16 => Ok(String::from_str("Short")),
            ModelType::I32 => Ok(String::from_str("Int")),
            ModelType::ISize => Ok(String::from_str("Int")),
            ModelType::I54 => Ok(String::from_str("Long")),
            ModelType::I64 => Ok(String::from_str("Long")),
            ModelType::U8 => Ok(String::from_str("UByte")),
            ModelType::U16 => Ok(String::from_str("UShort")),
            ModelType::U32 => Ok(String::from_str("UInt")),
            ModelType::USize => Ok(String::from_str("UInt")),
            ModelType::U53 => Ok(String::from_str("ULong")),
            ModelType::U64 => Ok(String::from_str("ULong")),
            ModelType::Bool => Ok(String::from_str("Boolean")),
            ModelType::F32 => Ok(String::from_str("Float")),
            ModelType::F64 => Ok(String::from_str("Double")),
            ModelType::DateTime => Err(GenError::UnsupportedType),
        }
    }

    /// One comment line at `indent` tabs.
    pub fn write_comment(&self, indent: usize, comment: &String) -> (r: String)
        ensures
            r@ == tabs(indent as nat) + "// "@ + comment@ + "\n"@,
    {
        let mut out = tab_string(indent);
        out.append("// ");
        out.append(comment.as_str());
        out.append("\n");
        out
    }

    pub fn write_comments(&self, indent: usize, comments: &Vec<String>) -> (r: String)
        ensures
            r@ == comment_lines(indent as nat, "// "@, strs(comments@)),
    {
        let mut out = String::new();
        append_comments(&mut out, indent, "// ", comments);
        proof {
            assert(out@ =~= comment_lines(indent as nat, "// "@, strs(comments@)));
        }
        out
    }

    /// One field: its comments, an optional serial name, then `name: Type` and its default.
    pub fn write_element(
        &self,
        f: &FieldDef,
        generic_types: &Vec<String>,
        requires_serial_name: bool,
    ) -> (r: Result<String, GenError>)
        ensures
            r is Ok <==> field_type_ok(*f),
            r matches Ok(s) ==> s@ == self.element_text(*f, strs(generic_types@), requires_serial_name),
            r matches Err(e) ==> e == GenError::UnsupportedType,
    {
        let ty = match f.type_override(DecoratorKind::Scala) {
            Some(o) => o.clone(),
            None => match self.format_type(&f.ty, generic_types) {
                Ok(s) => s,
                Err(x) => {
                    return Err(x);
                },
            },
        };
        let mut out = String::new();
        append_comments(&mut out, 1, "// ", &f.comments);
        let serial = if requires_serial_name {
            serial_name(&f.id.renamed)
        } else {
            String::new()
        };
        out.append(serial.as_str());
        out.append("\t");
        let name = remove_dash_from_identifier(&f.id.renamed);
        out.append(name.as_str());
        out.append(": ");
        out.append(ty.as_str());
        let default = if f.ty.is_optional() {
            String::from_str(" = None")
        } else if f.has_default {
            String::from_str(" = _")
        } else {
            String::new()
        };
        out.append(default.as_str());
        proof {
            assert(out@ =~= self.element_text(*f, strs(generic_types@), requires_serial_name));
        }
        Ok(out)
    }

    fn write_struct_body(
        &self,
        name: &String,
        fields: &Vec<FieldDef>,
        generic_types: &Vec<String>,
        redacted: bool,
    ) -> (r: Result<String, GenError>)
        ensures
            r is Ok <==> fields_ok(fields@),
            r matches Ok(s) ==> s@ == self.struct_body(name@, fields@, strs(generic_types@), redacted),
            r matches Err(e) ==> e == GenError::UnsupportedType,
    {
        let mut out = String::new();
        if fields.len() == 0 {
            out.append("class ");
            out.append(name.as_str());
            out.append(" extends Serializable\n\n");
            proof {
                assert(out@ =~= self.struct_body(name@, fields@, strs(generic_types@), redacted));
            }
            return Ok(out);
        }
        out.append("case class ");
        out.append(name.as_str());
        let params = self.param_list_text(generic_types);
        out.append(params.as_str());
        out.append(" (\n");
        let serial = needs_serial(fields);
        let ghost head = out@;
        let ghost elems = self.elements(fields@, strs(generic_types@));
        let mut i: usize = 0;
        while i < fields.len()
            invariant
                i <= fields@.len(),
                serial == needs_serial_name(fields@),
                elems == self.elements(fields@, strs(generic_types@)),
                out@ == head + joined(elems.take(i as int), ",\n"@),
                forall|j: int| 0 <= j < i ==> field_type_ok(#[trigger] fields@[j]),
            decreases fields@.len() - i,
        {
            proof {
                assert(elems.take(i + 1).drop_last() =~= elems.take(i as int));
            }
            match self.write_element(&fields[i], generic_types, serial) {
                Ok(el) => {
                    if i > 0 {
                        out.append(",\n");
                    }
                    out.append(el.as_str());
                    proof {
                        assert(el@ == elems[i as int]);
                        assert(elems.take(i + 1).last() == elems[i as int]);
                        if i == 0 {
                            assert(elems.take(i + 1) =~= seq![elems[0]]);
                        }
                        assert(out@ =~= head + joined(elems.take(i + 1), ",\n"@));
                    }
                },
                Err(x) => {
                    return Err(x);
                },
            }
            i = i + 1;
        }
        proof {
            assert(elems.take(fields@.len() as int) =~= elems);
        }
        out.append("\n");
        let tail = if redacted {
            let mut t = String::from_str(") {\n");
            t.append("\toverride def toString: String = ");
            let q = quote(name);
            t.append(q.as_str());
            t.append("\n");
            t.append("}\n");
            t
        } else {
            String::from_str(")\n")
        };
        out.append(tail.as_str());
        out.append("\n");
        proof {
            assert(out@ =~= self.struct_body(name@, fields@, strs(generic_types@), redacted));
        }
        Ok(out)
    }

    /// A struct given by its parts; `name` is the renamed identifier.
    pub fn write_struct_parts(
        &self,
        name: &String,
        fields: &Vec<FieldDef>,
        generic_types: &Vec<String>,
        comments: &Vec<String>,
        redacted: bool,
    ) -> (r: Result<String, GenError>)
        ensures
            r is Ok <==> fields_ok(fields@),
            r matches Ok(s) ==> s@ == self.struct_text(
                name@,
                fields@,
                strs(generic_types@),
                strs(comments@),
                redacted,
            ),
            r matches Err(e) ==> e == GenError::UnsupportedType,
    {
        let mut out = String::new();
        append_comments(&mut out, 0, "// ", comments);
        match self.write_struct_body(name, fields, generic_types, redacted) {
            Ok(b) => out.append(b.as_str()),
            Err(x) => {
                return Err(x);
            },
        }
        proof {
            assert(out@ =~= self.struct_text(
                name@,
                fields@,
                strs(generic_types@),
                strs(comments@),
                redacted,
            ));
        }
        Ok(out)
    }

    pub fn write_struct(&self, rs: &StructDef) -> (r: Result<String, GenError>)
        ensures
            r is Ok <==> fields_ok(rs.fields@),
            r matches Ok(s) ==> s@ == self.struct_text(
                rs.id.renamed@,
                rs.fields@,
                strs(rs.generic_params@),
                strs(rs.comments@),
                rs.is_redacted,
            ),
            r matches Err(e) ==> e == GenError::UnsupportedType,
    {
        self.write_struct_parts(
            &rs.id.renamed,
            &rs.fields,
            &rs.generic_params,
            &rs.comments,
            rs.is_redacted,
        )
    }

    /// An alias: `type Name[T] = Target`.
    pub fn write_type_alias(&self, ty: &AliasDef) -> (r: Result<String, GenError>)
        ensures
            r is Ok <==> representable(ty.target),
            r matches Ok(s) ==> s@ == self.alias_text(*ty),
            r matches Err(e) ==> e == GenError::UnsupportedType,
    {
        let target = match self.format_type(&ty.target, &ty.generic_params) {
            Ok(s) => s,
            Err(x) => {
                return Err(x);
            },
        };
        let mut out = String::new();
        append_comments(&mut out, 0, "// ", &ty.comments);
        out.append("type ");
        out.append(ty.id.original.as_str());
        let params = self.param_list_text(&ty.generic_params);
        out.append(params.as_str());
        out.append(" = ");
        out.append(target.as_str());
        out.append("\n\n");
        proof {
            assert(out@ =~= self.alias_text(*ty));
        }
        Ok(out)
    }

    /// Constants have no rendering in this backend.
    pub fn write_const(&self, c: &ConstDef) -> (r: Result<String, GenError>)
        ensures
            r == Err::<String, GenError>(GenError::UnsupportedCapability),
    {
        Err(GenError::UnsupportedCapability)
    }

    /// Imports have no rendering in this backend.
    pub fn write_imports(&self, imports: &Vec<ImportGroup>) -> (r: Result<String, GenError>)
        ensures
            r == Err::<String, GenError>(GenError::UnsupportedCapability),
    {
        Err(GenError::UnsupportedCapability)
    }

    fn write_hoisted(&self, shared: &EnumShared, variants: &Vec<Variant>, e: &EnumDef) -> (r: Result<
        String,
        GenError,
    >)
        requires
            *e == (EnumDef::TaggedUnion { shared: *shared, content_key: e->content_key, variants: *variants }),
        ensures
            r matches Ok(s) ==> s@ == concat_all(self.record_texts(*shared, variants@)),
            r is Err ==> !enum_ok(*e),
            enum_ok(*e) ==> r is Ok,
    {
        let records = hoist_anonymous_structs(e);
        let ghost pos = inline_positions(variants@);
        let ghost texts = self.record_texts(*shared, variants@);
        let mut out = String::new();
        let mut k: usize = 0;
        while k < records.len()
            invariant
                *e == (EnumDef::TaggedUnion { shared: *shared, content_key: e->content_key, variants: *variants }),
                hoisting_of(*e, records@),
                pos == inline_positions(variants@),
                records@.len() == pos.len(),
                texts == self.record_texts(*shared, variants@),
                k <= records@.len(),
                out@ == concat_all(texts.take(k as int)),
            decreases records@.len() - k,
        {
            let rec: &HoistedRecord = &records[k];
            proof {
                assert(hoisted_for(*e, pos[k as int], records@[k as int]));
                assert(texts.take(k + 1).drop_last() =~= texts.take(k as int));
            }
            let v = &variants[rec.variant_index];
            match v {
                Variant::InlineRecord { shared: vs, fields } => {
                    match self.write_struct_parts(
                        &rec.name,
                        fields,
                        &rec.generic_params,
                        &vs.comments,
                        shared.is_redacted,
                    ) {
                        Ok(s) => {
                            out.append(s.as_str());
                            proof {
                                assert(s@ == texts[k as int]);
                                assert(out@ =~= concat_all(texts.take(k + 1)));
                            }
                        },
                        Err(x) => {
                            proof {
                                assert(!variant_ok(variants@[rec.variant_index as int]));
                            }
                            return Err(x);
                        },
                    }
                },
                _ => {
                    proof {
                        assert(false);
                    }
                },
            }
            k = k + 1;
        }
        proof {
            assert(texts.take(pos.len() as int) =~= texts);
        }
        Ok(out)
    }

    fn write_variant_decl(&self, shared: &EnumShared, content_key: &String, v: &Variant) -> (r:
        Result<String, GenError>)
        ensures
            r is Ok <==> variant_ok(*v),
            r matches Ok(s) ==> s@ == self.variant_decl(*shared, content_key@, *v),
    {
        let vs = v.shared();
        let ident = guard_leading_digit(vs.id.original.clone());
        let mut out = String::new();
        match v {
            Variant::NoPayload(_) => {
                out.append("\tcase object ");
                out.append(ident.as_str());
            },
            Variant::SinglePayload { ty, .. } => {
                let t = match self.format_type(ty, &shared.generic_params) {
                    Ok(s) => s,
                    Err(x) => {
                        return Err(x);
                    },
                };
                out.append("\tcase class ");
                out.append(ident.as_str());
                let params = self.param_list_text(&shared.generic_params);
                out.append(params.as_str());
                out.append("(");
                out.append(content_key.as_str());
                out.append(": ");
                out.append(t.as_str());
                out.append(")");
            },
            Variant::InlineRecord { fields, .. } => {
                let used = anonymous_struct_generics(&shared.generic_params, fields);
                out.append("\tcase class ");
                out.append(ident.as_str());
                let params = self.param_list_text(&shared.generic_params);
                out.append(params.as_str());
                out.append("(");
                out.append(content_key.as_str());
                out.append(": ");
                let mut inner = shared.id.original.clone();
                inner.append(vs.id.original.as_str());
                inner.append("Inner");
                out.append(inner.as_str());
                let used_params = if used.len() > 0 {
                    let mut p = String::from_str("[");
                    let joined_names = join_with_comma(&used);
                    p.append(joined_names.as_str());
                    p.append("]");
                    p
                } else {
                    String::new()
                };
                out.append(used_params.as_str());
                out.append(")");
                if !fields_typed(fields, DecoratorKind::Scala) {
                    return Err(GenError::UnsupportedType);
                }
            },
        }
        proof {
            assert(out@ =~= self.variant_decl(*shared, content_key@, *v));
        }
        Ok(out)
    }

    fn write_tagged_variant(&self, shared: &EnumShared, content_key: &String, v: &Variant) -> (r:
        Result<String, GenError>)
        ensures
            r is Ok <==> variant_ok(*v),
            r matches Ok(s) ==> s@ == self.tagged_variant_text(*shared, content_key@, *v),
    {
        let vs = v.shared();
        let mut out = String::new();
        append_comments(&mut out, 1, "// ", &vs.comments);
        match self.write_variant_decl(shared, content_key, v) {
            Ok(d) => out.append(d.as_str()),
            Err(x) => {
                return Err(x);
            },
        }
        out.append(" extends ");
        out.append(shared.id.renamed.as_str());
        let params = self.param_list_text(&shared.generic_params);
        out.append(params.as_str());
        out.append(" {\n");
        let member = serial_name_value(&vs.id.renamed);
        out.append(member.as_str());
        proof {
            assert(out@ =~= self.tagged_variant_text(*shared, content_key@, *v));
        }
        Ok(out)
    }

    fn write_enum_variants(&self, e: &EnumDef) -> (r: Result<String, GenError>)
        ensures
            r is Ok <==> enum_ok(*e),
            r matches Ok(s) ==> s@ == concat_all(self.variant_texts(*e)),
    {
        let mut out = String::new();
        let ghost texts = self.variant_texts(*e);
        match e {
            EnumDef::UnitEnum { shared, variants } => {
                let mut i: usize = 0;
                while i < variants.len()
                    invariant
                        texts == self.variant_texts(*e),
                        *e == (EnumDef::UnitEnum { shared: *shared, variants: *variants }),
                        i <= variants@.len(),
                        out@ == concat_all(texts.take(i as int)),
                    decreases variants@.len() - i,
                {
                    proof {
                        assert(texts.take(i + 1).drop_last() =~= texts.take(i as int));
                    }
                    let v = &variants[i];
                    append_comments(&mut out, 1, "// ", &v.comments);
                    out.append("\tcase object ");
                    out.append(v.id.original.as_str());
                    out.append(" extends ");
                    out.append(shared.id.renamed.as_str());
                    out.append(" {\n");
                    let member = serial_name_value(&v.id.renamed);
                    out.append(member.as_str());
                    proof {
                        assert(out@ =~= concat_all(texts.take(i + 1)));
                    }
                    i = i + 1;
                }
                proof {
                    assert(texts.take(variants@.len() as int) =~= texts);
                }
            },
            EnumDef::TaggedUnion { shared, content_key, variants } => {
                let mut i: usize = 0;
                while i < variants.len()
                    invariant
                        *e == (EnumDef::TaggedUnion { shared: *shared, content_key: *content_key, variants: *variants }),
                        texts == self.variant_texts(*e),
                        i <= variants@.len(),
                        out@ == concat_all(texts.take(i as int)),
                        forall|j: int| 0 <= j < i ==> variant_ok(#[trigger] variants@[j]),
                    decreases variants@.len() - i,
                {
                    proof {
                        assert(texts.take(i + 1).drop_last() =~= texts.take(i as int));
                    }
                    match self.write_tagged_variant(shared, content_key, &variants[i]) {
                        Ok(s) => {
                            out.append(s.as_str());
                            proof {
                                assert(out@ =~= concat_all(texts.take(i + 1)));
                            }
                        },
                        Err(x) => {
                            proof {
                                assert(!variant_ok(variants@[i as int]));
                            }
                            return Err(x);
                        },
                    }
                    i = i + 1;
                }
                proof {
                    assert(texts.take(variants@.len() as int) =~= texts);
                }
            },
        }
        Ok(out)
    }

    /// An enum: the structs hoisted from its inline records, a sealed trait,
    /// and an object with one case per variant.
    pub fn write_enum(&self, e: &EnumDef) -> (r: Result<String, GenError>)
        ensures
            r is Ok <==> enum_ok(*e),
            r matches Ok(s) ==> s@ == self.enum_text(*e),
            r matches Err(x) ==> x == GenError::UnsupportedType,
    {
        let mut out = match e {
            EnumDef::TaggedUnion { shared, variants, .. } => match self.write_hoisted(shared, variants, e) {
                Ok(s) => s,
                Err(_) => {
                    return Err(GenError::UnsupportedType);
                },
            },
            EnumDef::UnitEnum { .. } => String::new(),
        };
        let shared = e.shared();
        append_comments(&mut out, 0, "// ", &shared.comments);
        out.append("sealed trait ");
        out.append(shared.id.renamed.as_str());
        let params = self.param_list_text(&shared.generic_params);
        out.append(params.as_str());
        out.append(" {\n");
        out.append("\tdef serialName: String\n");
        out.append("}\n");
        out.append("object ");
        out.append(shared.id.renamed.as_str());
        out.append(" {\n");
        match self.write_enum_variants(e) {
            Ok(s) => out.append(s.as_str()),
            Err(_) => {
                return Err(GenError::UnsupportedType);
            },
        }
        out.append("}\n\n");
        proof {
            assert(out@ =~= self.enum_text(*e));
        }
        Ok(out)
    }

    /// The preamble: a version header unless suppressed, then the parent
    /// package when the package name is dotted.
    pub fn begin_file(&self) -> (r: Result<String, GenError>)
        ensures
            r is Err <==> self.package@.len() == 0,
            r matches Err(x) ==> x == GenError::MissingPackage,
            r matches Ok(s) ==> s@ == self.begin_text(),
    {
        if self.package.as_str().unicode_len() == 0 {
            return Err(GenError::MissingPackage);
        }
        let mut out = write_version_header(self.no_version_header);
        let tail = match find_last_dot(&self.package) {
            None => String::new(),
            Some(i) => {
                let mut t = String::from_str("package ");
                t.append(self.package.as_str().substring_char(0, i));
                t.append("\n");
                t.append("\n");
                t
            },
        };
        out.append(tail.as_str());
        proof {
            assert(out@ =~= self.begin_text());
        }
        Ok(out)
    }

    pub fn begin_package_object(&self) -> (r: String)
        ensures
            r@ == self.package_object_text(),
    {
        match find_last_dot(&self.package) {
            None => String::new(),
            Some(i) => {
                let n = self.package.as_str().unicode_len();
                let mut t = String::from_str("package object ");
                t.append(self.package.as_str().substring_char(i + 1, n));
                t.append(" {\n");
                t.append("\n");
                proof {
                    assert(self.package@.subrange(i + 1, n as int) =~= self.package@.skip(i + 1));
                }
                t
            },
        }
    }

    pub fn begin_package(&self) -> (r: String)
        ensures
            r@ == self.package_text(),
    {
        match find_last_dot(&self.package) {
            None => String::new(),
            Some(i) => {
                let n = self.package.as_str().unicode_len();
                let mut t = String::from_str("package ");
                t.append(self.package.as_str().substring_char(i + 1, n));
                t.append(" {\n");
                t.append("\n");
                proof {
                    assert(self.package@.subrange(i + 1, n as int) =~= self.package@.skip(i + 1));
                }
                t
            },
        }
    }

    /// Scala has no unsigned integers: each unsigned name stands for a signed type.
    pub fn write_unsigned_aliases(&self) -> (r: String)
        ensures
            r@ == unsigned_aliases_text(),
    {
        let mut out = String::from_str("type UByte = Byte\n");
        out.append("type UShort = Short\n");
        out.append("type UInt = Int\n");
        out.append("type ULong = Int\n");
        out.append("\n");
        out
    }

    pub fn end_package_object(&self) -> (r: String)
        ensures
            r@ == "}\n"@,
    {
        String::from_str("}\n")
    }

    pub fn end_package(&self) -> (r: String)
        ensures
            r@ == "}\n"@,
    {
        String::from_str("}\n")
    }

    /// Whether some alias, field or payload of `data` uses an unsigned integer.
    pub fn unsigned_integer_used(&self, data: &Model) -> (r: bool)
        ensures
            r == uses_unsigned(*data),
    {
        let mut i: usize = 0;
        while i < data.aliases.len()
            invariant
                i <= data.aliases@.len(),
                forall|j: int| 0 <= j < i ==> !contains_unsigned(#[trigger] data.aliases@[j].target),
            decreases data.aliases@.len() - i,
        {
            if has_unsigned(&data.aliases[i].target) {
                return true;
            }
            i = i + 1;
        }
        let mut i: usize = 0;
        while i < data.structs.len()
            invariant
                i <= data.structs@.len(),
                forall|j: int| 0 <= j < i ==> !fields_use_unsigned(#[trigger] data.structs@[j].fields@),
            decreases data.structs@.len() - i,
        {
            if fields_unsigned(&data.structs[i].fields) {
                return true;
            }
            i = i + 1;
        }
        let mut i: usize = 0;
        while i < data.enums.len()
            invariant
                i <= data.enums@.len(),
                forall|j: int| 0 <= j < i ==> !enum_uses_unsigned(#[trigger] data.enums@[j]),
            decreases data.enums@.len() - i,
        {
            match &data.enums[i] {
                EnumDef::UnitEnum { .. } => {},
                EnumDef::TaggedUnion { variants, .. } => {
                    let mut k: usize = 0;
                    while k < variants.len()
                        invariant
                            i < data.enums@.len(),
                            data.enums@[i as int] is TaggedUnion,
                            data.enums@[i as int]->TaggedUnion_variants == *variants,
                            forall|j: int| 0 <= j < i ==> !enum_uses_unsigned(#[trigger] data.enums@[j]),
                            k <= variants@.len(),
                            forall|j: int| 0 <= j < k ==> !variant_uses_unsigned(#[trigger] variants@[j]),
                        decreases variants@.len() - k,
                    {
                        let found = match &variants[k] {
                            Variant::NoPayload(_) => false,
                            Variant::SinglePayload { ty, .. } => has_unsigned(ty),
                            Variant::InlineRecord { fields, .. } => fields_unsigned(fields),
                        };
                        if found {
                            proof {
                                assert(variant_uses_unsigned(variants@[k as int]));
                                assert(enum_uses_unsigned(data.enums@[i as int]));
                            }
                            return true;
                        }
                        k = k + 1;
                    }
                },
            }
            i = i + 1;
        }
        false
    }

    fn write_aliases(&self, aliases: &Vec<AliasDef>) -> (r: Result<String, GenError>)
        ensures
            r is Ok <==> (forall|j: int| 0 <= j < aliases@.len() ==> representable(#[trigger] aliases@[j].target)),
            r matches Ok(s) ==> s@ == concat_all(self.alias_texts(aliases@)),
            r matches Err(x) ==> x == GenError::UnsupportedType,
    {
        let ghost at = self.alias_texts(aliases@);
        let mut out = String::new();
        let mut i: usize = 0;
        while i < aliases.len()
            invariant
                i <= aliases@.len(),
                at == self.alias_texts(aliases@),
                out@ == concat_all(at.take(i as int)),
                forall|j: int| 0 <= j < i ==> representable(#[trigger] aliases@[j].target),
            decreases aliases@.len() - i,
        {
            proof {
                assert(at.take(i + 1).drop_last() =~= at.take(i as int));
            }
            match self.write_type_alias(&aliases[i]) {
                Ok(s) => {
                    out.append(s.as_str());
                    proof {
                        assert(out@ =~= concat_all(at.take(i + 1)));
                    }
                },
                Err(x) => {
                    return Err(x);
                },
            }
            i = i + 1;
        }
        proof {
            assert(at.take(aliases@.len() as int) =~= at);
        }
        Ok(out)
    }

    fn write_structs(&self, structs: &Vec<StructDef>) -> (r: Result<String, GenError>)
        ensures
            r is Ok <==> (forall|j: int| 0 <= j < structs@.len() ==> fields_ok(#[trigger] structs@[j].fields@)),
            r matches Ok(s) ==> s@ == concat_all(self.struct_texts(structs@)),
            r matches Err(x) ==> x == GenError::UnsupportedType,
    {
        let ghost st = self.struct_texts(structs@);
        let mut out = String::new();
        let mut i: usize = 0;
        while i < structs.len()
            invariant
                i <= structs@.len(),
                st == self.struct_texts(structs@),
                out@ == concat_all(st.take(i as int)),
                forall|j: int| 0 <= j < i ==> fields_ok(#[trigger] structs@[j].fields@),
            decreases structs@.len() - i,
        {
            proof {
                assert(st.take(i + 1).drop_last() =~= st.take(i as int));
            }
            match self.write_struct(&structs[i]) {
                Ok(s) => {
                    out.append(s.as_str());
                    proof {
                        assert(out@ =~= concat_all(st.take(i + 1)));
                    }
                },
                Err(x) => {
                    return Err(x);
                },
            }
            i = i + 1;
        }
        proof {
            assert(st.take(structs@.len() as int) =~= st);
        }
        Ok(out)
    }

    #[verifier::rlimit(40)]
    fn write_enums(&self, enums: &Vec<EnumDef>) -> (r: Result<String, GenError>)
        ensures
            r is Ok <==> (forall|j: int| 0 <= j < enums@.len() ==> enum_ok(#[trigger] enums@[j])),
            r matches Ok(s) ==> s@ == concat_all(self.enum_texts(enums@)),
            r matches Err(x) ==> x == GenError::UnsupportedType,
    {
        let ghost et = self.enum_texts(enums@);
        let mut out = String::new();
        let mut i: usize = 0;
        while i < enums.len()
            invariant
                i <= enums@.len(),
                et == self.enum_texts(enums@),
                out@ == concat_all(et.take(i as int)),
                forall|j: int| 0 <= j < i ==> enum_ok(#[trigger] enums@[j]),
            decreases enums@.len() - i,
        {
            proof {
                assert(et.take(i + 1).drop_last() =~= et.take(i as int));
            }
            match self.write_enum(&enums[i]) {
                Ok(s) => {
                    out.append(s.as_str());
                    proof {
                        assert(out@ =~= concat_all(et.take(i + 1)));
                    }
                },
                Err(x) => {
                    return Err(x);
                },
            }
            i = i + 1;
        }
        proof {
            assert(et.take(enums@.len() as int) =~= et);
        }
        Ok(out)
    }

    /// Renders a whole model into one file.
    pub fn generate_types(&self, data: &Model) -> (r: Result<String, GenError>)
        ensures
            r is Ok <==> (self.package@.len() > 0 && model_ok(*data)),
            self.package@.len() == 0 ==> r == Err::<String, GenError>(GenError::MissingPackage),
            self.package@.len() > 0 && !model_ok(*data) ==> r == Err::<String, GenError>(
                GenError::UnsupportedType,
            ),
            r matches Ok(s) ==> s@ == self.file_text(*data),
    {
        let mut out = match self.begin_file() {
            Ok(s) => s,
            Err(x) => {
                return Err(x);
            },
        };
        let unsigned_used = self.unsigned_integer_used(data);
        let mut aliases_part = String::new();
        if unsigned_used || data.aliases.len() > 0 {
            let head = self.begin_package_object();
            aliases_part.append(head.as_str());
            let ua = if unsigned_used {
                self.write_unsigned_aliases()
            } else {
                String::new()
            };
            aliases_part.append(ua.as_str());
            match self.write_aliases(&data.aliases) {
                Ok(s) => aliases_part.append(s.as_str()),
                Err(x) => {
                    return Err(x);
                },
            }
            let end = self.end_package_object();
            aliases_part.append(end.as_str());
        } else {
            match self.write_aliases(&data.aliases) {
                Ok(_) => {},
                Err(x) => {
                    return Err(x);
                },
            }
        }
        proof {
            assert(aliases_part@ =~= self.aliases_block(*data));
        }
        out.append(aliases_part.as_str());
        let structs_part = match self.write_structs(&data.structs) {
            Ok(s) => s,
            Err(x) => {
                return Err(x);
            },
        };
        let enums_part = match self.write_enums(&data.enums) {
            Ok(s) => s,
            Err(x) => {
                return Err(x);
            },
        };
        let mut types_part = String::new();
        if data.structs.len() > 0 || data.enums.len() > 0 {
            let head = self.begin_package();
            types_part.append(head.as_str());
            types_part.append(structs_part.as_str());
            types_part.append(enums_part.as_str());
            let end = self.end_package();
            types_part.append(end.as_str());
        }
        proof {
            assert(types_part@ =~= self.types_block(*data));
        }
        out.append(types_part.as_str());
        Ok(out)
    }
}

fn serial_name_value(renamed: &String) -> (r: String)
    ensures
        r@ == serial_name_member(renamed@),
{
    let mut out = String::from_str("\t\tval serialName: String = ");
    let q = quote(renamed);
    out.append(q.as_str());
    out.append("\n");
    out.append("\t}\n");
    out
}

/// The position of the last dot of `s`.
pub fn find_last_dot(s: &String) -> (r: Option<usize>)
    ensures
        r matches Some(i) ==> last_dot(s@) == Some(i as int) && i < s@.len(),
        r is None ==> last_dot(s@) is None,
{
    let t = s.as_str();
    let n = t.unicode_len();
    let mut i: usize = n;
    proof {
        assert(s@.take(n as int) =~= s@);
    }
    while i > 0
        invariant
            n == s@.len(),
            t@ == s@,
            i <= n,
            last_dot(s@) == last_dot(s@.take(i as int)),
        decreases i,
    {
        proof {
            assert(s@.take(i as int).drop_last() =~= s@.take(i - 1));
        }
        if t.get_char(i - 1) == '.' {
            return Some(i - 1);
        }
        i = i - 1;
    }
    None
}

fn has_unsigned(t: &ModelType) -> (r: bool)
    ensures
        r == contains_unsigned(*t),
    decreases t,
{
    match t {
        ModelType::List(e) => has_unsigned(e),
        ModelType::FixedArray(e, _) => has_unsigned(e),
        ModelType::Slice(e) => has_unsigned(e),
        ModelType::Optional(e) => has_unsigned(e),
        ModelType::Dictionary(k, v) => has_unsigned(k) || has_unsigned(v),
        _ => t.is_unsigned(),
    }
}

fn fields_unsigned(fields: &Vec<FieldDef>) -> (r: bool)
    ensures
        r == fields_use_unsigned(fields@),
{
    let mut i: usize = 0;
    while i < fields.len()
        invariant
            i <= fields@.len(),
            forall|j: int| 0 <= j < i ==> !contains_unsigned(#[trigger] fields@[j].ty),
        decreases fields@.len() - i,
    {
        if has_unsigned(&fields[i].ty) {
            return true;
        }
        i = i + 1;
    }
    false
}

/// Relies on itertools::Itertools::join: the elements with `, ` between neighbours.
#[verifier::external_body]
fn join_params(v: &Vec<String>) -> (r: String)
    ensures
        r@ == joined(strs(v@), ", "@),
{
    v.iter().join(", ")
}

/// A field of optional type ends in an explicit `= None` default, and its
/// text is the same whether or not it is flagged as having a default.
pub proof fn lemma_optional_field_default(
    sc: &Scala,
    f: FieldDef,
    g: FieldDef,
    generics: Seq<Seq<char>>,
    serial: bool,
)
    requires
        f.ty is Optional,
        g.id == f.id,
        g.ty == f.ty,
        g.comments == f.comments,
        g.type_overrides == f.type_overrides,
    ensures
        sc.element_text(f, generics, serial) == sc.element_text(g, generics, serial),
        exists|head: Seq<char>| sc.element_text(f, generics, serial) == head + " = None"@,
{
    let head = comment_lines(1, "// "@, strs(f.comments@)) + serial_part(f.id.renamed@, serial) + "\t"@
        + sanitized(f.id.renamed@) + ": "@ + sc.field_type_text(f, generics);
    assert(sc.element_text(f, generics, serial) == head + " = None"@);
}

/// A redacted struct with fields renders its text as its own quoted name,
/// whatever the fields hold.
pub proof fn lemma_redacted_struct_masked(
    sc: &Scala,
    name: Seq<char>,
    fields: Seq<FieldDef>,
    generics: Seq<Seq<char>>,
    comments: Seq<Seq<char>>,
)
    requires
        fields.len() > 0,
    ensures
        exists|head: Seq<char>|
            sc.struct_text(name, fields, generics, comments, true) == head + ") {\n"@
                + "\toverride def toString: String = "@ + quoted(name) + "\n"@ + "}\n"@ + "\n"@,
{
    let head = comment_lines(0, "// "@, comments) + "case class "@ + name + params_text(generics)
        + " (\n"@ + joined(sc.elements(fields, generics), ",\n"@) + "\n"@;
    assert(sc.struct_text(name, fields, generics, comments, true) =~= head + ") {\n"@
        + "\toverride def toString: String = "@ + quoted(name) + "\n"@ + "}\n"@ + "\n"@);
}

/// A file holds one declaration per definition of the model, in model order:
/// alias `i` renders as the `i`-th alias text, and likewise for structs and
/// enums; an enum without inline-record variants adds nothing before its own
/// declaration.
pub proof fn lemma_one_declaration_per_definition(sc: &Scala, data: Model)
    ensures
        sc.alias_texts(data.aliases@).len() == data.aliases@.len(),
        sc.struct_texts(data.structs@).len() == data.structs@.len(),
        sc.enum_texts(data.enums@).len() == data.enums@.len(),
        forall|i: int| 0 <= i < data.aliases@.len() ==> #[trigger] sc.alias_texts(data.aliases@)[i]
            == sc.alias_text(data.aliases@[i]),
        forall|i: int| 0 <= i < data.enums@.len() ==> #[trigger] sc.enum_texts(data.enums@)[i]
            == sc.enum_text(data.enums@[i]),
        forall|i: int|
            0 <= i < data.enums@.len() && (forall|j: int|
                0 <= j < data.enums@[i]->TaggedUnion_variants@.len()
                    ==> !(#[trigger] data.enums@[i]->TaggedUnion_variants@[j] is InlineRecord))
                ==> #[trigger] sc.enum_hoisted(data.enums@[i]) == Seq::<char>::empty(),
        sc.file_text(data) == sc.begin_text() + sc.aliases_block(data) + sc.types_block(data),
{
    assert forall|i: int|
        0 <= i < data.enums@.len() && (forall|j: int|
            0 <= j < data.enums@[i]->TaggedUnion_variants@.len()
                ==> !(#[trigger] data.enums@[i]->TaggedUnion_variants@[j] is InlineRecord))
        implies #[trigger] sc.enum_hoisted(data.enums@[i]) == Seq::<char>::empty() by {
        match data.enums@[i] {
            EnumDef::UnitEnum { .. } => {},
            EnumDef::TaggedUnion { shared, variants, .. } => {
                lemma_no_inline_records(variants@);
                assert(sc.record_texts(shared, variants@) =~= Seq::<Seq<char>>::empty());
            },
        }
    }
}

} // verus!
