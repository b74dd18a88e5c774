use vstd::prelude::*;

verus! {

/// An identifier as written in the origin definition and as renamed for the wire.
pub struct Id {
    pub original: String,
    pub renamed: String,
    pub serde_rename: bool,
}

/// A type as it appears in the model.
pub enum ModelType {
    /// A named user type, or a reference to a generic parameter.
    Simple { id: String },
    List(Box<ModelType>),
    FixedArray(Box<ModelType>, usize),
    Slice(Box<ModelType>),
    Optional(Box<ModelType>),
    Dictionary(Box<ModelType>, Box<ModelType>),
    Unit,
    Str,
    Char,
    I8,
    I16,
    I32,
    I54,
    I64,
    ISize,
    U8,
    U16,
    U32,
    U53,
    U64,
    USize,
    Bool,
    F32,
    F64,
    DateTime,
}

/// The backend a decorator or a type override is meant for.
#[derive(PartialEq, Eq, Structural, Clone, Copy, Debug)]
pub enum DecoratorKind {
    Kotlin,
    Scala,
}

/// A free-form flag attached to a definition for one backend.
pub struct Decorator {
    pub kind: DecoratorKind,
    pub flag: String,
}

/// A literal target type that replaces the projected type of a field in one backend.
pub struct TypeOverride {
    pub kind: DecoratorKind,
    pub ty: String,
}

pub struct FieldDef {
    pub id: Id,
    pub ty: ModelType,
    pub comments: Vec<String>,
    pub has_default: bool,
    pub type_overrides: Vec<TypeOverride>,
}

pub struct StructDef {
    pub id: Id,
    pub fields: Vec<FieldDef>,
    pub generic_params: Vec<String>,
    pub comments: Vec<String>,
    pub is_redacted: bool,
    pub decorators: Vec<Decorator>,
}

pub struct VariantShared {
    pub id: Id,
    pub comments: Vec<String>,
}

/// One case of a tagged union.
pub enum Variant {
    NoPayload(VariantShared),
    SinglePayload { shared: VariantShared, ty: ModelType },
    InlineRecord { shared: VariantShared, fields: Vec<FieldDef> },
}

/// What every enum definition carries.
pub struct EnumShared {
    pub id: Id,
    pub generic_params: Vec<String>,
    pub comments: Vec<String>,
    pub is_redacted: bool,
    pub decorators: Vec<Decorator>,
}

#[allow(inconsistent_fields)]
pub enum EnumDef {
    /// Variants without payload, each serialized as its renamed identifier.
    UnitEnum { shared: EnumShared, variants: Vec<VariantShared> },
    /// A closed set of variants; payloads sit under `content_key`.
    TaggedUnion { shared: EnumShared, content_key: String, variants: Vec<Variant> },
}

pub struct AliasDef {
    pub id: Id,
    pub target: ModelType,
    pub generic_params: Vec<String>,
    pub comments: Vec<String>,
    pub is_redacted: bool,
    pub decorators: Vec<Decorator>,
}

pub struct ConstDef {
    pub id: Id,
    pub ty: ModelType,
    pub value: String,
}

/// The types that one crate of the origin imports from another.
pub struct ImportGroup {
    pub path: String,
    pub types: Vec<String>,
}

/// A parsed set of definitions, as handed to a backend.
pub struct Model {
    pub crate_name: String,
    pub structs: Vec<StructDef>,
    pub enums: Vec<EnumDef>,
    pub aliases: Vec<AliasDef>,
    pub multi_file: bool,
}

#[derive(PartialEq, Eq, Structural, Clone, Copy, Debug)]
pub enum GenError {
    /// A type with no representation in the target language.
    UnsupportedType,
    /// An operation that this backend does not offer.
    UnsupportedCapability,
    /// A backend whose configuration lacks a package name.
    MissingPackage,
}

impl EnumDef {
    pub open spec fn spec_shared(&self) -> &EnumShared {
        match self {
            EnumDef::UnitEnum { shared, .. } => shared,
            EnumDef::TaggedUnion { shared, .. } => shared,
        }
    }

    #[verifier::when_used_as_spec(spec_shared)]
    pub fn shared(&self) -> (r: &EnumShared)
        ensures
            r == self.spec_shared(),
    {
        match self {
            EnumDef::UnitEnum { shared, .. } => shared,
            EnumDef::TaggedUnion { shared, .. } => shared,
        }
    }
}

impl Variant {
    pub open spec fn spec_shared(&self) -> &VariantShared {
        match self {
            Variant::NoPayload(shared) => shared,
            Variant::SinglePayload { shared, .. } => shared,
            Variant::InlineRecord { shared, .. } => shared,
        }
    }

    #[verifier::when_used_as_spec(spec_shared)]
    pub fn shared(&self) -> (r: &VariantShared)
        ensures
            r == self.spec_shared(),
    {
        match self {
            Variant::NoPayload(shared) => shared,
            Variant::SinglePayload { shared, .. } => shared,
            Variant::InlineRecord { shared, .. } => shared,
        }
    }
}

/// A type has a target representation when no date/time occurs anywhere in it.
pub open spec fn representable(t: ModelType) -> bool
    decreases t,
{
    match t {
        ModelType::List(e) => representable(*e),
        ModelType::FixedArray(e, _) => representable(*e),
        ModelType::Slice(e) => representable(*e),
        ModelType::Optional(e) => representable(*e),
        ModelType::Dictionary(k, v) => representable(*k) && representable(*v),
        ModelType::DateTime => false,
        _ => true,
    }
}

/// The name `g` occurs as a simple type somewhere in `t`.
pub open spec fn mentions(t: ModelType, g: Seq<char>) -> bool
    decreases t,
{
    match t {
        ModelType::Simple { id } => id@ == g,
        ModelType::List(e) => mentions(*e, g),
        ModelType::FixedArray(e, _) => mentions(*e, g),
        ModelType::Slice(e) => mentions(*e, g),
        ModelType::Optional(e) => mentions(*e, g),
        ModelType::Dictionary(k, v) => mentions(*k, g) || mentions(*v, g),
        _ => false,
    }
}

pub open spec fn is_unsigned(t: ModelType) -> bool {
    match t {
        ModelType::U8 | ModelType::U16 | ModelType::U32 | ModelType::U53 | ModelType::U64
        | ModelType::USize => true,
        _ => false,
    }
}

impl ModelType {
    pub open spec fn spec_is_optional(&self) -> bool {
        self is Optional
    }

    #[verifier::when_used_as_spec(spec_is_optional)]
    pub fn is_optional(&self) -> (r: bool)
        ensures
            r == self.spec_is_optional(),
    {
        match self {
            ModelType::Optional(_) => true,
            _ => false,
        }
    }

    pub fn is_unsigned(&self) -> (r: bool)
        ensures
            r == is_unsigned(*self),
    {
        match self {
            ModelType::U8 | ModelType::U16 | ModelType::U32 | ModelType::U53 | ModelType::U64
            | ModelType::USize => true,
            _ => false,
        }
    }

    /// Whether the type has a target representation.
    pub fn is_representable(&self) -> (r: bool)
        ensures
            r == representable(*self),
        decreases self,
    {
        match self {
            ModelType::List(e) => e.is_representable(),
            ModelType::FixedArray(e, _) => e.is_representable(),
            ModelType::Slice(e) => e.is_representable(),
            ModelType::Optional(e) => e.is_representable(),
            ModelType::Dictionary(k, v) => k.is_representable() && v.is_representable(),
            ModelType::DateTime => false,
            _ => true,
        }
    }

    /// Whether the generic parameter `name` occurs anywhere in this type.
    pub fn contains_type(&self, name: &String) -> (r: bool)
        ensures
            r == mentions(*self, name@),
        decreases self,
    {
        match self {
            ModelType::Simple { id } => *id == *name,
            ModelType::List(e) => e.contains_type(name),
            ModelType::FixedArray(e, _) => e.contains_type(name),
            ModelType::Slice(e) => e.contains_type(name),
            ModelType::Optional(e) => e.contains_type(name),
            ModelType::Dictionary(k, v) => k.contains_type(name) || v.contains_type(name),
            _ => false,
        }
    }
}

/// The type override for `kind` among `overrides`: the first one given for it.
pub open spec fn override_for(overrides: Seq<TypeOverride>, kind: DecoratorKind) -> Option<Seq<char>>
    decreases overrides.len(),
{
    if overrides.len() == 0 {
        None
    } else if overrides[0].kind == kind {
        Some(overrides[0].ty@)
    } else {
        override_for(overrides.drop_first(), kind)
    }
}

impl FieldDef {
    pub fn type_override(&self, kind: DecoratorKind) -> (r: Option<&String>)
        ensures
            r matches Some(s) ==> override_for(self.type_overrides@, kind) == Some(s@),
            r is None ==> override_for(self.type_overrides@, kind) is None,
    {
        let mut i: usize = 0;
        proof {
            assert(self.type_overrides@.subrange(0, self.type_overrides@.len() as int)
                =~= self.type_overrides@);
        }
        while i < self.type_overrides.len()
            invariant
                i <= self.type_overrides@.len(),
                override_for(self.type_overrides@, kind) == override_for(
                    self.type_overrides@.subrange(i as int, self.type_overrides@.len() as int),
                    kind,
                ),
            decreases self.type_overrides@.len() - i,
        {
            let o = &self.type_overrides[i];
            proof {
                let rest = self.type_overrides@.subrange(i as int, self.type_overrides@.len() as int);
                assert(rest.drop_first() =~= self.type_overrides@.subrange(
                    i + 1,
                    self.type_overrides@.len() as int,
                ));
            }
            if o.kind == kind {
                return Some(&o.ty);
            }
            i = i + 1;
        }
        None
    }
}


/// A field has a type in the backend `kind`: an override, or a representable type.
pub open spec fn field_typed(f: FieldDef, kind: DecoratorKind) -> bool {
    override_for(f.type_overrides@, kind) is Some || representable(f.ty)
}

pub open spec fn all_fields_typed(fields: Seq<FieldDef>, kind: DecoratorKind) -> bool {
    forall|i: int| 0 <= i < fields.len() ==> field_typed(#[trigger] fields[i], kind)
}

/// Whether every field of `fields` has a type in the backend `kind`.
pub fn fields_typed(fields: &Vec<FieldDef>, kind: DecoratorKind) -> (r: bool)
    ensures
        r == all_fields_typed(fields@, kind),
{
    let mut i: usize = 0;
    while i < fields.len()
        invariant
            i <= fields@.len(),
            forall|j: int| 0 <= j < i ==> field_typed(#[trigger] fields@[j], kind),
        decreases fields@.len() - i,
    {
        let f = &fields[i];
        if f.type_override(kind).is_none() && !f.ty.is_representable() {
            proof {
                assert(!field_typed(fields@[i as int], kind));
            }
            return false;
        }
        i = i + 1;
    }
    true
}

} // verus!
