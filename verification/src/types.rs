//! Language types: primitives, arrays, mutability and the registry of named types.
use vstd::prelude::*;
use crate::text::{owned, push_str};

verus! {

/// The primitive types of the language.
#[derive(Debug, Clone, Copy, PartialEq, Eq)]
pub enum PrimitiveType {
    Integer,
    Float,
    Bool,
    Str,
    Mixed,
}

/// The name under which a primitive type is written and registered.
pub open spec fn primitive_name(p: PrimitiveType) -> Seq<char> {
    match p {
        PrimitiveType::Integer => "int"@,
        PrimitiveType::Float => "float"@,
        PrimitiveType::Bool => "bool"@,
        PrimitiveType::Str => "str"@,
        PrimitiveType::Mixed => "mixed"@,
    }
}

impl PrimitiveType {
    /// The name of the type, e.g. `int`.
    pub fn as_str(&self) -> (r: &'static str)
        ensures
            r@ == primitive_name(*self),
    {
        match self {
            PrimitiveType::Integer => "int",
            PrimitiveType::Float => "float",
            PrimitiveType::Bool => "bool",
            PrimitiveType::Str => "str",
            PrimitiveType::Mixed => "mixed",
        }
    }
}

/// The shape of a type: a primitive or an array with key and value kinds.
#[derive(Debug, PartialEq, Eq)]
pub enum TypeKind {
    Primitive(PrimitiveType),
    Array(Box<ArrayType>),
}

/// An array type: the kind of its keys and the kind of its values.
#[derive(Debug, PartialEq, Eq)]
pub struct ArrayType {
    pub key: TypeKind,
    pub value: TypeKind,
}

/// What `Display` writes for a type kind: the primitive name, or `arr<key, value>`.
pub open spec fn kind_text(k: TypeKind) -> Seq<char>
    decreases k,
{
    match k {
        TypeKind::Primitive(p) => primitive_name(p),
        TypeKind::Array(a) => "arr<"@ + kind_text(a.key) + ", "@ + kind_text(a.value) + ">"@,
    }
}

impl TypeKind {
    /// A copy of this kind.
    pub fn copy(&self) -> (r: TypeKind)
        ensures
            r == *self,
        decreases self,
    {
        match self {
            TypeKind::Primitive(p) => TypeKind::Primitive(*p),
            TypeKind::Array(a) => TypeKind::Array(Box::new(ArrayType { key: a.key.copy(), value: a.value.copy() })),
        }
    }

    /// The text of this kind, e.g. `int` or `arr<mixed, int>`.
    pub fn to_display_string(&self) -> (r: String)
        ensures
            r@ == kind_text(*self),
        decreases self,
    {
        match self {
            TypeKind::Primitive(p) => owned(p.as_str()),
            TypeKind::Array(a) => {
                let mut out = owned("arr<");
                let k = a.key.to_display_string();
                let v = a.value.to_display_string();
                push_str(&mut out, k.as_str());
                push_str(&mut out, ", ");
                push_str(&mut out, v.as_str());
                push_str(&mut out, ">");
                out
            },
        }
    }
}

impl ArrayType {
    /// An array type with the given key and value kinds.
    pub fn new(key: TypeKind, value: TypeKind) -> (r: ArrayType)
        ensures
            r.key == key,
            r.value == value,
    {
        ArrayType { key, value }
    }

    /// The kind of the keys.
    pub fn key(&self) -> (r: &TypeKind)
        ensures
            *r == self.key,
    {
        &self.key
    }

    /// The kind of the values.
    pub fn value(&self) -> (r: &TypeKind)
        ensures
            *r == self.value,
    {
        &self.value
    }

    /// A copy of this array type.
    pub fn copy(&self) -> (r: ArrayType)
        ensures
            r == *self,
    {
        ArrayType { key: self.key.copy(), value: self.value.copy() }
    }
}

/// A type together with whether bindings of it may be reassigned.
#[derive(Debug, PartialEq, Eq)]
pub struct LangType {
    pub kind: TypeKind,
    pub mutable: bool,
}

/// What `Display` writes for a type: its kind, followed by ` mute` when it is mutable.
pub open spec fn lang_type_text(t: LangType) -> Seq<char> {
    if t.mutable {
        kind_text(t.kind) + " mute"@
    } else {
        kind_text(t.kind)
    }
}

impl LangType {
    /// A type of the given kind and mutability.
    pub fn new(kind: TypeKind, mutable: bool) -> (r: LangType)
        ensures
            r.kind == kind,
            r.mutable == mutable,
    {
        LangType { kind, mutable }
    }

    /// The immutable integer type.
    pub fn integer() -> (r: LangType)
        ensures
            r.kind == TypeKind::Primitive(PrimitiveType::Integer),
            !r.mutable,
    {
        LangType::new(TypeKind::Primitive(PrimitiveType::Integer), false)
    }

    /// The immutable float type.
    pub fn float() -> (r: LangType)
        ensures
            r.kind == TypeKind::Primitive(PrimitiveType::Float),
            !r.mutable,
    {
        LangType::new(TypeKind::Primitive(PrimitiveType::Float), false)
    }

    /// The immutable boolean type.
    pub fn boolean() -> (r: LangType)
        ensures
            r.kind == TypeKind::Primitive(PrimitiveType::Bool),
            !r.mutable,
    {
        LangType::new(TypeKind::Primitive(PrimitiveType::Bool), false)
    }

    /// The immutable string type.
    pub fn string() -> (r: LangType)
        ensures
            r.kind == TypeKind::Primitive(PrimitiveType::Str),
            !r.mutable,
    {
        LangType::new(TypeKind::Primitive(PrimitiveType::Str), false)
    }

    /// The type of unannotated bindings: `mixed`, mutable.
    pub fn mixed() -> (r: LangType)
        ensures
            r.kind == TypeKind::Primitive(PrimitiveType::Mixed),
            r.mutable,
    {
        LangType::new(TypeKind::Primitive(PrimitiveType::Mixed), true)
    }

    /// An immutable array type with `mixed` keys and values of the given kind.
    pub fn array(value: TypeKind) -> (r: LangType)
        ensures
            r.kind == TypeKind::Array(Box::new(ArrayType { key: TypeKind::Primitive(PrimitiveType::Mixed), value })),
            !r.mutable,
    {
        LangType::array_with_key(TypeKind::Primitive(PrimitiveType::Mixed), value)
    }

    /// An immutable array type with the given key and value kinds.
    pub fn array_with_key(key: TypeKind, value: TypeKind) -> (r: LangType)
        ensures
            r.kind == TypeKind::Array(Box::new(ArrayType { key, value })),
            !r.mutable,
    {
        LangType::new(TypeKind::Array(Box::new(ArrayType::new(key, value))), false)
    }

    /// The kind of this type.
    pub fn kind(&self) -> (r: &TypeKind)
        ensures
            *r == self.kind,
    {
        &self.kind
    }

    /// Whether bindings of this type may be reassigned.
    pub fn is_mutable(&self) -> (r: bool)
        ensures
            r == self.mutable,
    {
        self.mutable
    }

    /// The same type with the given mutability.
    pub fn with_mutability(self, mutable: bool) -> (r: LangType)
        ensures
            r.kind == self.kind,
            r.mutable == mutable,
    {
        let mut t = self;
        t.mutable = mutable;
        t
    }

    /// The array type, when this is an array.
    pub fn as_array(&self) -> (r: Option<&ArrayType>)
        ensures
            match self.kind {
                TypeKind::Array(a) => r == Some(&*a),
                TypeKind::Primitive(_) => r is None,
            },
    {
        match &self.kind {
            TypeKind::Array(a) => Some(&**a),
            TypeKind::Primitive(_) => None,
        }
    }

    /// A copy of this type.
    pub fn copy(&self) -> (r: LangType)
        ensures
            r == *self,
    {
        LangType { kind: self.kind.copy(), mutable: self.mutable }
    }

    /// The text of this type, e.g. `int` or `int mute`.
    pub fn to_display_string(&self) -> (r: String)
        ensures
            r@ == lang_type_text(*self),
    {
        let mut out = self.kind.to_display_string();
        if self.mutable {
            push_str(&mut out, " mute");
        }
        out
    }
}

/// Named types that annotations may refer to.
#[derive(Debug)]
pub struct TypeRegistry {
    types: Vec<(String, TypeKind)>,
}

/// The builtin names of a fresh registry: `int`, `float`, `bool` and `str`.
pub open spec fn builtin_types() -> Map<Seq<char>, TypeKind> {
    map![
        "int"@ => TypeKind::Primitive(PrimitiveType::Integer),
        "float"@ => TypeKind::Primitive(PrimitiveType::Float),
        "bool"@ => TypeKind::Primitive(PrimitiveType::Bool),
        "str"@ => TypeKind::Primitive(PrimitiveType::Str)
    ]
}

/// The mapping held by a list of registered names, later entries standing for their names.
pub open spec fn entries_map(entries: Seq<(String, TypeKind)>) -> Map<Seq<char>, TypeKind>
    decreases entries.len(),
{
    if entries.len() == 0 {
        Map::empty()
    } else {
        entries_map(entries.drop_last()).insert(entries.last().0@, entries.last().1)
    }
}

impl View for TypeRegistry {
    type V = Map<Seq<char>, TypeKind>;

    closed spec fn view(&self) -> Map<Seq<char>, TypeKind> {
        entries_map(self.types@)
    }
}

impl TypeRegistry {
    /// A registry knowing `int`, `float`, `bool` and `str`.
    pub fn new() -> (r: TypeRegistry)
        ensures
            r@ == builtin_types(),
    {
        let mut registry = TypeRegistry { types: Vec::new() };
        registry.register_builtin(PrimitiveType::Integer.as_str(), TypeKind::Primitive(PrimitiveType::Integer));
        registry.register_builtin(PrimitiveType::Float.as_str(), TypeKind::Primitive(PrimitiveType::Float));
        registry.register_builtin(PrimitiveType::Bool.as_str(), TypeKind::Primitive(PrimitiveType::Bool));
        registry.register_builtin(PrimitiveType::Str.as_str(), TypeKind::Primitive(PrimitiveType::Str));
        assert(registry@ =~= builtin_types());
        registry
    }

    /// Registers `kind` under `name`, replacing an earlier registration of that name.
    pub fn register_builtin(&mut self, name: &str, kind: TypeKind)
        ensures
            final(self)@ == old(self)@.insert(name@, kind),
    {
        let ghost before = self.types@;
        self.types.push((owned(name), kind));
        assert(self.types@.drop_last() == before);
    }

    /// The kind registered under `name`, if any.
    pub fn resolve(&self, name: &str) -> (r: Option<TypeKind>)
        ensures
            r == (if self@.contains_key(name@) { Some(self@[name@]) } else { None::<TypeKind> }),
    {
        let target = owned(name);
        let mut i = self.types.len();
        while i > 0
            invariant
                0 <= i <= self.types@.len(),
                target@ == name@,
                forall|j: int| i <= j < self.types@.len() ==> self.types@[j].0@ != name@,
            decreases i,
        {
            i = i - 1;
            if self.types[i].0 == target {
                proof { lemma_entries_lookup(self.types@, i as int); }
                return Some(self.types[i].1.copy());
            }
        }
        proof { lemma_entries_absent(self.types@, name@); }
        None
    }
}

proof fn lemma_entries_lookup(entries: Seq<(String, TypeKind)>, i: int)
    requires
        0 <= i < entries.len(),
        forall|j: int| i < j < entries.len() ==> entries[j].0@ != entries[i].0@,
    ensures
        entries_map(entries).contains_key(entries[i].0@),
        entries_map(entries)[entries[i].0@] == entries[i].1,
    decreases entries.len(),
{
    if i < entries.len() - 1 {
        lemma_entries_lookup(entries.drop_last(), i);
    }
}

proof fn lemma_entries_absent(entries: Seq<(String, TypeKind)>, name: Seq<char>)
    requires
        forall|j: int| 0 <= j < entries.len() ==> entries[j].0@ != name,
    ensures
        !entries_map(entries).contains_key(name),
    decreases entries.len(),
{
    if entries.len() > 0 {
        lemma_entries_absent(entries.drop_last(), name);
    }
}

/// A later registration of a name replaces an earlier one, and leaves every other name as it was.
pub proof fn law_register_then_resolve(before: Map<Seq<char>, TypeKind>, name: Seq<char>, kind: TypeKind, other: Seq<char>)
    requires
        other != name,
    ensures
        before.insert(name, kind).contains_key(name),
        before.insert(name, kind)[name] == kind,
        before.insert(name, kind).contains_key(other) == before.contains_key(other),
        before.contains_key(other) ==> before.insert(name, kind)[other] == before[other],
{
}

} // verus!
