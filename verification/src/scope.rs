//! Variable bindings: declared types, mutability and current values.
use vstd::prelude::*;
use crate::diagnostics::{LangError, LangErrorV};
use crate::text::{owned, push_str};
use crate::types::{LangType, PrimitiveType, TypeKind, kind_text};
use crate::value::{KeyV, Value, ValueV, value_kind};

verus! {

/// How a declared kind is held against a value's kind.
#[derive(Debug, Clone, Copy, PartialEq, Eq, Structural)]
pub enum KindCheck {
    /// The value's kind must be the declared kind. An array value's kind is `arr<mixed, mixed>`,
    /// so only a binding of that kind takes an array.
    Exact,
    /// As [`KindCheck::Exact`], except that a declared array kind takes every array value: an
    /// array literal takes the array type that its declaration names, as `let a: arr<int> = [1]`.
    ArraysByDeclaration,
}

/// Whether a value fits a declared kind under `check`: the value's kind is the declared kind, or,
/// under [`KindCheck::ArraysByDeclaration`], the declared kind is an array kind and the value an
/// array.
pub open spec fn kind_accepts(check: KindCheck, k: TypeKind, v: ValueV) -> bool {
    if check == KindCheck::ArraysByDeclaration && k is Array {
        v is Array
    } else {
        value_kind(v) == k
    }
}

/// The message of a type mismatch between a declared kind and a value.
pub open spec fn mismatch_message(expected: TypeKind, v: ValueV) -> Seq<char> {
    "type mismatch: expected "@ + kind_text(expected) + ", got "@ + kind_text(value_kind(v))
}

/// What checking a value against a declared kind gives.
pub open spec fn check_compatible(check: KindCheck, expected: TypeKind, v: ValueV) -> Result<(), LangErrorV> {
    if kind_accepts(check, expected, v) {
        Ok(())
    } else {
        Err(LangErrorV::Type(mismatch_message(expected, v)))
    }
}

/// Whether `value` fits the declared kind `k` under `check`.
pub fn accepts(check: KindCheck, k: &TypeKind, value: &Value) -> (r: bool)
    ensures
        r == kind_accepts(check, *k, value@),
{
    match k {
        TypeKind::Primitive(PrimitiveType::Mixed) => false,
        TypeKind::Primitive(PrimitiveType::Integer) => matches!(value, Value::Integer(_)),
        TypeKind::Primitive(PrimitiveType::Float) => matches!(value, Value::Float(_)),
        TypeKind::Primitive(PrimitiveType::Bool) => matches!(value, Value::Bool(_)),
        TypeKind::Primitive(PrimitiveType::Str) => matches!(value, Value::Str(_)),
        TypeKind::Array(at) => match value {
            Value::Array(_) => match check {
                KindCheck::ArraysByDeclaration => true,
                KindCheck::Exact => match (&at.key, &at.value) {
                    (TypeKind::Primitive(PrimitiveType::Mixed), TypeKind::Primitive(PrimitiveType::Mixed)) => true,
                    _ => false,
                },
            },
            _ => false,
        },
    }
}

/// Checks `value` against the declared type under `check`, as a type error naming both kinds.
pub(crate) fn ensure_fits(check: KindCheck, expected: &LangType, value: &Value) -> (r: Result<(), LangError>)
    ensures
        match check_compatible(check, expected.kind, value@) {
            Ok(()) => r is Ok,
            Err(e) => r matches Err(x) && x@ == e,
        },
{
    if accepts(check, expected.kind(), value) {
        Ok(())
    } else {
        let mut msg = owned("type mismatch: expected ");
        let want = expected.kind().to_display_string();
        let got = value.ty().kind().to_display_string();
        push_str(&mut msg, want.as_str());
        push_str(&mut msg, ", got ");
        push_str(&mut msg, got.as_str());
        Err(LangError::Type(msg))
    }
}

/// Checks `value` against the declared type: a type error naming both kinds unless the value's
/// kind is the declared kind.
pub fn ensure_compatible(expected: &LangType, value: &Value) -> (r: Result<(), LangError>)
    ensures
        match check_compatible(KindCheck::Exact, expected.kind, value@) {
            Ok(()) => r is Ok,
            Err(e) => r matches Err(x) && x@ == e,
        },
{
    ensure_fits(KindCheck::Exact, expected, value)
}

/// A declared variable: its type and, once initialised, its value.
#[derive(Debug)]
pub struct BindingState {
    ty: LangType,
    value: Option<Value>,
}

/// The mathematical content of a [`BindingState`].
pub struct BindingV {
    pub ty: LangType,
    pub value: Option<ValueV>,
}

impl View for BindingState {
    type V = BindingV;

    closed spec fn view(&self) -> BindingV {
        BindingV {
            ty: self.ty,
            value: match self.value {
                Some(v) => Some(v@),
                None => None,
            },
        }
    }
}

/// What assigning `v` to a binding gives: a type error when the value does not fit, a type error
/// when an immutable binding already holds a value, otherwise the binding holding `v`.
pub open spec fn binding_assign(check: KindCheck, b: BindingV, v: ValueV) -> Result<BindingV, LangErrorV> {
    match check_compatible(check, b.ty.kind, v) {
        Err(e) => Err(e),
        Ok(()) => if !b.ty.mutable && b.value is Some {
            Err(LangErrorV::Type("attempt to reassign immutable binding"@))
        } else {
            Ok(BindingV { ty: b.ty, value: Some(v) })
        },
    }
}

impl BindingState {
    /// An uninitialised binding of type `ty`.
    pub fn new(ty: LangType) -> (r: BindingState)
        ensures
            r@ == (BindingV { ty, value: None }),
    {
        BindingState { ty, value: None }
    }

    /// The declared type.
    pub fn ty(&self) -> (r: &LangType)
        ensures
            *r == self@.ty,
    {
        &self.ty
    }

    /// The current value, if initialised.
    pub fn value(&self) -> (r: Option<&Value>)
        ensures
            match self@.value {
                Some(v) => r matches Some(x) && x@ == v,
                None => r is None,
            },
    {
        match &self.value {
            Some(v) => Some(v),
            None => None,
        }
    }

    /// Gives the binding a new value, if the value's kind is its declared kind and it may be
    /// (re)assigned.
    pub fn assign(&mut self, value: Value) -> (r: Result<(), LangError>)
        ensures
            match binding_assign(KindCheck::Exact, old(self)@, value@) {
                Ok(b) => r is Ok && final(self)@ == b,
                Err(e) => r matches Err(x) && x@ == e && final(self)@ == old(self)@,
            },
    {
        self.assign_checked(KindCheck::Exact, value)
    }

    /// Gives the binding a new value, if its type takes the value under `check` and it may be
    /// (re)assigned.
    pub(crate) fn assign_checked(&mut self, check: KindCheck, value: Value) -> (r: Result<(), LangError>)
        ensures
            match binding_assign(check, old(self)@, value@) {
                Ok(b) => r is Ok && final(self)@ == b,
                Err(e) => r matches Err(x) && x@ == e && final(self)@ == old(self)@,
            },
    {
        ensure_fits(check, &self.ty, &value)?;
        if !self.ty.is_mutable() && self.value.is_some() {
            return Err(LangError::Type(owned("attempt to reassign immutable binding")));
        }
        self.value = Some(value);
        Ok(())
    }
}

/// The bindings of a list of named entries, later entries standing for their names.
pub open spec fn bindings_map(es: Seq<(String, BindingState)>) -> Map<Seq<char>, BindingV>
    decreases es.len(),
{
    if es.len() == 0 {
        Map::empty()
    } else {
        bindings_map(es.drop_last()).insert(es.last().0@, es.last().1@)
    }
}

proof fn lemma_bindings_lookup(es: Seq<(String, BindingState)>, i: int)
    requires
        0 <= i < es.len(),
        forall|j: int| i < j < es.len() ==> es[j].0@ != es[i].0@,
    ensures
        bindings_map(es).contains_key(es[i].0@),
        bindings_map(es)[es[i].0@] == es[i].1@,
    decreases es.len(),
{
    if i < es.len() - 1 {
        lemma_bindings_lookup(es.drop_last(), i);
    }
}

proof fn lemma_bindings_absent(es: Seq<(String, BindingState)>, name: Seq<char>)
    requires
        forall|j: int| 0 <= j < es.len() ==> es[j].0@ != name,
    ensures
        !bindings_map(es).contains_key(name),
    decreases es.len(),
{
    if es.len() > 0 {
        lemma_bindings_absent(es.drop_last(), name);
    }
}

proof fn lemma_bindings_update(es: Seq<(String, BindingState)>, i: int, b: BindingState)
    requires
        0 <= i < es.len(),
        forall|j: int| i < j < es.len() ==> es[j].0@ != es[i].0@,
    ensures
        bindings_map(es.update(i, (es[i].0, b))) == bindings_map(es).insert(es[i].0@, b@),
    decreases es.len(),
{
    let es2 = es.update(i, (es[i].0, b));
    if i == es.len() - 1 {
        assert(es2.drop_last() == es.drop_last());
        assert(bindings_map(es2) =~= bindings_map(es).insert(es[i].0@, b@));
    } else {
        lemma_bindings_update(es.drop_last(), i, b);
        assert(es2.drop_last() == es.drop_last().update(i, (es[i].0, b)));
        assert(bindings_map(es2) =~= bindings_map(es).insert(es[i].0@, b@));
    }
}

/// The variables that are in scope.
#[derive(Debug)]
pub struct Scope {
    bindings: Vec<(String, BindingState)>,
}

impl View for Scope {
    type V = Map<Seq<char>, BindingV>;

    closed spec fn view(&self) -> Map<Seq<char>, BindingV> {
        bindings_map(self.bindings@)
    }
}

/// The message for declaring a name twice.
pub open spec fn already_declared(name: Seq<char>) -> Seq<char> {
    "variable `"@ + name + "` is already declared in scope"@
}

/// The message for using a name that is not declared.
pub open spec fn not_defined(name: Seq<char>) -> Seq<char> {
    "variable `"@ + name + "` is not defined"@
}

/// What assigning `v` to `name` gives.
pub open spec fn scope_assign(check: KindCheck, s: Map<Seq<char>, BindingV>, name: Seq<char>, v: ValueV) -> Result<Map<Seq<char>, BindingV>, LangErrorV> {
    if !s.contains_key(name) {
        Err(LangErrorV::Runtime(not_defined(name)))
    } else {
        match binding_assign(check, s[name], v) {
            Ok(b) => Ok(s.insert(name, b)),
            Err(e) => Err(e),
        }
    }
}

/// What declaring `name` of type `ty` with the initial value `v` gives.
pub open spec fn scope_declare_with_value(check: KindCheck, s: Map<Seq<char>, BindingV>, name: Seq<char>, ty: LangType, v: ValueV) -> Result<Map<Seq<char>, BindingV>, LangErrorV> {
    if s.contains_key(name) {
        Err(LangErrorV::Type(already_declared(name)))
    } else {
        match check_compatible(check, ty.kind, v) {
            Err(e) => Err(e),
            Ok(()) => Ok(s.insert(name, BindingV { ty, value: Some(v) })),
        }
    }
}

/// What declaring `name` of type `ty` without a value gives.
pub open spec fn scope_declare(s: Map<Seq<char>, BindingV>, name: Seq<char>, ty: LangType) -> Result<Map<Seq<char>, BindingV>, LangErrorV> {
    if s.contains_key(name) {
        Err(LangErrorV::Type(already_declared(name)))
    } else {
        Ok(s.insert(name, BindingV { ty, value: None }))
    }
}

impl Scope {
    /// An empty scope.
    pub fn new() -> (r: Scope)
        ensures
            r@ == Map::<Seq<char>, BindingV>::empty(),
    {
        Scope { bindings: Vec::new() }
    }

    fn find(&self, name: &str) -> (r: Option<usize>)
        ensures
            match r {
                Some(i) => i < self.bindings@.len() && self.bindings@[i as int].0@ == name@
                    && forall|j: int| i < j < self.bindings@.len() ==> self.bindings@[j].0@ != name@,
                None => forall|j: int| 0 <= j < self.bindings@.len() ==> self.bindings@[j].0@ != name@,
            },
    {
        let target = owned(name);
        let mut i = self.bindings.len();
        while i > 0
            invariant
                0 <= i <= self.bindings@.len(),
                target@ == name@,
                forall|j: int| i <= j < self.bindings@.len() ==> self.bindings@[j].0@ != name@,
            decreases i,
        {
            i = i - 1;
            if self.bindings[i].0 == target {
                return Some(i);
            }
        }
        None
    }

    /// Whether `name` is declared.
    pub fn contains(&self, name: &str) -> (r: bool)
        ensures
            r == self@.contains_key(name@),
    {
        match self.find(name) {
            Some(i) => {
                proof { lemma_bindings_lookup(self.bindings@, i as int); }
                true
            },
            None => {
                proof { lemma_bindings_absent(self.bindings@, name@); }
                false
            },
        }
    }

    /// Declares `name` with type `ty` and no value.
    pub fn declare(&mut self, name: &str, ty: LangType) -> (r: Result<(), LangError>)
        ensures
            match scope_declare(old(self)@, name@, ty) {
                Ok(s) => r is Ok && final(self)@ == s,
                Err(e) => r matches Err(x) && x@ == e && final(self)@ == old(self)@,
            },
    {
        if self.contains(name) {
            let mut msg = owned("variable `");
            push_str(&mut msg, name);
            push_str(&mut msg, "` is already declared in scope");
            return Err(LangError::Type(msg));
        }
        let ghost before = self.bindings@;
        let b = BindingState::new(ty);
        self.bindings.push((owned(name), b));
        assert(self.bindings@.drop_last() == before);
        Ok(())
    }

    /// Declares `name` with type `ty` holding `value`, if the value's kind is the declared kind.
    pub fn declare_with_value(&mut self, name: &str, ty: LangType, value: Value) -> (r: Result<(), LangError>)
        ensures
            match scope_declare_with_value(KindCheck::Exact, old(self)@, name@, ty, value@) {
                Ok(s) => r is Ok && final(self)@ == s,
                Err(e) => r matches Err(x) && x@ == e && final(self)@ == old(self)@,
            },
    {
        self.declare_with_value_checked(KindCheck::Exact, name, ty, value)
    }

    /// Declares `name` with type `ty` holding `value`, if the type takes the value under `check`.
    pub(crate) fn declare_with_value_checked(&mut self, check: KindCheck, name: &str, ty: LangType, value: Value) -> (r: Result<(), LangError>)
        ensures
            match scope_declare_with_value(check, old(self)@, name@, ty, value@) {
                Ok(s) => r is Ok && final(self)@ == s,
                Err(e) => r matches Err(x) && x@ == e && final(self)@ == old(self)@,
            },
    {
        if self.contains(name) {
            let mut msg = owned("variable `");
            push_str(&mut msg, name);
            push_str(&mut msg, "` is already declared in scope");
            return Err(LangError::Type(msg));
        }
        ensure_fits(check, &ty, &value)?;
        let mutable = ty.is_mutable();
        let ty = ty.with_mutability(mutable);
        let ghost before = self.bindings@;
        self.bindings.push((owned(name), BindingState { ty, value: Some(value) }));
        assert(self.bindings@.drop_last() == before);
        Ok(())
    }

    /// The binding of `name`, if declared.
    pub fn get(&self, name: &str) -> (r: Option<&BindingState>)
        ensures
            match r {
                Some(b) => self@.contains_key(name@) && b@ == self@[name@],
                None => !self@.contains_key(name@),
            },
    {
        match self.find(name) {
            Some(i) => {
                proof { lemma_bindings_lookup(self.bindings@, i as int); }
                Some(&self.bindings[i].1)
            },
            None => {
                proof { lemma_bindings_absent(self.bindings@, name@); }
                None
            },
        }
    }

    /// The binding of `name`, if declared, to change in place.
    pub fn get_mut(&mut self, name: &str) -> (r: Option<&mut BindingState>)
        ensures
            match r {
                Some(b) => old(self)@.contains_key(name@) && (*b)@ == old(self)@[name@]
                    && final(self)@ == old(self)@.insert(name@, (*final(b))@),
                None => !old(self)@.contains_key(name@) && final(self)@ == old(self)@,
            },
    {
        match self.find(name) {
            Some(i) => {
                let ghost before = self.bindings@;
                proof { lemma_bindings_lookup(before, i as int); }
                let entry = &mut self.bindings[i];
                let b = &mut entry.1;
                proof { lemma_bindings_update(before, i as int, *final(b)); }
                Some(b)
            },
            None => {
                proof { lemma_bindings_absent(self.bindings@, name@); }
                None
            },
        }
    }

    /// Assigns `value` to the declared variable `name`, if the value's kind is the declared kind.
    pub fn assign(&mut self, name: &str, value: Value) -> (r: Result<(), LangError>)
        ensures
            match scope_assign(KindCheck::Exact, old(self)@, name@, value@) {
                Ok(s) => r is Ok && final(self)@ == s,
                Err(e) => r matches Err(x) && x@ == e && final(self)@ == old(self)@,
            },
    {
        self.assign_checked(KindCheck::Exact, name, value)
    }

    /// Assigns `value` to the declared variable `name`, if its type takes the value under `check`.
    pub(crate) fn assign_checked(&mut self, check: KindCheck, name: &str, value: Value) -> (r: Result<(), LangError>)
        ensures
            match scope_assign(check, old(self)@, name@, value@) {
                Ok(s) => r is Ok && final(self)@ == s,
                Err(e) => r matches Err(x) && x@ == e && final(self)@ == old(self)@,
            },
    {
        match self.find(name) {
            None => {
                proof { lemma_bindings_absent(self.bindings@, name@); }
                let mut msg = owned("variable `");
                push_str(&mut msg, name);
                push_str(&mut msg, "` is not defined");
                Err(LangError::Runtime(msg))
            },
            Some(i) => {
                proof { lemma_bindings_lookup(self.bindings@, i as int); }
                let ghost before = self.bindings@;
                let (n, mut b) = self.bindings.remove(i);
                let r = b.assign_checked(check, value);
                self.bindings.insert(i, (n, b));
                proof {
                    assert(self.bindings@ == before.update(i as int, (before[i as int].0, b)));
                    lemma_bindings_update(before, i as int, b);
                    if r is Err {
                        assert(b@ == before[i as int].1@);
                        assert(bindings_map(before).insert(name@, b@) =~= bindings_map(before));
                    }
                }
                r
            },
        }
    }
}

/// An immutable binding that holds a value refuses every further assignment.
pub proof fn law_immutable_binding_is_fixed(check: KindCheck, s: Map<Seq<char>, BindingV>, name: Seq<char>, v: ValueV)
    requires
        s.contains_key(name),
        !s[name].ty.mutable,
        s[name].value is Some,
    ensures
        scope_assign(check, s, name, v) is Err,
{
}

/// Declaring then reading back: a fresh name holds the declared type and value.
pub proof fn law_declare_then_get(check: KindCheck, s: Map<Seq<char>, BindingV>, name: Seq<char>, ty: LangType, v: ValueV)
    requires
        !s.contains_key(name),
        kind_accepts(check, ty.kind, v),
    ensures
        scope_declare_with_value(check, s, name, ty, v) == Ok::<Map<Seq<char>, BindingV>, LangErrorV>(
            s.insert(name, BindingV { ty, value: Some(v) }),
        ),
{
}

/// A successful assignment to a mutable binding makes it hold the assigned value.
pub proof fn law_assign_then_get(check: KindCheck, s: Map<Seq<char>, BindingV>, name: Seq<char>, v: ValueV)
    requires
        s.contains_key(name),
        s[name].ty.mutable,
        kind_accepts(check, s[name].ty.kind, v),
    ensures
        scope_assign(check, s, name, v) matches Ok(t) && t[name].value == Some(v) && t[name].ty == s[name].ty,
{
}

} // verus!
