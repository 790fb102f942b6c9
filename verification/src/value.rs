//! Runtime values: integers, floats, booleans, strings and ordered arrays.
use vstd::prelude::*;
use crate::diagnostics::{LangError, LangErrorV};
use crate::text::{owned, push_str, push_i64, int_decimal};
use crate::types::{ArrayType, LangType, PrimitiveType, TypeKind, kind_text};

verus! {

/// An ordering test between two numbers.
#[derive(Debug, Clone, Copy, PartialEq, Eq)]
pub enum OrderTest {
    Less,
    LessEqual,
    Greater,
    GreaterEqual,
}

/// Floating-point arithmetic on IEEE-754 double bit patterns.
///
/// The language's float values are doubles; this library holds them as their bit patterns and
/// leaves every operation on them to an implementation of this trait (a program runs with the
/// host's `f64`). Nothing is assumed of what an implementation returns.
pub trait FloatOps {
    /// The double written by a literal such as `4.5`.
    fn parse_literal(&self, text: &str) -> u64;

    /// `a + b`.
    fn float_add(&self, a: u64, b: u64) -> u64;

    /// `a - b`.
    fn float_sub(&self, a: u64, b: u64) -> u64;

    /// `a * b`.
    fn float_mul(&self, a: u64, b: u64) -> u64;

    /// `a / b`.
    fn float_div(&self, a: u64, b: u64) -> u64;

    /// `-a`.
    fn float_neg(&self, a: u64) -> u64;

    /// `a + 1.0`.
    fn float_increment(&self, a: u64) -> u64;

    /// `a - 1.0`.
    fn float_decrement(&self, a: u64) -> u64;

    /// Whether `|a|` is below the machine epsilon.
    fn float_is_negligible(&self, a: u64) -> bool;

    /// `a == b` on doubles.
    fn float_equal(&self, a: u64, b: u64) -> bool;

    /// The ordering test on doubles.
    fn float_order(&self, test: OrderTest, a: u64, b: u64) -> bool;

    /// The ordering test on two integers after converting both to doubles.
    fn int_order_as_float(&self, test: OrderTest, a: i64, b: i64) -> bool;

    /// The text that `Display` writes for the double.
    fn float_text(&self, a: u64) -> String;
}

/// A key of an array: an integer index or a string.
#[derive(Debug, Clone, PartialEq, Eq, Hash)]
pub enum ArrayKey {
    Int(i64),
    Str(String),
}

/// The mathematical content of an [`ArrayKey`].
pub enum KeyV {
    Int(i64),
    Str(Seq<char>),
}

impl View for ArrayKey {
    type V = KeyV;

    open spec fn view(&self) -> KeyV {
        match self {
            ArrayKey::Int(i) => KeyV::Int(*i),
            ArrayKey::Str(s) => KeyV::Str(s@),
        }
    }
}

/// The mathematical content of a [`Value`].
pub enum ValueV {
    Integer(i64),
    Float(u64),
    Bool(bool),
    Str(Seq<char>),
    Array(ArrayV),
}

/// The mathematical content of an [`ArrayValue`]: its entries in insertion order and the next
/// index that appending uses.
pub struct ArrayV {
    pub entries: Seq<(KeyV, ValueV)>,
    pub next_index: i64,
}

/// A value of the language.
#[derive(Debug, PartialEq)]
pub enum Value {
    Integer(i64),
    /// A double, held as its IEEE-754 bit pattern.
    Float(u64),
    Bool(bool),
    Str(String),
    Array(ArrayValue),
}

/// An ordered array mapping keys to values.
#[derive(Debug, PartialEq)]
pub struct ArrayValue {
    keys: Vec<ArrayKey>,
    values: Vec<Value>,
    next_index: i64,
}

impl View for Value {
    type V = ValueV;

    open spec fn view(&self) -> ValueV
        decreases self,
    {
        match self {
            Value::Integer(i) => ValueV::Integer(*i),
            Value::Float(f) => ValueV::Float(*f),
            Value::Bool(b) => ValueV::Bool(*b),
            Value::Str(s) => ValueV::Str(s@),
            Value::Array(a) => ValueV::Array(a.view()),
        }
    }
}

impl View for ArrayValue {
    type V = ArrayV;

    closed spec fn view(&self) -> ArrayV
        decreases self,
    {
        ArrayV { entries: entries_view(self.keys@, self.values@), next_index: self.next_index }
    }
}

/// The views of the entries held as a list of keys and the list of their values.
pub closed spec fn entries_view(keys: Seq<ArrayKey>, values: Seq<Value>) -> Seq<(KeyV, ValueV)>
    decreases values,
{
    if values.len() == 0 {
        Seq::empty()
    } else {
        entries_view(keys, values.drop_last()).push((keys[values.len() - 1]@, values.last().view()))
    }
}

/// The views of the entries are the views of their keys and values.
pub proof fn lemma_entries_view(keys: Seq<ArrayKey>, values: Seq<Value>)
    ensures
        entries_view(keys, values).len() == values.len(),
        forall|i: int| 0 <= i < values.len() ==> #[trigger] entries_view(keys, values)[i] == (keys[i]@, values[i]@),
    decreases values.len(),
{
    if values.len() > 0 {
        lemma_entries_view(keys, values.drop_last());
        let n = values.len() - 1;
        assert(entries_view(keys, values) == entries_view(keys, values.drop_last()).push((keys[n]@, values[n]@)));
        assert forall|i: int| 0 <= i < values.len() implies #[trigger] entries_view(keys, values)[i] == (keys[i]@, values[i]@) by {
            if i < n {
                assert(values.drop_last()[i] == values[i]);
            }
        }
    }
}

/// Changing the value of one entry changes only the value of its view.
proof fn lemma_entries_update(keys: Seq<ArrayKey>, values: Seq<Value>, i: int, v: Value)
    requires
        0 <= i < values.len(),
    ensures
        entries_view(keys, values.update(i, v)) == entries_view(keys, values).update(i, (keys[i]@, v@)),
{
    lemma_entries_view(keys, values);
    lemma_entries_view(keys, values.update(i, v));
    assert(entries_view(keys, values.update(i, v)) =~= entries_view(keys, values).update(i, (keys[i]@, v@)));
}

/// Changing the value of one entry keeps an array well formed.
proof fn lemma_wf_update_value(a: ArrayV, i: int, v: ValueV)
    requires
        array_wf(a),
        0 <= i < a.entries.len(),
    ensures
        array_wf(ArrayV { entries: a.entries.update(i, (a.entries[i].0, v)), next_index: a.next_index }),
{
    let b = ArrayV { entries: a.entries.update(i, (a.entries[i].0, v)), next_index: a.next_index };
    assert forall|p: int, q: int| 0 <= p < q < b.entries.len() implies b.entries[p].0 != b.entries[q].0 by {
        assert(b.entries[p].0 == a.entries[p].0);
        assert(b.entries[q].0 == a.entries[q].0);
    }
    assert forall|p: int| 0 <= p < b.entries.len() implies (#[trigger] b.entries[p].0 matches KeyV::Int(n) ==> n < b.next_index) by {
        assert(b.entries[p].0 == a.entries[p].0);
    }
}

/// The position of the first entry of `es` at or after `start` whose key is `k`, or -1.
pub open spec fn find_key_from(es: Seq<(KeyV, ValueV)>, k: KeyV, start: int) -> int
    decreases es.len() - start,
{
    if start < 0 || start >= es.len() {
        -1
    } else if es[start].0 == k {
        start
    } else {
        find_key_from(es, k, start + 1)
    }
}

/// A found position holds the key looked for, and is the first such.
pub proof fn lemma_find_key(es: Seq<(KeyV, ValueV)>, k: KeyV, start: int)
    requires
        0 <= start,
    ensures
        find_key_from(es, k, start) >= 0 ==> {
            let i = find_key_from(es, k, start);
            start <= i < es.len() && es[i].0 == k
        },
        find_key_from(es, k, start) == -1 || find_key_from(es, k, start) >= start,
    decreases es.len() - start,
{
    if start < es.len() && es[start].0 != k {
        lemma_find_key(es, k, start + 1);
    }
}

/// The position of the first entry of `es` whose key is `k`, or -1.
pub open spec fn key_index(es: Seq<(KeyV, ValueV)>, k: KeyV) -> int {
    find_key_from(es, k, 0)
}

/// The value stored under `k`, if any.
pub open spec fn array_get(a: ArrayV, k: KeyV) -> Option<ValueV> {
    let i = key_index(a.entries, k);
    if i < 0 {
        None
    } else {
        Some(a.entries[i].1)
    }
}

/// An array with no entries whose next appended index is 0.
pub open spec fn empty_array() -> ArrayV {
    ArrayV { entries: Seq::empty(), next_index: 0 }
}

/// Stores `v` under `k`: an existing entry keeps its place, a new one goes last; an integer key at
/// or beyond the next index moves the next index past it.
pub open spec fn array_insert(a: ArrayV, k: KeyV, v: ValueV) -> ArrayV {
    let i = key_index(a.entries, k);
    let entries = if i < 0 { a.entries.push((k, v)) } else { a.entries.update(i, (k, v)) };
    let next_index = match k {
        KeyV::Int(n) => if n >= a.next_index { (n + 1) as i64 } else { a.next_index },
        KeyV::Str(_) => a.next_index,
    };
    ArrayV { entries, next_index }
}

/// Appends `v` under the next index and advances it.
pub open spec fn array_push(a: ArrayV, v: ValueV) -> ArrayV {
    ArrayV {
        entries: a.entries.push((KeyV::Int(a.next_index), v)),
        next_index: (a.next_index + 1) as i64,
    }
}

/// Whether `insert` can store under `k` without the next index leaving `i64`.
pub open spec fn insert_fits(a: ArrayV, k: KeyV) -> bool {
    match k {
        KeyV::Int(n) => n < a.next_index || n < i64::MAX,
        KeyV::Str(_) => true,
    }
}

/// The well-formedness that the array operations keep: keys are distinct and every integer key
/// lies below the next index.
pub open spec fn array_wf(a: ArrayV) -> bool {
    &&& forall|i: int, j: int| 0 <= i < j < a.entries.len() ==> a.entries[i].0 != a.entries[j].0
    &&& forall|i: int| 0 <= i < a.entries.len() ==> (#[trigger] a.entries[i].0 matches KeyV::Int(n) ==> n < a.next_index)
}

/// The kind of a value's type: arrays have `mixed` keys and values.
pub open spec fn value_kind(v: ValueV) -> TypeKind {
    match v {
        ValueV::Integer(_) => TypeKind::Primitive(PrimitiveType::Integer),
        ValueV::Float(_) => TypeKind::Primitive(PrimitiveType::Float),
        ValueV::Bool(_) => TypeKind::Primitive(PrimitiveType::Bool),
        ValueV::Str(_) => TypeKind::Primitive(PrimitiveType::Str),
        ValueV::Array(_) => TypeKind::Array(Box::new(ArrayType {
            key: TypeKind::Primitive(PrimitiveType::Mixed),
            value: TypeKind::Primitive(PrimitiveType::Mixed),
        })),
    }
}

/// Whether a float occurs anywhere in the value.
pub open spec fn has_float(v: ValueV) -> bool
    decreases v,
{
    match v {
        ValueV::Float(_) => true,
        ValueV::Array(a) => entries_have_float(a.entries),
        _ => false,
    }
}

/// Whether a float occurs in any of the values.
pub open spec fn entries_have_float(es: Seq<(KeyV, ValueV)>) -> bool
    decreases es,
{
    if es.len() == 0 {
        false
    } else {
        entries_have_float(es.drop_last()) || has_float(es.last().1)
    }
}

/// What `Display` writes for a key: the integer, or the string in single quotes.
pub open spec fn key_text(k: KeyV) -> Seq<char> {
    match k {
        KeyV::Int(n) => int_decimal(n as int),
        KeyV::Str(s) => "'"@ + s + "'"@,
    }
}

/// What `Display` writes for a float-free value: integers in decimal, booleans as `true` or
/// `false`, strings as they are, arrays as `[key => value, ...]`.
pub open spec fn value_text(v: ValueV) -> Seq<char>
    decreases v,
{
    match v {
        ValueV::Integer(i) => int_decimal(i as int),
        ValueV::Float(_) => Seq::empty(),
        ValueV::Bool(b) => if b { "true"@ } else { "false"@ },
        ValueV::Str(s) => s,
        ValueV::Array(a) => "["@ + entries_text(a.entries) + "]"@,
    }
}

/// The entries joined by `, `, each as `key => value`.
pub open spec fn entries_text(es: Seq<(KeyV, ValueV)>) -> Seq<char>
    decreases es,
{
    if es.len() == 0 {
        Seq::empty()
    } else if es.len() == 1 {
        key_text(es[0].0) + " => "@ + value_text(es[0].1)
    } else {
        entries_text(es.drop_last()) + ", "@ + key_text(es.last().0) + " => "@ + value_text(es.last().1)
    }
}

/// The number of floats in a value, in its arrays' entries included.
pub open spec fn float_count(v: ValueV) -> nat
    decreases v,
{
    match v {
        ValueV::Float(_) => 1,
        ValueV::Array(a) => entries_float_count(a.entries),
        _ => 0,
    }
}

/// The number of floats in the values of the entries.
pub open spec fn entries_float_count(es: Seq<(KeyV, ValueV)>) -> nat
    decreases es,
{
    if es.len() == 0 {
        0
    } else {
        entries_float_count(es.drop_last()) + float_count(es.last().1)
    }
}

/// What `Display` writes for a value whose floats, in the order they occur, are written `fs`:
/// as [`value_text`], each float written as the next text of `fs`.
pub open spec fn value_text_with(v: ValueV, fs: Seq<Seq<char>>) -> Seq<char>
    decreases v,
{
    match v {
        ValueV::Float(_) => fs[0],
        ValueV::Array(a) => "["@ + entries_text_with(a.entries, fs) + "]"@,
        _ => value_text(v),
    }
}

/// [`entries_text`] with the floats of the values written `fs`, in order.
pub open spec fn entries_text_with(es: Seq<(KeyV, ValueV)>, fs: Seq<Seq<char>>) -> Seq<char>
    decreases es,
{
    if es.len() == 0 {
        Seq::empty()
    } else {
        let c = entries_float_count(es.drop_last()) as int;
        let item = key_text(es.last().0) + " => "@ + value_text_with(es.last().1, fs.skip(c));
        if es.len() == 1 {
            item
        } else {
            entries_text_with(es.drop_last(), fs.take(c)) + ", "@ + item
        }
    }
}

/// Whether `t` is what `Display` writes for `v`, its floats written some way: [`value_text_with`]
/// for some texts of its floats.
pub open spec fn shows_value(t: Seq<char>, v: ValueV) -> bool {
    exists|fs: Seq<Seq<char>>| #![trigger value_text_with(v, fs)] fs.len() == float_count(v) && t == value_text_with(v, fs)
}

impl ArrayKey {
    /// A copy of this key.
    pub fn copy(&self) -> (r: ArrayKey)
        ensures
            r@ == self@,
    {
        match self {
            ArrayKey::Int(i) => ArrayKey::Int(*i),
            ArrayKey::Str(s) => ArrayKey::Str(s.clone()),
        }
    }

    /// Whether two keys are equal.
    pub fn same(&self, other: &ArrayKey) -> (r: bool)
        ensures
            r == (self@ == other@),
    {
        match (self, other) {
            (ArrayKey::Int(a), ArrayKey::Int(b)) => *a == *b,
            (ArrayKey::Str(a), ArrayKey::Str(b)) => *a == *b,
            _ => false,
        }
    }

    /// The key that a value indexes an array with: integers and strings only.
    pub fn from_value(value: Value) -> (r: Result<ArrayKey, LangError>)
        ensures
            match value@ {
                ValueV::Integer(i) => r matches Ok(k) && k@ == KeyV::Int(i),
                ValueV::Str(s) => r matches Ok(k) && k@ == KeyV::Str(s),
                other => r matches Err(e) && e@ == LangErrorV::Type(
                    "array indices must be integers or strings, got "@ + kind_text(value_kind(other)),
                ),
            },
    {
        match value {
            Value::Integer(v) => Ok(ArrayKey::Int(v)),
            Value::Str(v) => Ok(ArrayKey::Str(v)),
            other => {
                let ty = other.ty();
                let mut msg = owned("array indices must be integers or strings, got ");
                let kind = ty.kind().to_display_string();
                push_str(&mut msg, kind.as_str());
                Err(LangError::Type(msg))
            },
        }
    }

    /// The text of this key: the integer, or the string in single quotes.
    pub fn to_display_string(&self) -> (r: String)
        ensures
            r@ == key_text(self@),
    {
        match self {
            ArrayKey::Int(i) => {
                let mut out = String::new();
                push_i64(&mut out, *i);
                assert(out@ =~= int_decimal(*i as int));
                out
            },
            ArrayKey::Str(s) => {
                let mut out = owned("'");
                push_str(&mut out, s.as_str());
                push_str(&mut out, "'");
                out
            },
        }
    }
}

impl Value {
    /// The type of the value: immutable, arrays with `mixed` keys and values.
    pub fn ty(&self) -> (r: LangType)
        ensures
            r.kind == value_kind(self@),
            !r.mutable,
    {
        match self {
            Value::Integer(_) => LangType::integer(),
            Value::Float(_) => LangType::float(),
            Value::Bool(_) => LangType::boolean(),
            Value::Str(_) => LangType::string(),
            Value::Array(_) => LangType::array(TypeKind::Primitive(PrimitiveType::Mixed)),
        }
    }

    /// The integer, or a type error.
    pub fn expect_integer(&self) -> (r: Result<i64, LangError>)
        ensures
            match self@ {
                ValueV::Integer(i) => r == Ok::<i64, LangError>(i),
                _ => r matches Err(e) && e@ == LangErrorV::Type("expected integer value"@),
            },
    {
        match self {
            Value::Integer(v) => Ok(*v),
            _ => Err(LangError::Type(owned("expected integer value"))),
        }
    }

    /// The float's bit pattern, or a type error.
    pub fn expect_float(&self) -> (r: Result<u64, LangError>)
        ensures
            match self@ {
                ValueV::Float(f) => r == Ok::<u64, LangError>(f),
                _ => r matches Err(e) && e@ == LangErrorV::Type("expected float value"@),
            },
    {
        match self {
            Value::Float(v) => Ok(*v),
            _ => Err(LangError::Type(owned("expected float value"))),
        }
    }

    /// The boolean, or a type error.
    pub fn expect_bool(&self) -> (r: Result<bool, LangError>)
        ensures
            match self@ {
                ValueV::Bool(b) => r == Ok::<bool, LangError>(b),
                _ => r matches Err(e) && e@ == LangErrorV::Type("expected bool value"@),
            },
    {
        match self {
            Value::Bool(v) => Ok(*v),
            _ => Err(LangError::Type(owned("expected bool value"))),
        }
    }

    /// The string, or a type error.
    pub fn expect_string(&self) -> (r: Result<&str, LangError>)
        ensures
            match self@ {
                ValueV::Str(s) => r matches Ok(t) && t@ == s,
                _ => r matches Err(e) && e@ == LangErrorV::Type("expected string value"@),
            },
    {
        match self {
            Value::Str(v) => Ok(v.as_str()),
            _ => Err(LangError::Type(owned("expected string value"))),
        }
    }

    /// The array, or a type error.
    pub fn expect_array(&self) -> (r: Result<&ArrayValue, LangError>)
        ensures
            match self@ {
                ValueV::Array(a) => r matches Ok(t) && t@ == a,
                _ => r matches Err(e) && e@ == LangErrorV::Type("expected array value"@),
            },
    {
        match self {
            Value::Array(a) => Ok(a),
            _ => Err(LangError::Type(owned("expected array value"))),
        }
    }

    /// The array, to change in place, or a type error.
    pub fn expect_array_mut(&mut self) -> (r: Result<&mut ArrayValue, LangError>)
        ensures
            match old(self)@ {
                ValueV::Array(a) => r matches Ok(t) && (*t)@ == a
                    && final(self)@ == ValueV::Array((*final(t))@),
                _ => r matches Err(e) && e@ == LangErrorV::Type("expected array value"@)
                    && final(self)@ == old(self)@,
            },
    {
        match self {
            Value::Array(a) => Ok(a),
            _ => Err(LangError::Type(owned("expected array value"))),
        }
    }

    /// A copy of this value.
    pub fn copy(&self) -> (r: Value)
        ensures
            r@ == self@,
        decreases self,
    {
        match self {
            Value::Integer(v) => Value::Integer(*v),
            Value::Float(v) => Value::Float(*v),
            Value::Bool(v) => Value::Bool(*v),
            Value::Str(v) => Value::Str(v.clone()),
            Value::Array(a) => {
                proof {
                    use_type_invariant(a);
                    lemma_entries_view(a.keys@, a.values@);
                }
                let mut keys: Vec<ArrayKey> = Vec::new();
                let mut values: Vec<Value> = Vec::new();
                let n = a.values.len();
                let mut i: usize = 0;
                while i < n
                    invariant
                        *self == Value::Array(*a),
                        n == a.values@.len(),
                        n == a.keys@.len(),
                        i <= n,
                        keys@.len() == i,
                        values@.len() == i,
                        forall|j: int| 0 <= j < i ==> (#[trigger] keys@[j])@ == a.keys@[j]@,
                        forall|j: int| 0 <= j < i ==> (#[trigger] values@[j])@ == a.values@[j]@,
                    decreases n - i,
                {
                    let k = a.keys[i].copy();
                    proof {
                        let ghost av = *a;
                        let ghost e = av.values@[i as int];
                        assert(av == self->0);
                        assert(decreases_to!(*self => self->0));
                        assert(decreases_to!(av => av.values));
                        assert(decreases_to!(av.values => av.values@));
                        assert(decreases_to!(av.values@ => e));
                        assert(decreases_to!(*self => e));
                    }
                    let v = a.values[i].copy();
                    keys.push(k);
                    values.push(v);
                    i = i + 1;
                }
                proof {
                    lemma_entries_view(keys@, values@);
                    assert(entries_view(keys@, values@) =~= entries_view(a.keys@, a.values@));
                }
                let r = ArrayValue { keys, values, next_index: a.next_index };
                Value::Array(r)
            },
        }
    }

    /// The text that `Display` writes for the value; floats are written by `floats`.
    pub fn display<F: FloatOps>(&self, floats: &F) -> (r: String)
        ensures
            !has_float(self@) ==> r@ == value_text(self@),
            shows_value(r@, self@),
        decreases self,
    {
        match self {
            Value::Integer(v) => {
                let mut out = String::new();
                push_i64(&mut out, *v);
                assert(out@ =~= int_decimal(*v as int));
                assert(Seq::<Seq<char>>::empty().len() == float_count(self@) && value_text_with(self@, Seq::<Seq<char>>::empty()) == out@);
                out
            },
            Value::Float(v) => {
                let t = floats.float_text(*v);
                assert(seq![t@].len() == float_count(self@) && value_text_with(self@, seq![t@]) == t@);
                t
            },
            Value::Bool(v) => {
                let t = if *v { owned("true") } else { owned("false") };
                assert(Seq::<Seq<char>>::empty().len() == float_count(self@) && value_text_with(self@, Seq::<Seq<char>>::empty()) == t@);
                t
            },
            Value::Str(v) => {
                let t = v.clone();
                assert(Seq::<Seq<char>>::empty().len() == float_count(self@) && value_text_with(self@, Seq::<Seq<char>>::empty()) == t@);
                t
            },
            Value::Array(a) => {
                let mut out = owned("[");
                proof {
                    use_type_invariant(a);
                    lemma_entries_view(a.keys@, a.values@);
                }
                let n = a.values.len();
                let mut i: usize = 0;
                let ghost es = entries_view(a.keys@, a.values@);
                let ghost mut fs_acc: Seq<Seq<char>> = Seq::empty();
                assert(es.take(0) =~= Seq::<(KeyV, ValueV)>::empty());
                while i < n
                    invariant
                        *self == Value::Array(*a),
                        n == a.values@.len(),
                        n == a.keys@.len(),
                        es == entries_view(a.keys@, a.values@),
                        es.len() == n,
                        forall|j: int| 0 <= j < n ==> #[trigger] es[j] == (a.keys@[j]@, a.values@[j]@),
                        i <= n,
                        !entries_have_float(es.take(i as int)) ==> out@ == "["@ + entries_text(es.take(i as int)),
                        fs_acc.len() == entries_float_count(es.take(i as int)),
                        out@ == "["@ + entries_text_with(es.take(i as int), fs_acc),
                    decreases n - i,
                {
                    assert(es.take(i + 1).drop_last() =~= es.take(i as int));
                    if i > 0 {
                        push_str(&mut out, ", ");
                    }
                    let k = a.keys[i].to_display_string();
                    proof {
                        let ghost av = *a;
                        let ghost e = av.values@[i as int];
                        assert(av == self->0);
                        assert(decreases_to!(*self => self->0));
                        assert(decreases_to!(av => av.values));
                        assert(decreases_to!(av.values => av.values@));
                        assert(decreases_to!(av.values@ => e));
                        assert(decreases_to!(*self => e));
                    }
                    let v = a.values[i].display(floats);
                    push_str(&mut out, k.as_str());
                    push_str(&mut out, " => ");
                    push_str(&mut out, v.as_str());
                    proof {
                        let t = es.take(i + 1);
                        assert(t.last() == es[i as int]);
                        let fs_i = choose|fs: Seq<Seq<char>>| #![trigger value_text_with(a.values@[i as int]@, fs)] fs.len() == float_count(a.values@[i as int]@) && v@ == value_text_with(a.values@[i as int]@, fs);
                        let c = fs_acc.len() as int;
                        let nfs = fs_acc + fs_i;
                        assert(nfs.take(c) =~= fs_acc);
                        assert(nfs.skip(c) =~= fs_i);
                        assert(t.drop_last() =~= es.take(i as int));
                        if i == 0 {
                            assert(entries_text_with(es.take(i as int), fs_acc) =~= Seq::<char>::empty());
                        }
                        fs_acc = nfs;
                        if !entries_have_float(t) {
                            assert(!entries_have_float(es.take(i as int)));
                            if i == 0 {
                                assert(t.len() == 1);
                                assert(t[0] == es[0]);
                                assert(es.take(0) =~= Seq::<(KeyV, ValueV)>::empty());
                            }
                        }
                    }
                    i = i + 1;
                }
                assert(es.take(n as int) =~= es);
                push_str(&mut out, "]");
                assert(fs_acc.len() == float_count(self@) && out@ == value_text_with(self@, fs_acc));
                out
            },
        }
    }
}

impl ArrayValue {
    /// Every array is well formed: one value per key, the keys distinct, and the integer keys
    /// below the next index.
    #[verifier::type_invariant]
    spec fn well_formed(self) -> bool {
        &&& self.keys@.len() == self.values@.len()
        &&& array_wf(ArrayV { entries: entries_view(self.keys@, self.values@), next_index: self.next_index })
    }

    /// An empty array.
    pub fn new() -> (r: ArrayValue)
        ensures
            r@ == empty_array(),
            array_wf(r@),
    {
        proof { lemma_entries_view(Seq::<ArrayKey>::empty(), Seq::<Value>::empty()); }
        let r = ArrayValue { keys: Vec::new(), values: Vec::new(), next_index: 0 };
        assert(r@.entries =~= Seq::<(KeyV, ValueV)>::empty());
        r
    }

    /// The number of entries.
    pub fn len(&self) -> (r: usize)
        ensures
            r == self@.entries.len(),
    {
        proof { lemma_entries_view(self.keys@, self.values@); }
        self.values.len()
    }

    /// The index that the next append uses.
    pub fn next_index(&self) -> (r: i64)
        ensures
            r == self@.next_index,
    {
        self.next_index
    }

    /// Whether storing under `key` keeps the next index within `i64`.
    pub fn insert_fits(&self, key: &ArrayKey) -> (r: bool)
        ensures
            r == insert_fits(self@, key@),
    {
        match key {
            ArrayKey::Int(n) => *n < self.next_index || *n < i64::MAX,
            ArrayKey::Str(_) => true,
        }
    }

    /// The key and value of the entry at position `i`.
    pub fn entry(&self, i: usize) -> (r: (&ArrayKey, &Value))
        requires
            i < self@.entries.len(),
        ensures
            (r.0@, r.1@) == self@.entries[i as int],
    {
        proof {
            use_type_invariant(self);
            lemma_entries_view(self.keys@, self.values@);
        }
        (&self.keys[i], &self.values[i])
    }

    /// The entries in insertion order, each as its key and value.
    pub fn iter(&self) -> (r: Vec<(&ArrayKey, &Value)>)
        ensures
            r@.len() == self@.entries.len(),
            forall|i: int| 0 <= i < r@.len() ==> (#[trigger] r@[i].0@, r@[i].1@) == self@.entries[i],
    {
        let n = self.len();
        let mut out: Vec<(&ArrayKey, &Value)> = Vec::new();
        let mut i: usize = 0;
        while i < n
            invariant
                n == self@.entries.len(),
                i <= n,
                out@.len() == i,
                forall|j: int| 0 <= j < i ==> (#[trigger] out@[j].0@, out@[j].1@) == self@.entries[j],
            decreases n - i,
        {
            let e = self.entry(i);
            out.push(e);
            i = i + 1;
        }
        out
    }

    /// The value stored under `key`, to change in place; the entry keeps its key and place.
    pub fn get_mut(&mut self, key: &ArrayKey) -> (r: Option<&mut Value>)
        ensures
            match r {
                Some(v) => array_get(old(self)@, key@) == Some((*v)@)
                    && final(self)@ == (ArrayV {
                        entries: old(self)@.entries.update(key_index(old(self)@.entries, key@), (key@, (*final(v))@)),
                        next_index: old(self)@.next_index,
                    }),
                None => array_get(old(self)@, key@) is None && final(self)@ == old(self)@,
            },
    {
        proof {
            use_type_invariant(&*self);
            lemma_entries_view(self.keys@, self.values@);
            lemma_find_key(self@.entries, key@, 0);
        }
        match self.position(key) {
            Some(i) => {
                let ghost keys = self.keys@;
                let ghost before = self.values@;
                let ghost wv = self@;
                proof {
                    assert forall|x: Value| #![trigger before.update(i as int, x)]
                        entries_view(keys, before.update(i as int, x)) == wv.entries.update(i as int, (wv.entries[i as int].0, x@)) by {
                        lemma_entries_update(keys, before, i as int, x);
                    }
                    assert forall|x: Value| #![trigger before.update(i as int, x)]
                        array_wf(ArrayV { entries: entries_view(keys, before.update(i as int, x)), next_index: wv.next_index }) by {
                        lemma_entries_update(keys, before, i as int, x);
                        lemma_wf_update_value(wv, i as int, x@);
                    }
                }
                let v = &mut self.values[i];
                Some(v)
            },
            None => None,
        }
    }

    /// The position of the first entry stored under `key`.
    pub fn position(&self, key: &ArrayKey) -> (r: Option<usize>)
        ensures
            match r {
                Some(i) => i as int == key_index(self@.entries, key@) && i < self@.entries.len(),
                None => key_index(self@.entries, key@) == -1,
            },
    {
        proof {
            use_type_invariant(self);
            lemma_entries_view(self.keys@, self.values@);
        }
        let ghost es = self@.entries;
        let n = self.keys.len();
        let mut i: usize = 0;
        while i < n
            invariant
                n == es.len(),
                n == self.keys@.len(),
                es == self@.entries,
                forall|j: int| 0 <= j < n ==> #[trigger] es[j].0 == self.keys@[j]@,
                i <= n,
                find_key_from(es, key@, 0) == find_key_from(es, key@, i as int),
            decreases n - i,
        {
            if self.keys[i].same(key) {
                return Some(i);
            }
            i = i + 1;
        }
        None
    }

    /// The value stored under `key`, if any.
    pub fn get(&self, key: &ArrayKey) -> (r: Option<&Value>)
        ensures
            match array_get(self@, key@) {
                Some(v) => r matches Some(x) && x@ == v,
                None => r is None,
            },
    {
        proof { lemma_entries_view(self.keys@, self.values@); }
        match self.position(key) {
            Some(i) => Some(&self.values[i]),
            None => None,
        }
    }

    /// Appends `value` under the next index and returns that index's key, which no entry held
    /// before.
    pub fn push(&mut self, value: Value) -> (r: ArrayKey)
        requires
            old(self)@.next_index < i64::MAX,
        ensures
            r@ == KeyV::Int(old(self)@.next_index),
            key_index(old(self)@.entries, r@) == -1,
            final(self)@ == array_push(old(self)@, value@),
            array_wf(final(self)@),
    {
        proof {
            use_type_invariant(&*self);
            lemma_entries_view(self.keys@, self.values@);
            crate::array_laws::law_push_keeps_wf(self@, value@);
            crate::array_laws::law_push_then_get(self@, value@);
            lemma_find_key(self@.entries, KeyV::Int(self.next_index), 0);
        }
        let ghost before = self@;
        let key = ArrayKey::Int(self.next_index);
        let ghost vv = value@;
        let mut taken = ArrayValue::new();
        std::mem::swap(&mut taken, self);
        let ArrayValue { mut keys, mut values, next_index } = taken;
        keys.push(key.copy());
        values.push(value);
        let next = next_index + 1;
        proof {
            lemma_entries_view(keys@, values@);
            assert(entries_view(keys@, values@) =~= before.entries.push((key@, vv)));
            assert(ArrayV { entries: entries_view(keys@, values@), next_index: next } == array_push(before, vv));
        }
        *self = ArrayValue { keys, values, next_index: next };
        key
    }

    /// Stores `value` under `key`, replacing the value of an existing entry in place.
    pub fn insert(&mut self, key: ArrayKey, value: Value)
        requires
            insert_fits(old(self)@, key@),
        ensures
            final(self)@ == array_insert(old(self)@, key@, value@),
            array_wf(final(self)@),
    {
        proof {
            use_type_invariant(&*self);
            lemma_entries_view(self.keys@, self.values@);
            crate::array_laws::law_insert_keeps_wf(self@, key@, value@);
        }
        let ghost before = self@;
        let ghost kv = key@;
        let ghost vv = value@;
        let pos = self.position(&key);
        let mut next = self.next_index;
        if let ArrayKey::Int(index) = key {
            if index >= next {
                next = index + 1;
            }
        }
        let mut taken = ArrayValue::new();
        std::mem::swap(&mut taken, self);
        let ArrayValue { mut keys, mut values, next_index: _ } = taken;
        let ghost ks0 = keys@;
        let ghost vs0 = values@;
        match pos {
            Some(i) => {
                keys.set(i, key);
                values.set(i, value);
            },
            None => {
                keys.push(key);
                values.push(value);
            },
        }
        proof {
            lemma_entries_view(ks0, vs0);
            lemma_entries_view(keys@, values@);
            assert(entries_view(keys@, values@) =~= array_insert(before, kv, vv).entries);
            assert(ArrayV { entries: entries_view(keys@, values@), next_index: next } == array_insert(before, kv, vv));
        }
        *self = ArrayValue { keys, values, next_index: next };
    }

    /// Replaces the value of the entry at position `i`, returning the value it held.
    pub fn replace_at(&mut self, i: usize, value: Value) -> (r: Value)
        requires
            i < old(self)@.entries.len(),
        ensures
            r@ == old(self)@.entries[i as int].1,
            final(self)@ == (ArrayV {
                entries: old(self)@.entries.update(i as int, (old(self)@.entries[i as int].0, value@)),
                next_index: old(self)@.next_index,
            }),
            array_wf(final(self)@),
    {
        proof {
            use_type_invariant(&*self);
            lemma_entries_view(self.keys@, self.values@);
        }
        let ghost keys = self.keys@;
        let ghost before = self.values@;
        let ghost wv = self@;
        let ghost vv = value@;
        let mut taken = ArrayValue::new();
        std::mem::swap(&mut taken, self);
        let ArrayValue { keys: ks, mut values, next_index } = taken;
        let previous = values.remove(i);
        values.insert(i, value);
        proof {
            assert(values@ =~= before.update(i as int, value));
            lemma_entries_update(keys, before, i as int, value);
            lemma_wf_update_value(wv, i as int, vv);
        }
        *self = ArrayValue { keys: ks, values, next_index };
        previous
    }
}

impl From<i64> for Value {
    fn from(v: i64) -> (r: Value) {
        Value::Integer(v)
    }
}

impl vstd::std_specs::convert::FromSpecImpl<i64> for Value {
    open spec fn obeys_from_spec() -> bool {
        true
    }

    open spec fn from_spec(v: i64) -> Value {
        Value::Integer(v)
    }
}

impl From<bool> for Value {
    fn from(v: bool) -> (r: Value) {
        Value::Bool(v)
    }
}

impl vstd::std_specs::convert::FromSpecImpl<bool> for Value {
    open spec fn obeys_from_spec() -> bool {
        true
    }

    open spec fn from_spec(v: bool) -> Value {
        Value::Bool(v)
    }
}

impl From<String> for Value {
    fn from(v: String) -> (r: Value) {
        Value::Str(v)
    }
}

impl vstd::std_specs::convert::FromSpecImpl<String> for Value {
    open spec fn obeys_from_spec() -> bool {
        true
    }

    open spec fn from_spec(v: String) -> Value {
        Value::Str(v)
    }
}

impl From<ArrayValue> for Value {
    fn from(v: ArrayValue) -> (r: Value) {
        Value::Array(v)
    }
}

impl vstd::std_specs::convert::FromSpecImpl<ArrayValue> for Value {
    open spec fn obeys_from_spec() -> bool {
        true
    }

    open spec fn from_spec(v: ArrayValue) -> Value {
        Value::Array(v)
    }
}

impl From<&str> for Value {
    fn from(v: &str) -> (r: Value) {
        Value::from_text(v)
    }
}

/// A string value built from a string slice. Its contract is not stated through this trait:
/// a `String` is not built in specifications, and the result's view is the slice's, as
/// [`Value::from_text`] states.
impl vstd::std_specs::convert::FromSpecImpl<&str> for Value {
    open spec fn obeys_from_spec() -> bool {
        false
    }

    open spec fn from_spec(v: &str) -> Value {
        vstd::pervasive::arbitrary()
    }
}

impl Value {
    /// The string value holding `text`.
    pub fn from_text(text: &str) -> (r: Value)
        ensures
            r@ == ValueV::Str(text@),
    {
        Value::Str(owned(text))
    }
}

} // verus!
