//! Template value types.
use std::sync::Arc;

use vstd::prelude::*;

use vstd::std_specs::convert::FromSpecImpl;

use crate::numeric::{decimal, decimal_text};
use crate::text::{chars_of, same_chars, string_of};

verus! {

// ---------------------------------------------------------------------------
// String-keyed map of values (hashbrown)
// ---------------------------------------------------------------------------
/// A string-keyed map of values, held in a `hashbrown::HashMap`.
#[verifier::external_body]
#[derive(Debug, PartialEq, Eq)]
pub struct ValueMap {
    inner: hashbrown::HashMap<String, Value>,
}

/// The entries of a [`ValueMap`].
pub uninterp spec fn value_map_contents(m: ValueMap) -> Map<Seq<char>, Value>;

impl View for ValueMap {
    type V = Map<Seq<char>, Value>;

    open spec fn view(&self) -> Map<Seq<char>, Value> {
        value_map_contents(*self)
    }
}

/// Every key occurs once in `entries`, and the entries are exactly those of `m`.
pub open spec fn lists_entries(m: Map<Seq<char>, Value>, entries: Seq<(&String, &Value)>) -> bool {
    &&& m.dom().finite()
    &&& entries.len() == m.len()
    &&& forall|i: int|
        0 <= i < entries.len() ==> m.contains_key(#[trigger] entries[i].0@) && m[entries[i].0@]
            == *entries[i].1
    &&& forall|i: int, j: int|
        0 <= i < j < entries.len() ==> #[trigger] entries[i].0@ != #[trigger] entries[j].0@
    &&& forall|k: Seq<char>|
        m.contains_key(k) ==> exists|i: int| 0 <= i < entries.len() && #[trigger] entries[i].0@ == k
}

/// The map without entries.
pub open spec fn no_entries() -> Map<Seq<char>, Value> {
    Map::empty()
}

impl ValueMap {
    /// An empty map (`hashbrown::HashMap::new`).
    #[verifier::external_body]
    pub fn new() -> (r: ValueMap)
        ensures
            r@ == no_entries(),
    {
        ValueMap { inner: hashbrown::HashMap::new() }
    }

    /// An empty map with room for `capacity` entries
    /// (`hashbrown::HashMap::with_capacity`).
    #[verifier::external_body]
    pub fn with_capacity(capacity: usize) -> (r: ValueMap)
        ensures
            r@ == no_entries(),
    {
        ValueMap { inner: hashbrown::HashMap::with_capacity(capacity) }
    }

    /// Inserts or replaces the entry for `k` (`hashbrown::HashMap::insert`).
    #[verifier::external_body]
    pub fn insert(&mut self, k: String, v: Value)
        ensures
            value_map_contents(*final(self)) == value_map_contents(*old(self)).insert(k@, v),
    {
        self.inner.insert(k, v);
    }

    /// The value stored under `k` (`hashbrown::HashMap::get`).
    #[verifier::external_body]
    pub fn get(&self, k: &str) -> (r: Option<&Value>)
        ensures
            match r {
                Some(v) => value_map_contents(*self).contains_key(k@) && *v == value_map_contents(
                    *self,
                )[k@],
                None => !value_map_contents(*self).contains_key(k@),
            },
    {
        self.inner.get(k)
    }

    /// The number of entries (`hashbrown::HashMap::len`).
    #[verifier::external_body]
    pub fn len(&self) -> (r: usize)
        ensures
            r == value_map_contents(*self).len(),
    {
        self.inner.len()
    }

    /// The entries, in no particular order (`hashbrown::HashMap::iter`).
    #[verifier::external_body]
    pub fn entries(&self) -> (r: Vec<(&String, &Value)>)
        ensures
            lists_entries(value_map_contents(*self), r@),
    {
        self.inner.iter().collect()
    }

    /// A copy of the map (`hashbrown::HashMap::clone`).
    #[verifier::external_body]
    pub(crate) fn duplicate(&self) -> (r: ValueMap)
        ensures
            value_map_contents(r) == value_map_contents(*self),
    {
        ValueMap { inner: self.inner.clone() }
    }

    /// Whether an entry for `k` exists.
    pub fn contains_key(&self, k: &str) -> (r: bool)
        ensures
            r == self@.contains_key(k@),
    {
        self.get(k).is_some()
    }

    /// Whether the map is empty.
    pub fn is_empty(&self) -> (r: bool)
        ensures
            r == (self@.len() == 0),
    {
        self.len() == 0
    }
}

/// `Arc::clone`: a second pointer to the same allocation.
#[verifier::external_body]
pub(crate) fn arc_share<T>(a: &Arc<T>) -> (r: Arc<T>)
    ensures
        r == *a,
{
    Arc::clone(a)
}

/// `Arc::try_unwrap`: the value if this is the only pointer, else the pointer back.
#[verifier::external_body]
pub(crate) fn arc_take<T>(a: Arc<T>) -> (r: Result<T, Arc<T>>)
    ensures
        match r {
            Ok(t) => t == a,
            Err(b) => b == a,
        },
{
    Arc::try_unwrap(a)
}

// ---------------------------------------------------------------------------
// Value
// ---------------------------------------------------------------------------
/// A value that can be inserted into a template.
#[derive(Debug, Clone, PartialEq, Eq)]
pub enum Value {
    /// A plain string.
    Str(String),
    /// A boolean.
    Bool(bool),
    /// A 64-bit integer.
    Int(i64),
    /// A 64-bit float, held as its IEEE-754 binary64 bit pattern
    /// (`f64::to_bits`); two floats are equal when their bits are.
    Float(u64),
    /// A float written as decimal text in template source. Turning the text
    /// into binary64 is floating-point work that the caller performs (with
    /// `f64::from_str`); the text always has the syntax that `f64::from_str`
    /// accepts.
    FloatText(String),
    /// An ordered list of values.
    List(Arc<Vec<Value>>),
    /// A string-keyed map of values.
    Struct(Arc<ValueMap>),
    /// An absent/null value — transparent representation of `Option::None`.
    Null,
}

/// The content of a [`Value`], with strings as character sequences.
pub enum ValueV {
    Str(Seq<char>),
    Bool(bool),
    Int(int),
    Float(u64),
    FloatText(Seq<char>),
    List(Seq<ValueV>),
    Struct(Map<Seq<char>, Value>),
    Null,
}

pub open spec fn value_view(v: Value) -> ValueV
    decreases v,
{
    match v {
        Value::Str(s) => ValueV::Str(s@),
        Value::Bool(b) => ValueV::Bool(b),
        Value::Int(i) => ValueV::Int(i as int),
        Value::Float(b) => ValueV::Float(b),
        Value::FloatText(s) => ValueV::FloatText(s@),
        Value::List(l) => ValueV::List(values_view(l@)),
        Value::Struct(m) => ValueV::Struct(m@),
        Value::Null => ValueV::Null,
    }
}

pub open spec fn values_view(vs: Seq<Value>) -> Seq<ValueV>
    decreases vs,
{
    if vs.len() == 0 {
        Seq::empty()
    } else {
        values_view(vs.drop_last()).push(value_view(vs.last()))
    }
}

impl View for Value {
    type V = ValueV;

    open spec fn view(&self) -> ValueV {
        value_view(*self)
    }
}

/// The type name of a value's content.
pub open spec fn type_label_of_view(v: ValueV) -> Seq<char> {
    match v {
        ValueV::Str(_) => "str"@,
        ValueV::Bool(_) => "bool"@,
        ValueV::Int(_) => "int"@,
        ValueV::Float(_) => "float"@,
        ValueV::FloatText(_) => "float"@,
        ValueV::List(_) => "list"@,
        ValueV::Struct(_) => "struct"@,
        ValueV::Null => "none"@,
    }
}

/// The internal key that tags enum variants stored as structs: `__kind__`.
pub open spec fn enum_tag_key() -> Seq<char> {
    seq!['_', '_', 'k', 'i', 'n', 'd', '_', '_']
}

/// The internal key under which an enum namespace lists its variants: `__variants__`.
pub open spec fn enum_variants_key() -> Seq<char> {
    seq!['_', '_', 'v', 'a', 'r', 'i', 'a', 'n', 't', 's', '_', '_']
}

/// `__kind__` as a `String`.
pub fn enum_tag_key_string() -> (r: String)
    ensures
        r@ == enum_tag_key(),
{
    let v = vec!['_', '_', 'k', 'i', 'n', 'd', '_', '_'];
    assert(v@ =~= enum_tag_key());
    string_of(v.as_slice())
}

/// `__variants__` as a `String`.
pub fn enum_variants_key_string() -> (r: String)
    ensures
        r@ == enum_variants_key(),
{
    let v = vec!['_', '_', 'v', 'a', 'r', 'i', 'a', 'n', 't', 's', '_', '_'];
    assert(v@ =~= enum_variants_key());
    string_of(v.as_slice())
}

/// The type name of a value, as templates and error messages show it.
pub open spec fn type_label_of(v: Value) -> Seq<char> {
    match v {
        Value::Str(_) => "str"@,
        Value::Bool(_) => "bool"@,
        Value::Int(_) => "int"@,
        Value::Float(_) => "float"@,
        Value::FloatText(_) => "float"@,
        Value::List(_) => "list"@,
        Value::Struct(_) => "struct"@,
        Value::Null => "none"@,
    }
}

/// A binary64 bit pattern stands for a non-zero number (NaN counts as
/// non-zero; `+0.0` and `-0.0` are zero).
pub open spec fn float_bits_nonzero(bits: u64) -> bool {
    bits % 0x8000_0000_0000_0000 != 0
}

/// Whether a value counts as true in a condition.
pub open spec fn truthy(v: Value) -> bool {
    match v {
        Value::Str(s) => s@.len() != 0,
        Value::Bool(b) => b,
        Value::Int(i) => i != 0,
        Value::Float(bits) => float_bits_nonzero(bits),
        Value::FloatText(_) => true,
        Value::List(l) => l@.len() != 0,
        Value::Struct(m) => m@.len() != 0,
        Value::Null => false,
    }
}

/// The entries that a list of key/value pairs gives a struct: later pairs
/// replace earlier ones with the same key.
pub open spec fn map_of_pairs(pairs: Seq<(String, Value)>) -> Map<Seq<char>, Value>
    decreases pairs.len(),
{
    if pairs.len() == 0 {
        Map::empty()
    } else {
        map_of_pairs(pairs.drop_last()).insert(pairs.last().0@, pairs.last().1)
    }
}

impl Value {
    /// A copy of the value.
    pub fn duplicate(&self) -> (r: Value)
        ensures
            r == *self,
    {
        match self {
            Value::Str(s) => Value::Str(s.clone()),
            Value::Bool(b) => Value::Bool(*b),
            Value::Int(i) => Value::Int(*i),
            Value::Float(b) => Value::Float(*b),
            Value::FloatText(s) => Value::FloatText(s.clone()),
            Value::List(l) => Value::List(arc_share(l)),
            Value::Struct(m) => Value::Struct(arc_share(m)),
            Value::Null => Value::Null,
        }
    }

    /// Returns `true` if the value is considered "truthy". A float written as
    /// text counts as true here only because decoding it is left to the
    /// caller, so such values are excluded.
    pub fn is_truthy(&self) -> (r: bool)
        requires
            !(self is FloatText),
        ensures
            r == truthy(*self),
    {
        match self {
            Value::Str(s) => !s.as_str().is_empty(),
            Value::Bool(b) => *b,
            Value::Int(i) => *i != 0,
            Value::Float(bits) => {
                let b = *bits;
                assert((b & 0x7fff_ffff_ffff_ffff) == b % 0x8000_0000_0000_0000) by (bit_vector);
                (b & 0x7fff_ffff_ffff_ffff) != 0
            },
            Value::FloatText(_) => true,
            Value::List(l) => l.len() != 0,
            Value::Struct(m) => !m.is_empty(),
            Value::Null => false,
        }
    }

    /// Returns the type name as a static string.
    pub fn type_label(&self) -> (r: &'static str)
        ensures
            r@ == type_label_of(*self),
    {
        match self {
            Value::Str(_) => "str",
            Value::Bool(_) => "bool",
            Value::Int(_) => "int",
            Value::Float(_) => "float",
            Value::FloatText(_) => "float",
            Value::List(_) => "list",
            Value::Struct(_) => "struct",
            Value::Null => "none",
        }
    }

    /// Returns user-visible field names (all struct keys except `__kind__`),
    /// in no particular order; empty for other variants.
    pub fn field_names_hint(&self) -> (r: Vec<String>)
        ensures
            match *self {
                Value::Struct(m) => {
                    &&& forall|i: int|
                        0 <= i < r@.len() ==> m@.contains_key(#[trigger] r@[i]@) && r@[i]@
                            != enum_tag_key()
                    &&& forall|k: Seq<char>|
                        m@.contains_key(k) && k != enum_tag_key() ==> exists|i: int|
                            0 <= i < r@.len() && #[trigger] r@[i]@ == k
                    &&& forall|i: int, j: int|
                        0 <= i < j < r@.len() ==> #[trigger] r@[i]@ != #[trigger] r@[j]@
                },
                _ => r@.len() == 0,
            },
    {
        match self {
            Value::Struct(m) => {
                let entries = m.entries();
                let tag = enum_tag_key_string();
                let mut out: Vec<String> = Vec::new();
                let mut i: usize = 0;
                while i < entries.len()
                    invariant
                        i <= entries@.len(),
                        lists_entries(m@, entries@),
                        tag@ == enum_tag_key(),
                        forall|a: int|
                            0 <= a < out@.len() ==> m@.contains_key(#[trigger] out@[a]@)
                                && out@[a]@ != enum_tag_key(),
                        forall|b: int|
                            0 <= b < i && #[trigger] entries@[b].0@ != enum_tag_key() ==> exists|
                                a: int,
                            | 0 <= a < out@.len() && out@[a]@ == entries@[b].0@,
                        forall|a: int|
                            0 <= a < out@.len() ==> exists|b: int|
                                0 <= b < i && #[trigger] entries@[b].0@ == #[trigger] out@[a]@,
                        forall|a: int, c: int|
                            0 <= a < c < out@.len() ==> #[trigger] out@[a]@ != #[trigger] out@[c]@,
                    decreases entries@.len() - i,
                {
                    let key: &String = entries[i].0;
                    let ghost prev = out@;
                    if !(*key == tag) {
                        assert forall|a: int| 0 <= a < prev.len() implies #[trigger] prev[a]@
                            != key@ by {
                            let b = choose|b: int| 0 <= b < i && #[trigger] entries@[b].0@ == prev[a]@;
                            assert(entries@[b].0@ != entries@[i as int].0@);
                        }
                        out.push(key.clone());
                    }
                    assert forall|b: int|
                        0 <= b < i + 1 && #[trigger] entries@[b].0@ != enum_tag_key() implies exists|
                            a: int,
                        | 0 <= a < out@.len() && out@[a]@ == entries@[b].0@ by {
                        if b < i {
                            let a = choose|a: int| 0 <= a < prev.len() && prev[a]@ == entries@[b].0@;
                            assert(out@[a] == prev[a]);
                        } else {
                            assert(out@[out@.len() - 1]@ == entries@[b].0@);
                        }
                    }
                    assert forall|a: int| 0 <= a < out@.len() implies exists|b: int|
                        0 <= b < i + 1 && #[trigger] entries@[b].0@ == #[trigger] out@[a]@ by {
                        if a < prev.len() {
                            assert(out@[a] == prev[a]);
                        } else {
                            assert(out@[a]@ == entries@[i as int].0@);
                        }
                    }
                    i = i + 1;
                }
                assert forall|k: Seq<char>| m@.contains_key(k) && k != enum_tag_key() implies exists|
                    a: int,
                | 0 <= a < out@.len() && #[trigger] out@[a]@ == k by {
                    let b = choose|b: int| 0 <= b < entries@.len() && #[trigger] entries@[b].0@ == k;
                    assert(entries@[b].0@ != enum_tag_key());
                }
                out
            },
            _ => Vec::new(),
        }
    }

    /// Access a field on a Struct value; the internal `__kind__` key is
    /// hidden.
    pub fn get_field(&self, key: &str) -> (r: Option<&Value>)
        ensures
            match *self {
                Value::Struct(m) => if key@ == enum_tag_key() {
                    r is None
                } else if m@.contains_key(key@) {
                    r matches Some(v) && *v == m@[key@]
                } else {
                    r is None
                },
                _ => r is None,
            },
    {
        match self {
            Value::Struct(m) => {
                let k = chars_of(key);
                let tag = vec!['_', '_', 'k', 'i', 'n', 'd', '_', '_'];
                if same_chars(k.as_slice(), tag.as_slice()) {
                    assert(tag@ =~= enum_tag_key());
                    return None;
                }
                assert(tag@ =~= enum_tag_key());
                m.get(key)
            },
            _ => None,
        }
    }

    /// Access a field without the `__kind__` guard (callers pass only
    /// keys that compiled templates produce, which never are `__kind__`).
    pub fn get_field_unchecked(&self, key: &str) -> (r: Option<&Value>)
        ensures
            match *self {
                Value::Struct(m) => if m@.contains_key(key@) {
                    r matches Some(v) && *v == m@[key@]
                } else {
                    r is None
                },
                _ => r is None,
            },
    {
        match self {
            Value::Struct(m) => m.get(key),
            _ => None,
        }
    }

    /// Returns `true` if this is a `Str` variant.
    pub fn is_str(&self) -> (r: bool)
        ensures
            r == (*self is Str),
    {
        matches!(self, Value::Str(_))
    }

    /// Returns `true` if this is an `Int` variant.
    pub fn is_int(&self) -> (r: bool)
        ensures
            r == (*self is Int),
    {
        matches!(self, Value::Int(_))
    }

    /// Returns `true` if this is a float (bits or text).
    pub fn is_float(&self) -> (r: bool)
        ensures
            r == (*self is Float || *self is FloatText),
    {
        matches!(self, Value::Float(_)) || matches!(self, Value::FloatText(_))
    }

    /// Returns `true` if this is a `Bool` variant.
    pub fn is_bool(&self) -> (r: bool)
        ensures
            r == (*self is Bool),
    {
        matches!(self, Value::Bool(_))
    }

    /// Returns `true` if this is a `List` variant.
    pub fn is_list(&self) -> (r: bool)
        ensures
            r == (*self is List),
    {
        matches!(self, Value::List(_))
    }

    /// Returns `true` if this is a `Struct` variant.
    pub fn is_struct(&self) -> (r: bool)
        ensures
            r == (*self is Struct),
    {
        matches!(self, Value::Struct(_))
    }

    /// Returns the inner `&str` if this is a `Str` variant.
    pub fn as_str(&self) -> (r: Option<&str>)
        ensures
            match *self {
                Value::Str(s) => r matches Some(t) && t@ == s@,
                _ => r is None,
            },
    {
        match self {
            Value::Str(s) => Some(s.as_str()),
            _ => None,
        }
    }

    /// Returns the inner `i64` if this is an `Int` variant.
    pub fn as_int(&self) -> (r: Option<i64>)
        ensures
            match *self {
                Value::Int(i) => r == Some(i),
                _ => r is None,
            },
    {
        match self {
            Value::Int(i) => Some(*i),
            _ => None,
        }
    }

    /// Returns the binary64 bits if this is a `Float` variant.
    pub fn as_float(&self) -> (r: Option<u64>)
        ensures
            match *self {
                Value::Float(b) => r == Some(b),
                _ => r is None,
            },
    {
        match self {
            Value::Float(b) => Some(*b),
            _ => None,
        }
    }

    /// Returns the inner `bool` if this is a `Bool` variant.
    pub fn as_bool(&self) -> (r: Option<bool>)
        ensures
            match *self {
                Value::Bool(b) => r == Some(b),
                _ => r is None,
            },
    {
        match self {
            Value::Bool(b) => Some(*b),
            _ => None,
        }
    }

    /// Returns a slice of the inner list if this is a `List` variant.
    pub fn as_list(&self) -> (r: Option<&[Value]>)
        ensures
            match *self {
                Value::List(l) => r matches Some(s) && s@ == l@,
                _ => r is None,
            },
    {
        match self {
            Value::List(l) => Some(l.as_slice()),
            _ => None,
        }
    }

    /// Returns a reference to the inner map if this is a `Struct` variant.
    pub fn as_struct(&self) -> (r: Option<&ValueMap>)
        ensures
            match *self {
                Value::Struct(m) => r matches Some(s) && *s == *m,
                _ => r is None,
            },
    {
        match self {
            Value::Struct(m) => Some(&**m),
            _ => None,
        }
    }

    /// Create a `Struct` from key/value pairs; a later pair replaces an
    /// earlier one with the same key.
    pub fn new_struct(pairs: Vec<(String, Value)>) -> (r: Value)
        ensures
            r matches Value::Struct(m) && m@ == map_of_pairs(pairs@),
    {
        let mut m = ValueMap::new();
        let ghost all = pairs@;
        for pair in it: pairs
            invariant
                it.seq() == all,
                m@ == map_of_pairs(all.take(it.index() as int)),
        {
            let ghost k = it.index() as int;
            assert(all.take(k + 1).drop_last() =~= all.take(k));
            let (key, val) = pair;
            m.insert(key, val);
        }
        assert(all.take(all.len() as int) =~= all);
        Value::Struct(Arc::new(m))
    }

    /// Create a `List` from values.
    pub fn list(items: Vec<Value>) -> (r: Value)
        ensures
            r matches Value::List(l) && l@ == items@,
    {
        Value::List(Arc::new(items))
    }
}

// ---------------------------------------------------------------------------
// Conversions
// ---------------------------------------------------------------------------
/// Error returned when a [`Value`] is the wrong variant for a conversion.
#[derive(Debug, Clone, PartialEq, Eq)]
pub struct ValueTypeError {
    /// The expected type name.
    pub expected: &'static str,
    /// The actual type name of the value.
    pub actual: &'static str,
}

impl ValueTypeError {
    /// `expected <expected>, got <actual>`.
    pub fn message(&self) -> (r: String)
        ensures
            r@ == "expected "@ + self.expected@ + ", got "@ + self.actual@,
    {
        let mut r = String::from_str("expected ");
        r.append(self.expected);
        r.append(", got ");
        r.append(self.actual);
        r
    }
}

impl Value {
    /// The string, if this is a `Str`.
    pub fn into_string(self) -> (r: Result<String, ValueTypeError>)
        ensures
            match self {
                Value::Str(s) => r == Ok::<String, ValueTypeError>(s),
                _ => r matches Err(e) && e.expected@ == "str"@ && e.actual@ == type_label_of(self),
            },
    {
        match self {
            Value::Str(s) => Ok(s),
            other => Err(ValueTypeError { expected: "str", actual: other.type_label() }),
        }
    }

    /// The integer, if this is an `Int`.
    pub fn into_int(self) -> (r: Result<i64, ValueTypeError>)
        ensures
            match self {
                Value::Int(i) => r == Ok::<i64, ValueTypeError>(i),
                _ => r matches Err(e) && e.expected@ == "int"@ && e.actual@ == type_label_of(self),
            },
    {
        match self {
            Value::Int(i) => Ok(i),
            other => Err(ValueTypeError { expected: "int", actual: other.type_label() }),
        }
    }

    /// The binary64 bits, if this is a `Float`.
    pub fn into_float_bits(self) -> (r: Result<u64, ValueTypeError>)
        ensures
            match self {
                Value::Float(b) => r == Ok::<u64, ValueTypeError>(b),
                _ => r matches Err(e) && e.expected@ == "float"@ && e.actual@ == type_label_of(
                    self,
                ),
            },
    {
        match self {
            Value::Float(b) => Ok(b),
            other => Err(ValueTypeError { expected: "float", actual: other.type_label() }),
        }
    }

    /// The boolean, if this is a `Bool`.
    pub fn into_bool(self) -> (r: Result<bool, ValueTypeError>)
        ensures
            match self {
                Value::Bool(b) => r == Ok::<bool, ValueTypeError>(b),
                _ => r matches Err(e) && e.expected@ == "bool"@ && e.actual@ == type_label_of(self),
            },
    {
        match self {
            Value::Bool(b) => Ok(b),
            other => Err(ValueTypeError { expected: "bool", actual: other.type_label() }),
        }
    }

    /// The items, if this is a `List` (copied when the list is shared).
    pub fn into_list(self) -> (r: Result<Vec<Value>, ValueTypeError>)
        ensures
            match self {
                Value::List(l) => r matches Ok(v) && v@ == l@,
                _ => r matches Err(e) && e.expected@ == "list"@ && e.actual@ == type_label_of(self),
            },
    {
        match self {
            Value::List(l) => match arc_take(l) {
                Ok(v) => Ok(v),
                Err(shared) => Ok(clone_values(shared.as_slice())),
            },
            other => Err(ValueTypeError { expected: "list", actual: other.type_label() }),
        }
    }

    /// The map, if this is a `Struct` (copied when the map is shared).
    pub fn into_map(self) -> (r: Result<ValueMap, ValueTypeError>)
        ensures
            match self {
                Value::Struct(m) => r matches Ok(v) && v@ == m@,
                _ => r matches Err(e) && e.expected@ == "struct"@ && e.actual@ == type_label_of(
                    self,
                ),
            },
    {
        match self {
            Value::Struct(m) => match arc_take(m) {
                Ok(v) => Ok(v),
                Err(shared) => Ok(shared.duplicate()),
            },
            other => Err(ValueTypeError { expected: "struct", actual: other.type_label() }),
        }
    }
}

/// Copies a slice of values.
pub fn clone_values(s: &[Value]) -> (r: Vec<Value>)
    ensures
        r@ == s@,
{
    let mut r: Vec<Value> = Vec::new();
    let mut i: usize = 0;
    while i < s.len()
        invariant
            i <= s@.len(),
            r@ == s@.take(i as int),
        decreases s@.len() - i,
    {
        r.push(s[i].duplicate());
        assert(s@.take(i + 1) =~= s@.take(i as int).push(s@[i as int]));
        i = i + 1;
    }
    assert(s@.take(s@.len() as int) =~= s@);
    r
}

// ---------------------------------------------------------------------------
// Display
// ---------------------------------------------------------------------------
/// The text a value shows when rendered; `None` for floats, whose decimal
/// rendering is floating-point work left to the caller.
pub open spec fn display_text(v: Value) -> Option<Seq<char>> {
    match v {
        Value::Str(s) => Some(s@),
        Value::Bool(b) => Some(
            if b {
                "true"@
            } else {
                "false"@
            },
        ),
        Value::Int(i) => Some(decimal(i as int)),
        Value::Float(_) => None,
        Value::FloatText(_) => None,
        Value::List(l) => Some("[<list of "@ + decimal(l@.len() as int) + ">]"@),
        Value::Struct(m) => Some("{<struct of "@ + decimal(m@.len() as int) + ">}"@),
        Value::Null => Some(Seq::empty()),
    }
}

impl Value {
    /// The text the value shows when rendered (integers through `itoa`);
    /// `None` for floats.
    pub fn display_string(&self) -> (r: Option<String>)
        ensures
            match r {
                Some(t) => display_text(*self) == Some(t@),
                None => display_text(*self) is None,
            },
    {
        match self {
            Value::Str(s) => Some(s.clone()),
            Value::Bool(b) => Some(
                if *b {
                    String::from_str("true")
                } else {
                    String::from_str("false")
                },
            ),
            Value::Int(i) => Some(decimal_text(*i as i128)),
            Value::Float(_) => None,
            Value::FloatText(_) => None,
            Value::List(l) => {
                let mut t = String::from_str("[<list of ");
                t.append(decimal_text(l.len() as i128).as_str());
                t.append(">]");
                Some(t)
            },
            Value::Struct(m) => {
                let mut t = String::from_str("{<struct of ");
                t.append(decimal_text(m.len() as i128).as_str());
                t.append(">}");
                Some(t)
            },
            Value::Null => Some(String::new()),
        }
    }

    /// An integer value from a `u64`, if it fits in `i64`.
    pub fn try_from_u64(i: u64) -> (r: Option<Value>)
        ensures
            match r {
                Some(v) => i <= i64::MAX && v == Value::Int(i as i64),
                None => i > i64::MAX,
            },
    {
        if i <= 0x7fff_ffff_ffff_ffff {
            Some(Value::Int(i as i64))
        } else {
            None
        }
    }

    /// An integer value from a `usize`, if it fits in `i64`.
    pub fn try_from_usize(i: usize) -> (r: Option<Value>)
        ensures
            match r {
                Some(v) => i <= i64::MAX && v == Value::Int(i as i64),
                None => i > i64::MAX,
            },
    {
        Value::try_from_u64(i as u64)
    }
}

// ---------------------------------------------------------------------------
// Conversions into values
// ---------------------------------------------------------------------------
impl From<String> for Value {
    fn from(s: String) -> (r: Value) {
        Value::Str(s)
    }
}

impl FromSpecImpl<String> for Value {
    open spec fn obeys_from_spec() -> bool {
        true
    }

    open spec fn from_spec(s: String) -> Value {
        Value::Str(s)
    }
}

impl From<bool> for Value {
    fn from(b: bool) -> (r: Value) {
        Value::Bool(b)
    }
}

impl FromSpecImpl<bool> for Value {
    open spec fn obeys_from_spec() -> bool {
        true
    }

    open spec fn from_spec(b: bool) -> Value {
        Value::Bool(b)
    }
}

impl From<i64> for Value {
    fn from(i: i64) -> (r: Value) {
        Value::Int(i)
    }
}

impl FromSpecImpl<i64> for Value {
    open spec fn obeys_from_spec() -> bool {
        true
    }

    open spec fn from_spec(i: i64) -> Value {
        Value::Int(i)
    }
}

impl From<i32> for Value {
    fn from(i: i32) -> (r: Value) {
        Value::Int(i as i64)
    }
}

impl FromSpecImpl<i32> for Value {
    open spec fn obeys_from_spec() -> bool {
        true
    }

    open spec fn from_spec(i: i32) -> Value {
        Value::Int(i as i64)
    }
}

impl From<u32> for Value {
    fn from(i: u32) -> (r: Value) {
        Value::Int(i as i64)
    }
}

impl FromSpecImpl<u32> for Value {
    open spec fn obeys_from_spec() -> bool {
        true
    }

    open spec fn from_spec(i: u32) -> Value {
        Value::Int(i as i64)
    }
}

impl From<Vec<Value>> for Value {
    fn from(v: Vec<Value>) -> (r: Value) {
        Value::List(Arc::new(v))
    }
}

impl FromSpecImpl<Vec<Value>> for Value {
    open spec fn obeys_from_spec() -> bool {
        true
    }

    open spec fn from_spec(v: Vec<Value>) -> Value {
        Value::List(Arc::new(v))
    }
}

impl From<ValueMap> for Value {
    fn from(m: ValueMap) -> (r: Value) {
        Value::Struct(Arc::new(m))
    }
}

impl FromSpecImpl<ValueMap> for Value {
    open spec fn obeys_from_spec() -> bool {
        true
    }

    open spec fn from_spec(m: ValueMap) -> Value {
        Value::Struct(Arc::new(m))
    }
}

} // verus!
