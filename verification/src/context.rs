//! The rendering context: the variables available to a template.
use std::sync::Arc;

use vstd::prelude::*;

use crate::error::{Fault, TemplateError};
use crate::value::{arc_take, enum_tag_key, map_of_pairs, no_entries, type_label_of, Value, ValueMap};

verus! {

/// Template rendering context: the variables available during rendering.
#[derive(Debug)]
pub struct Context {
    values: ValueMap,
}

impl View for Context {
    type V = Map<Seq<char>, Value>;

    closed spec fn view(&self) -> Map<Seq<char>, Value> {
        self.values@
    }
}

/// `key` may be set: it is not the reserved enum tag key `__kind__`.
pub open spec fn settable(key: Seq<char>) -> bool {
    key != enum_tag_key()
}

/// The variables that key/value pairs give, the later pair winning.
pub open spec fn context_of_pairs(pairs: Seq<(String, Value)>) -> Map<Seq<char>, Value> {
    map_of_pairs(pairs)
}

/// The message for a context built from a value that is not a struct.
pub open spec fn not_a_struct_message(v: Value) -> Seq<char> {
    "expected struct/map, got "@ + type_label_of(v)
}

impl Context {
    /// An empty context.
    pub fn new() -> (r: Context)
        ensures
            r@ == no_entries(),
    {
        Context { values: ValueMap::new() }
    }

    /// An empty context with room for `capacity` variables.
    pub fn with_capacity(capacity: usize) -> (r: Context)
        ensures
            r@ == no_entries(),
    {
        Context { values: ValueMap::with_capacity(capacity) }
    }

    /// The number of variables.
    pub fn len(&self) -> (r: usize)
        ensures
            r == self@.len(),
    {
        self.values.len()
    }

    /// Whether the context holds no variables.
    pub fn is_empty(&self) -> (r: bool)
        ensures
            r == (self@.len() == 0),
    {
        self.values.is_empty()
    }

    /// Whether a variable named `key` exists.
    pub fn contains_key(&self, key: &str) -> (r: bool)
        ensures
            r == self@.contains_key(key@),
    {
        self.values.contains_key(key)
    }

    /// Sets the variable `key` (replacing an earlier value). The reserved
    /// enum tag key `__kind__` cannot be set.
    pub fn set(&mut self, key: String, value: Value)
        requires
            settable(key@),
        ensures
            final(self)@ == old(self)@.insert(key@, value),
    {
        self.values.insert(key, value);
    }

    /// Builder-style [`set`](Context::set).
    pub fn var(self, key: String, value: Value) -> (r: Context)
        requires
            settable(key@),
        ensures
            r@ == self@.insert(key@, value),
    {
        let mut c = self;
        c.set(key, value);
        c
    }

    /// The variable named `key`.
    pub fn get(&self, key: &str) -> (r: Option<&Value>)
        ensures
            match r {
                Some(v) => self@.contains_key(key@) && *v == self@[key@],
                None => !self@.contains_key(key@),
            },
    {
        self.values.get(key)
    }

    /// The map of variables.
    pub fn into_inner(self) -> (r: ValueMap)
        ensures
            r@ == self@,
    {
        self.values
    }

    /// A context from key/value pairs, a later pair replacing an earlier
    /// one with the same key; no key may be `__kind__`.
    pub fn from_pairs(pairs: Vec<(String, Value)>) -> (r: Context)
        requires
            forall|i: int| 0 <= i < pairs@.len() ==> settable(#[trigger] pairs@[i].0@),
        ensures
            r@ == context_of_pairs(pairs@),
    {
        let mut ctx = Context::with_capacity(pairs.len());
        let ghost all = pairs@;
        for pair in it: pairs
            invariant
                it.seq() == all,
                forall|i: int| 0 <= i < all.len() ==> settable(#[trigger] all[i].0@),
                ctx@ == map_of_pairs(all.take(it.index() as int)),
        {
            let ghost k = it.index() as int;
            assert(all.take(k + 1).drop_last() =~= all.take(k));
            assert(all[k] == pair);
            let (key, val) = pair;
            ctx.set(key, val);
        }
        assert(all.take(all.len() as int) =~= all);
        ctx
    }

    /// A context whose variables are the entries of a struct value; any
    /// other value is an error.
    pub fn from_value(val: Value) -> (r: Result<Context, TemplateError>)
        ensures
            match val {
                Value::Struct(m) => r matches Ok(c) && c@ == m@,
                _ => r matches Err(e) && e@ == Fault::Syntax(not_a_struct_message(val)),
            },
    {
        match val {
            Value::Struct(arc_map) => {
                let values = match arc_take(arc_map) {
                    Ok(m) => m,
                    Err(shared) => shared.duplicate(),
                };
                Ok(Context { values })
            },
            other => {
                let mut msg = String::from_str("expected struct/map, got ");
                msg.append(other.type_label());
                Err(TemplateError::Syntax(msg))
            },
        }
    }
}

impl Default for Context {
    /// An empty context.
    fn default() -> (r: Context)
        ensures
            r@ == no_entries(),
    {
        Context::new()
    }
}

} // verus!
