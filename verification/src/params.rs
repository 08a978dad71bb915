//! The parameter map: names bound to dynamic values.

use vstd::prelude::*;
use vstd::hash_map::StringHashMap;

verus! {

/// A mapping from parameter names to the values supplied for them.
pub struct ParameterMap {
    bindings: StringHashMap<serde_json::Value>,
}

impl View for ParameterMap {
    type V = Map<Seq<char>, serde_json::Value>;

    closed spec fn view(&self) -> Self::V {
        self.bindings@
    }
}

impl ParameterMap {
    /// A map that binds no name.
    pub fn new() -> (r: Self)
        ensures
            r@ == Map::<Seq<char>, serde_json::Value>::empty(),
    {
        ParameterMap { bindings: StringHashMap::new() }
    }

    /// Binds `name` to `value`; an earlier binding of the same name is replaced.
    pub fn insert(&mut self, name: String, value: serde_json::Value)
        ensures
            final(self)@ == old(self)@.insert(name@, value),
    {
        self.bindings.insert(name, value);
    }

    /// Whether `name` is bound.
    pub fn contains(&self, name: &str) -> (r: bool)
        ensures
            r == self@.contains_key(name@),
    {
        self.bindings.contains_key(name)
    }

    /// The value that `name` is bound to, if any.
    pub fn get(&self, name: &str) -> (r: Option<&serde_json::Value>)
        ensures
            match r {
                Some(v) => self@.contains_key(name@) && *v == self@[name@],
                None => !self@.contains_key(name@),
            },
    {
        self.bindings.get(name)
    }
}

} // verus!
