//! A fluent way to fill a container.
use vstd::prelude::*;

use crate::parameters::{ParameterKey, Parameters};
use crate::value::{ParameterValue, ValueModel};

verus! {

/// Fills a `Parameters` one entry at a time.
#[derive(Debug)]
pub struct ParametersBuilder {
    params: Parameters,
}

impl View for ParametersBuilder {
    type V = Map<Seq<char>, ValueModel>;

    closed spec fn view(&self) -> Map<Seq<char>, ValueModel> {
        self.params@
    }
}

impl ParametersBuilder {
    pub closed spec fn wf(&self) -> bool {
        self.params.wf()
    }

    /// A builder with no entries.
    pub fn new() -> (r: ParametersBuilder)
        ensures
            r.wf(),
            r@ == Map::<Seq<char>, ValueModel>::empty(),
    {
        ParametersBuilder { params: Parameters::new() }
    }

    /// Puts `value` under `key`, replacing what was there.
    pub fn add<K: ParameterKey, V: ParameterValue>(self, key: K, value: V) -> (r: ParametersBuilder)
        requires
            self.wf(),
        ensures
            r.wf(),
            r@ == self@.insert(key.key_view(), value.model()),
    {
        let mut params = self.params;
        params.insert(key, value);
        ParametersBuilder { params }
    }

    /// Brings in every entry of `other`; on a shared key, `other`'s value wins.
    pub fn merge(self, other: Parameters) -> (r: ParametersBuilder)
        requires
            self.wf(),
            other.wf(),
        ensures
            r.wf(),
            r@ == self@.union_prefer_right(other@),
    {
        let mut params = self.params;
        params.merge(other);
        ParametersBuilder { params }
    }

    /// The container built so far.
    pub fn build(self) -> (r: Parameters)
        requires
            self.wf(),
        ensures
            r.wf(),
            r@ == self@,
    {
        self.params
    }
}

impl Default for ParametersBuilder {
    fn default() -> (r: ParametersBuilder)
        ensures
            r.wf(),
            r@ == Map::<Seq<char>, ValueModel>::empty(),
    {
        ParametersBuilder::new()
    }
}

} // verus!
