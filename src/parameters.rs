//! The container: string keys, kept in ascending order, each with one value.
use vstd::prelude::*;
use vstd::string::*;

use crate::error::ParameterError;
use crate::json::{json_of, JsonValue};
use crate::keys::{
    compare_keys, key_lt, lemma_key_lt_irreflexive, lemma_key_lt_total, lemma_key_lt_transitive,
};
use crate::value::{render, FromText, ParameterValue, Value, ValueModel};

verus! {

/// A key: anything that turns into a `String` with the same characters.
pub trait ParameterKey: Sized {
    spec fn key_view(&self) -> Seq<char>;

    fn into_key(self) -> (r: String)
        ensures
            r@ == self.key_view(),
    ;
}

impl ParameterKey for String {
    open spec fn key_view(&self) -> Seq<char> {
        self@
    }

    fn into_key(self) -> (r: String) {
        self
    }
}

impl ParameterKey for &str {
    open spec fn key_view(&self) -> Seq<char> {
        self@
    }

    fn into_key(self) -> (r: String) {
        String::from_str(self)
    }
}

/// The keys of a run of entries strictly ascend.
pub open spec fn ascending(s: Seq<(String, Value)>) -> bool {
    forall|i: int, j: int| 0 <= i < j < s.len() ==> key_lt(#[trigger] s[i].0@, #[trigger] s[j].0@)
}

pub open spec fn has_key(s: Seq<(String, Value)>, k: Seq<char>) -> bool {
    exists|i: int| 0 <= i < s.len() && #[trigger] s[i].0@ == k
}

pub open spec fn index_of_key(s: Seq<(String, Value)>, k: Seq<char>) -> int {
    choose|i: int| 0 <= i < s.len() && #[trigger] s[i].0@ == k
}

/// The map that a run of entries with distinct keys stands for.
pub open spec fn entries_view(s: Seq<(String, Value)>) -> Map<Seq<char>, ValueModel> {
    Map::new(|k: Seq<char>| has_key(s, k), |k: Seq<char>| s[index_of_key(s, k)].1@)
}

proof fn lemma_view_at(s: Seq<(String, Value)>, i: int)
    requires
        ascending(s),
        0 <= i < s.len(),
    ensures
        entries_view(s).contains_key(s[i].0@),
        entries_view(s)[s[i].0@] == s[i].1@,
{
    let k = s[i].0@;
    assert(has_key(s, k));
    let j = index_of_key(s, k);
    if j < i {
        assert(key_lt(s[j].0@, s[i].0@));
        lemma_key_lt_irreflexive(k);
    } else if j > i {
        assert(key_lt(s[i].0@, s[j].0@));
        lemma_key_lt_irreflexive(k);
    }
}

proof fn lemma_view_keys(s: Seq<(String, Value)>, k: Seq<char>)
    requires
        ascending(s),
        entries_view(s).contains_key(k),
    ensures
        exists|i: int| 0 <= i < s.len() && s[i].0@ == k && entries_view(s)[k] == s[i].1@,
{
    let j = index_of_key(s, k);
    lemma_view_at(s, j);
}

/// A container of values of several types, each under a distinct key,
/// kept in ascending order of keys.
#[derive(Debug)]
pub struct Parameters {
    entries: Vec<(String, Value)>,
}

impl View for Parameters {
    type V = Map<Seq<char>, ValueModel>;

    closed spec fn view(&self) -> Map<Seq<char>, ValueModel> {
        entries_view(self.entries@)
    }
}

impl Parameters {
    /// The container's invariant: its keys strictly ascend.
    pub closed spec fn wf(&self) -> bool {
        ascending(self.entries@)
    }

    /// An empty container.
    pub fn new() -> (r: Parameters)
        ensures
            r.wf(),
            r@ == Map::<Seq<char>, ValueModel>::empty(),
    {
        let r = Parameters { entries: Vec::new() };
        assert(r@ =~= Map::<Seq<char>, ValueModel>::empty());
        r
    }

    /// The place of `key`: every key before it comes first, and it holds
    /// `key` itself when the flag is set.
    fn locate(&self, key: &str) -> (r: (usize, bool))
        requires
            self.wf(),
        ensures
            r.0 <= self.entries@.len(),
            forall|i: int| 0 <= i < r.0 ==> key_lt(#[trigger] self.entries@[i].0@, key@),
            r.0 < self.entries@.len() ==> !key_lt(self.entries@[r.0 as int].0@, key@),
            r.1 == (r.0 < self.entries@.len() && self.entries@[r.0 as int].0@ == key@),
            r.1 == self@.contains_key(key@),
    {
        let mut i: usize = 0;
        while i < self.entries.len()
            invariant
                self.wf(),
                i <= self.entries@.len(),
                forall|j: int| 0 <= j < i ==> key_lt(#[trigger] self.entries@[j].0@, key@),
            decreases self.entries@.len() - i,
        {
            let c = compare_keys(self.entries[i].0.as_str(), key);
            if c >= 0 {
                proof {
                    self.lemma_locate(key@, i as int);
                }
                return (i, c == 0);
            }
            i = i + 1;
        }
        proof {
            self.lemma_locate(key@, i as int);
        }
        (i, false)
    }

    proof fn lemma_locate(&self, k: Seq<char>, p: int)
        requires
            self.wf(),
            0 <= p <= self.entries@.len(),
            forall|i: int| 0 <= i < p ==> key_lt(#[trigger] self.entries@[i].0@, k),
            p < self.entries@.len() ==> !key_lt(self.entries@[p].0@, k),
        ensures
            self@.contains_key(k) == (p < self.entries@.len() && self.entries@[p].0@ == k),
    {
        let s = self.entries@;
        if has_key(s, k) {
            let j = index_of_key(s, k);
            if j < p {
                lemma_key_lt_irreflexive(k);
            } else if j > p {
                assert(key_lt(s[p].0@, s[j].0@));
            }
        }
        if p < s.len() && s[p].0@ == k {
            assert(has_key(s, k));
        }
    }

    /// Puts `value` under `key`, replacing what was there.
    fn insert_value(&mut self, key: String, value: Value)
        requires
            old(self).wf(),
        ensures
            final(self).wf(),
            final(self)@ == old(self)@.insert(key@, value@),
    {
        let (p, found) = self.locate(key.as_str());
        let ghost s = self.entries@;
        let ghost k = key@;
        let ghost v = value@;
        if found {
            self.entries.set(p, (key, value));
            proof {
                let t = self.entries@;
                assert(t == s.update(p as int, (key, value)));
                assert(ascending(t)) by {
                    assert forall|i: int, j: int| 0 <= i < j < t.len() implies key_lt(
                        #[trigger] t[i].0@,
                        #[trigger] t[j].0@,
                    ) by {
                        assert(s[i].0@ == t[i].0@);
                        assert(s[j].0@ == t[j].0@);
                    }
                }
                assert forall|q: Seq<char>| #[trigger] has_key(t, q) == has_key(s, q) by {
                    if has_key(t, q) {
                        let i = index_of_key(t, q);
                        assert(s[i].0@ == q);
                    }
                    if has_key(s, q) {
                        let i = index_of_key(s, q);
                        assert(t[i].0@ == q);
                    }
                }
                assert forall|q: Seq<char>| #[trigger] entries_view(t).contains_key(q) implies
                    entries_view(t)[q] == old(self)@.insert(k, v)[q] by {
                    lemma_view_keys(t, q);
                    let i = choose|i: int| 0 <= i < t.len() && t[i].0@ == q && entries_view(t)[q] == t[i].1@;
                    if i != p {
                        lemma_view_at(s, i);
                    }
                }
                assert(self@ =~= old(self)@.insert(k, v));
            }
        } else {
            self.entries.insert(p, (key, value));
            proof {
                let t = self.entries@;
                assert(t == s.insert(p as int, (key, value)));
                assert(ascending(t)) by {
                    assert forall|i: int, j: int| 0 <= i < j < t.len() implies key_lt(
                        #[trigger] t[i].0@,
                        #[trigger] t[j].0@,
                    ) by {
                        if p < s.len() {
                            lemma_key_lt_total(s[p as int].0@, k);
                            assert(key_lt(k, s[p as int].0@));
                        }
                        if j < p {
                            assert(key_lt(s[i].0@, s[j].0@));
                        } else if i < p && j == p {
                        } else if i < p && j > p {
                            assert(key_lt(s[i].0@, s[j - 1].0@));
                        } else if i == p {
                            if j - 1 > p {
                                assert(key_lt(s[p as int].0@, s[j - 1].0@));
                                lemma_key_lt_transitive(k, s[p as int].0@, s[j - 1].0@);
                            }
                        } else {
                            assert(key_lt(s[i - 1].0@, s[j - 1].0@));
                        }
                    }
                }
                assert forall|q: Seq<char>| #[trigger] has_key(t, q) == (has_key(s, q) || q == k) by {
                    if has_key(t, q) {
                        let i = index_of_key(t, q);
                        if i < p {
                            assert(s[i].0@ == q);
                        } else if i > p {
                            assert(s[i - 1].0@ == q);
                        }
                    }
                    if has_key(s, q) {
                        let i = index_of_key(s, q);
                        if i < p {
                            assert(t[i].0@ == q);
                        } else {
                            assert(t[i + 1].0@ == q);
                        }
                    }
                    if q == k {
                        assert(t[p as int].0@ == q);
                    }
                }
                assert forall|q: Seq<char>| #[trigger] entries_view(t).contains_key(q) implies
                    entries_view(t)[q] == old(self)@.insert(k, v)[q] by {
                    lemma_view_keys(t, q);
                    let i = choose|i: int| 0 <= i < t.len() && t[i].0@ == q && entries_view(t)[q] == t[i].1@;
                    if i < p {
                        lemma_view_at(s, i);
                    } else if i > p {
                        lemma_view_at(s, i - 1);
                    }
                }
                assert(self@ =~= old(self)@.insert(k, v));
            }
        }
    }

    /// Puts `value` under `key`, replacing what was there.
    pub fn insert<K: ParameterKey, V: ParameterValue>(&mut self, key: K, value: V)
        requires
            old(self).wf(),
        ensures
            final(self).wf(),
            final(self)@ == old(self)@.insert(key.key_view(), value.model()),
    {
        let k = key.into_key();
        let v = value.into_value();
        self.insert_value(k, v);
    }

    /// The value under `key`, if there is one and it is of type `T`.
    pub fn get<T: ParameterValue>(&self, key: &str) -> (r: Option<&T>)
        requires
            self.wf(),
        ensures
            (r is Some) == (lookup::<T>(self@, key@) is Some),
            r matches Some(x) ==> lookup::<T>(self@, key@) == Some(x.model()),
    {
        let (p, found) = self.locate(key);
        if found {
            proof {
                lemma_view_at(self.entries@, p as int);
            }
            T::downcast(&self.entries[p].1)
        } else {
            None
        }
    }

    /// The value under `key` if it is of type `T`; else `KeyNotFound(key)`.
    pub fn get_required<T: ParameterValue>(&self, key: &str) -> (r: Result<&T, ParameterError>)
        requires
            self.wf(),
        ensures
            (r is Ok) == (lookup::<T>(self@, key@) is Some),
            r matches Ok(x) ==> lookup::<T>(self@, key@) == Some(x.model()),
            r matches Err(e) ==> (e matches ParameterError::KeyNotFound(k) && k@ == key@),
    {
        match self.get::<T>(key) {
            Some(x) => Ok(x),
            None => Err(ParameterError::KeyNotFound(String::from_str(key))),
        }
    }

    /// The canonical text of the value under `key`, of whatever type.
    pub fn get_string(&self, key: &str) -> (r: Option<String>)
        requires
            self.wf(),
        ensures
            (r is Some) == self@.contains_key(key@),
            r matches Some(s) ==> s@ == render(self@[key@]),
    {
        let (p, found) = self.locate(key);
        if found {
            proof {
                lemma_view_at(self.entries@, p as int);
            }
            Some(self.entries[p].1.render())
        } else {
            None
        }
    }

    /// Whether some value is stored under `key`.
    pub fn contains_key(&self, key: &str) -> (r: bool)
        requires
            self.wf(),
        ensures
            r == self@.contains_key(key@),
    {
        let (_, found) = self.locate(key);
        found
    }

    /// Whether a value of exactly type `T` is stored under `key`.
    pub fn contains_type<T: ParameterValue>(&self, key: &str) -> (r: bool)
        requires
            self.wf(),
        ensures
            r == (self@.contains_key(key@) && self@[key@].kind() == T::kind()),
    {
        let found = self.get::<T>(key);
        found.is_some()
    }

    /// Reads the text of the value under `key` as a `T`.
    pub fn try_get<T: FromText>(&self, key: &str) -> (r: Result<T, ParameterError>)
        requires
            self.wf(),
        ensures
            (r is Ok) == (self@.contains_key(key@) && T::parse_spec(render(self@[key@])) is Some),
            r matches Ok(v) ==> T::parse_spec(render(self@[key@])) == Some(v.model()),
            !self@.contains_key(key@) ==> (r matches Err(ParameterError::KeyNotFound(k))
                && k@ == key@),
            self@.contains_key(key@) && T::parse_spec(render(self@[key@])) is None ==> (
            r matches Err(ParameterError::ConversionFailed(_))),
    {
        match self.get_string(key) {
            None => Err(ParameterError::KeyNotFound(String::from_str(key))),
            Some(text) => match T::from_text(text.as_str()) {
                Some(v) => Ok(v),
                None => Err(
                    ParameterError::ConversionFailed(
                        String::from_str("the stored text does not denote a value of this type"),
                    ),
                ),
            },
        }
    }

    /// The container with `value` put under `key`.
    pub fn with<K: ParameterKey, V: ParameterValue>(self, key: K, value: V) -> (r: Parameters)
        requires
            self.wf(),
        ensures
            r.wf(),
            r@ == self@.insert(key.key_view(), value.model()),
    {
        let mut r = self;
        r.insert(key, value);
        r
    }

    proof fn lemma_take_step(s: Seq<(String, Value)>, i: int)
        requires
            ascending(s),
            0 <= i < s.len(),
        ensures
            ascending(s.take(i + 1)),
            entries_view(s.take(i + 1)) == entries_view(s.take(i)).insert(s[i].0@, s[i].1@),
    {
        let a = s.take(i);
        let b = s.take(i + 1);
        assert(ascending(a));
        assert(ascending(b));
        assert forall|q: Seq<char>| #[trigger] has_key(b, q) == (has_key(a, q) || q == s[i].0@) by {
            if has_key(b, q) {
                let j = index_of_key(b, q);
                if j < i {
                    assert(a[j].0@ == q);
                }
            }
            if has_key(a, q) {
                let j = index_of_key(a, q);
                assert(b[j].0@ == q);
            }
            if q == s[i].0@ {
                assert(b[i].0@ == q);
            }
        }
        assert forall|q: Seq<char>| #[trigger] entries_view(b).contains_key(q) implies entries_view(b)[q]
            == entries_view(a).insert(s[i].0@, s[i].1@)[q] by {
            lemma_view_keys(b, q);
            let j = choose|j: int| 0 <= j < b.len() && b[j].0@ == q && entries_view(b)[q] == b[j].1@;
            if j < i {
                lemma_view_at(a, j);
                lemma_view_at(b, i);
                assert(key_lt(b[j].0@, b[i].0@));
                lemma_key_lt_irreflexive(q);
            }
        }
        assert(entries_view(b) =~= entries_view(a).insert(s[i].0@, s[i].1@));
    }

    /// Brings in every entry of `other`; on a shared key, `other`'s value wins.
    pub fn merge(&mut self, other: Parameters)
        requires
            old(self).wf(),
            other.wf(),
        ensures
            final(self).wf(),
            final(self)@ == old(self)@.union_prefer_right(other@),
    {
        let ghost all = other.entries@;
        let n = other.entries.len();
        let mut rest = other.entries;
        let mut i: usize = 0;
        proof {
            assert(entries_view(all.take(0)) =~= Map::<Seq<char>, ValueModel>::empty());
            assert(self@ =~= old(self)@.union_prefer_right(entries_view(all.take(0))));
            assert(all.skip(0) =~= all);
        }
        while rest.len() > 0
            invariant
                self.wf(),
                ascending(all),
                i <= all.len(),
                all.len() == n,
                rest@ == all.skip(i as int),
                self@ == old(self)@.union_prefer_right(entries_view(all.take(i as int))),
            decreases rest@.len(),
        {
            let (k, v) = rest.remove(0);
            proof {
                assert(all.skip(i + 1) =~= all.skip(i as int).remove(0));
                Self::lemma_take_step(all, i as int);
            }
            self.insert_value(k, v);
            proof {
                assert(self@ =~= old(self)@.union_prefer_right(entries_view(all.take(i + 1))));
            }
            i = i + 1;
        }
        proof {
            assert(all.take(i as int) =~= all);
        }
    }

    /// The keys, in ascending order.
    pub fn keys(&self) -> (r: Vec<String>)
        requires
            self.wf(),
        ensures
            forall|i: int, j: int| 0 <= i < j < r@.len() ==> key_lt(#[trigger] r@[i]@, #[trigger] r@[j]@),
            forall|q: Seq<char>| self@.contains_key(q) <==> exists|i: int| 0 <= i < r@.len() && #[trigger] r@[i]@ == q,
    {
        let mut r: Vec<String> = Vec::new();
        let mut i: usize = 0;
        while i < self.entries.len()
            invariant
                self.wf(),
                i <= self.entries@.len(),
                r@.len() == i,
                forall|j: int| 0 <= j < i ==> #[trigger] r@[j]@ == self.entries@[j].0@,
            decreases self.entries@.len() - i,
        {
            r.push(self.entries[i].0.clone());
            i = i + 1;
        }
        proof {
            assert forall|q: Seq<char>| self@.contains_key(q) implies exists|i: int| 0 <= i < r@.len() && #[trigger] r@[i]@ == q by {
                let j = index_of_key(self.entries@, q);
                assert(r@[j]@ == q);
            }
            assert forall|q: Seq<char>| (exists|i: int| 0 <= i < r@.len() && #[trigger] r@[i]@ == q) implies self@.contains_key(q) by {
                let j = choose|i: int| 0 <= i < r@.len() && #[trigger] r@[i]@ == q;
                lemma_view_at(self.entries@, j);
            }
            assert forall|a: int, b: int| 0 <= a < b < r@.len() implies key_lt(#[trigger] r@[a]@, #[trigger] r@[b]@) by {
                assert(key_lt(self.entries@[a].0@, self.entries@[b].0@));
            }
        }
        r
    }

    /// The entries, in ascending order of keys.
    pub fn iter(&self) -> (r: &[(String, Value)])
        requires
            self.wf(),
        ensures
            forall|i: int, j: int| 0 <= i < j < r@.len() ==> key_lt(#[trigger] r@[i].0@, #[trigger] r@[j].0@),
            forall|i: int| 0 <= i < r@.len() ==> self@.contains_key(#[trigger] r@[i].0@) && self@[r@[i].0@] == r@[i].1@,
            forall|q: Seq<char>| self@.contains_key(q) <==> exists|i: int| 0 <= i < r@.len() && #[trigger] r@[i].0@ == q,
    {
        let r = self.entries.as_slice();
        proof {
            assert forall|i: int| 0 <= i < r@.len() implies self@.contains_key(#[trigger] r@[i].0@) && self@[r@[i].0@] == r@[i].1@ by {
                lemma_view_at(self.entries@, i);
            }
        }
        r
    }

    /// An independent copy: each value is copied, none is shared.
    pub fn duplicate(&self) -> (r: Parameters)
        ensures
            self.wf() ==> r.wf() && r@ == self@,
    {
        let mut entries: Vec<(String, Value)> = Vec::new();
        let mut i: usize = 0;
        while i < self.entries.len()
            invariant
                i <= self.entries@.len(),
                entries@.len() == i,
                forall|j: int| 0 <= j < i ==> #[trigger] entries@[j].0@ == self.entries@[j].0@ && entries@[j].1@ == self.entries@[j].1@,
            decreases self.entries@.len() - i,
        {
            let k = self.entries[i].0.clone();
            let v = self.entries[i].1.clone_value();
            entries.push((k, v));
            i = i + 1;
        }
        let r = Parameters { entries };
        proof {
            if self.wf() {
                let s = self.entries@;
                let t = r.entries@;
                assert(ascending(t)) by {
                    assert forall|a: int, b: int| 0 <= a < b < t.len() implies key_lt(#[trigger] t[a].0@, #[trigger] t[b].0@) by {
                        assert(key_lt(s[a].0@, s[b].0@));
                    }
                }
                assert forall|q: Seq<char>| #[trigger] has_key(t, q) == has_key(s, q) by {
                    if has_key(t, q) {
                        let j = index_of_key(t, q);
                        assert(s[j].0@ == q);
                    }
                    if has_key(s, q) {
                        let j = index_of_key(s, q);
                        assert(t[j].0@ == q);
                    }
                }
                assert forall|q: Seq<char>| #[trigger] entries_view(t).contains_key(q) implies entries_view(t)[q] == entries_view(s)[q] by {
                    lemma_view_keys(t, q);
                    let j = choose|j: int| 0 <= j < t.len() && t[j].0@ == q && entries_view(t)[q] == t[j].1@;
                    lemma_view_at(s, j);
                }
                assert(r@ =~= self@);
            }
        }
        r
    }

    /// A container with one entry: `text` under the key `"text"`.
    pub fn from_text(text: String) -> (r: Parameters)
        ensures
            r.wf(),
            r@ == Map::<Seq<char>, ValueModel>::empty().insert(seq!['t', 'e', 'x', 't'], ValueModel::Text(text@)),
    {
        proof {
            reveal_strlit("text");
            assert("text"@ =~= seq!['t', 'e', 'x', 't']);
        }
        Parameters::new().with("text", text)
    }

    /// A container built from key/text pairs, each inserted in turn as text.
    pub fn from_pairs(pairs: Vec<(String, String)>) -> (r: Parameters)
        ensures
            r.wf(),
            r@ == pairs_view(pairs@),
    {
        let mut r = Parameters::new();
        let mut i: usize = 0;
        proof {
            assert(pairs@.take(0) =~= Seq::<(String, String)>::empty());
        }
        while i < pairs.len()
            invariant
                r.wf(),
                i <= pairs@.len(),
                r@ == pairs_view(pairs@.take(i as int)),
            decreases pairs@.len() - i,
        {
            let k = pairs[i].0.clone();
            let v = pairs[i].1.clone();
            r.insert(k, v);
            proof {
                assert(pairs@.take(i + 1).drop_last() =~= pairs@.take(i as int));
            }
            i = i + 1;
        }
        proof {
            assert(pairs@.take(i as int) =~= pairs@);
        }
        r
    }
}

impl Parameters {
    /// The JSON form of every entry, in ascending order of keys.
    pub fn to_json(&self) -> (r: Result<Vec<(String, JsonValue)>, ParameterError>)
        requires
            self.wf(),
        ensures
            r is Ok,
            r matches Ok(o) ==> {
                &&& forall|i: int, j: int| 0 <= i < j < o@.len() ==> key_lt(#[trigger] o@[i].0@, #[trigger] o@[j].0@)
                &&& forall|i: int| 0 <= i < o@.len() ==> self@.contains_key(#[trigger] o@[i].0@) && o@[i].1@ == json_of(self@[o@[i].0@])
                &&& forall|q: Seq<char>| self@.contains_key(q) <==> exists|i: int| 0 <= i < o@.len() && #[trigger] o@[i].0@ == q
            },
    {
        let mut o: Vec<(String, JsonValue)> = Vec::new();
        let mut i: usize = 0;
        while i < self.entries.len()
            invariant
                self.wf(),
                i <= self.entries@.len(),
                o@.len() == i,
                forall|j: int| 0 <= j < i ==> #[trigger] o@[j].0@ == self.entries@[j].0@ && o@[j].1@ == json_of(self.entries@[j].1@),
            decreases self.entries@.len() - i,
        {
            let k = self.entries[i].0.clone();
            let v = self.entries[i].1.to_json();
            o.push((k, v));
            i = i + 1;
        }
        proof {
            assert forall|q: Seq<char>| self@.contains_key(q) implies exists|i: int| 0 <= i < o@.len() && #[trigger] o@[i].0@ == q by {
                let j = index_of_key(self.entries@, q);
                assert(o@[j].0@ == q);
            }
            assert forall|q: Seq<char>| (exists|i: int| 0 <= i < o@.len() && #[trigger] o@[i].0@ == q) implies self@.contains_key(q) by {
                let j = choose|i: int| 0 <= i < o@.len() && #[trigger] o@[i].0@ == q;
                lemma_view_at(self.entries@, j);
            }
            assert forall|i: int| 0 <= i < o@.len() implies self@.contains_key(#[trigger] o@[i].0@) && o@[i].1@ == json_of(self@[o@[i].0@]) by {
                lemma_view_at(self.entries@, i);
            }
            assert forall|a: int, b: int| 0 <= a < b < o@.len() implies key_lt(#[trigger] o@[a].0@, #[trigger] o@[b].0@) by {
                assert(key_lt(self.entries@[a].0@, self.entries@[b].0@));
            }
        }
        Ok(o)
    }
}

impl Default for Parameters {
    fn default() -> (r: Parameters)
        ensures
            r.wf(),
            r@ == Map::<Seq<char>, ValueModel>::empty(),
    {
        Parameters::new()
    }
}

impl Clone for Parameters {
    /// An independent copy with the same entries.
    fn clone(&self) -> (r: Self)
        ensures
            self.wf() ==> r.wf() && r@ == self@,
    {
        self.duplicate()
    }
}

/// The value under `k` as a `T`: present only where the dynamic type is `T`.
pub open spec fn lookup<T: ParameterValue>(m: Map<Seq<char>, ValueModel>, k: Seq<char>) -> Option<ValueModel> {
    if m.contains_key(k) && m[k].kind() == T::kind() {
        Some(m[k])
    } else {
        None
    }
}

/// The map that inserting each pair in turn, as text, yields.
pub open spec fn pairs_view(s: Seq<(String, String)>) -> Map<Seq<char>, ValueModel>
    decreases s.len(),
{
    if s.len() == 0 {
        Map::empty()
    } else {
        pairs_view(s.drop_last()).insert(s.last().0@, ValueModel::Text(s.last().1@))
    }
}

} // verus!
