//! Laws that relate the container's operations to one another.
use vstd::prelude::*;

use crate::parameters::{lookup, Parameters};
use crate::value::{ParameterValue, ValueModel};

verus! {

/// A value put under a key is found again under that key, by its own type,
/// and equal to what was put there.
pub proof fn law_insert_then_get<T: ParameterValue>(
    m: Map<Seq<char>, ValueModel>,
    k: Seq<char>,
    v: T,
)
    ensures
        lookup::<T>(m.insert(k, v.model()), k) == Some(v.model()),
{
    v.lemma_model_kind();
}

/// A value put under a key is not found there by any other type.
pub proof fn law_insert_then_get_other<T: ParameterValue, U: ParameterValue>(
    m: Map<Seq<char>, ValueModel>,
    k: Seq<char>,
    v: T,
)
    requires
        T::kind() != U::kind(),
    ensures
        lookup::<U>(m.insert(k, v.model()), k) is None,
{
    v.lemma_model_kind();
}

/// Under a key that was never put in, no value is found, of any type.
pub proof fn law_absent_key<T: ParameterValue>(m: Map<Seq<char>, ValueModel>, k: Seq<char>)
    requires
        !m.contains_key(k),
    ensures
        lookup::<T>(m, k) is None,
{
}

/// A clone holds the same entries as its original, and the two part ways:
/// a new key put into the clone is in the clone alone, and one put into the
/// original is in the original alone.
pub proof fn law_clone_independent(
    original: Parameters,
    copy: Parameters,
    k: Seq<char>,
    v: ValueModel,
)
    requires
        original.wf(),
        call_ensures(Parameters::clone, (&original,), copy),
        !original@.contains_key(k),
    ensures
        copy.wf(),
        copy@ == original@,
        copy@.insert(k, v).contains_key(k),
        !original@.contains_key(k),
        original@.insert(k, v).contains_key(k),
        !copy@.contains_key(k),
        copy@.insert(k, v).remove(k) == original@,
{
    assert(copy@.insert(k, v).remove(k) =~= original@);
}

} // verus!
