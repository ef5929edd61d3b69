//! What the library reads of an HTTP request: its method and its parameters.
use vstd::prelude::*;

verus! {

#[derive(Clone, Copy, PartialEq, Eq, Structural, Debug)]
pub enum HttpMethod {
    Get,
    Post,
    Put,
    Patch,
    Delete,
    Head,
    Options,
}

/// A request parameter: a value the runtime injected (already written out as
/// text), or one the client sent (possibly without a value).
#[derive(Clone, Debug)]
pub enum ParamValue<V> {
    Internal(String),
    Client(Option<V>),
}

/// The index of the first parameter named `key`.
pub open spec fn lookup<V>(params: Seq<(String, ParamValue<V>)>, key: Seq<char>) -> Option<int>
    decreases params.len(),
{
    if params.len() == 0 {
        None
    } else {
        match lookup(params.drop_last(), key) {
            Some(i) => Some(i),
            None => if params.last().0@ == key {
                Some(params.len() - 1)
            } else {
                None
            },
        }
    }
}

pub proof fn lemma_lookup_in_range<V>(params: Seq<(String, ParamValue<V>)>, key: Seq<char>)
    ensures
        lookup(params, key) matches Some(i) ==> 0 <= i < params.len() && params[i].0@ == key,
    decreases params.len(),
{
    if params.len() > 0 {
        lemma_lookup_in_range(params.drop_last(), key);
    }
}

/// A parameter is found by its name: the first parameter with that name, or none
/// when no parameter has it.
pub proof fn law_lookup_finds_first<V>(params: Seq<(String, ParamValue<V>)>, key: Seq<char>)
    ensures
        match lookup(params, key) {
            Some(i) => {
                &&& 0 <= i < params.len()
                &&& params[i].0@ == key
                &&& forall|j: int| 0 <= j < i ==> (#[trigger] params[j]).0@ != key
            },
            None => forall|j: int| 0 <= j < params.len() ==> (#[trigger] params[j]).0@ != key,
        },
    decreases params.len(),
{
    if params.len() > 0 {
        let init = params.drop_last();
        law_lookup_finds_first(init, key);
        assert forall|j: int| 0 <= j < init.len() implies init[j] == params[j] by {}
        match lookup(init, key) {
            Some(i) => {
                assert forall|j: int| 0 <= j < i implies (#[trigger] params[j]).0@ != key by {
                    assert(init[j] == params[j]);
                }
            },
            None => {
                assert forall|j: int| 0 <= j < init.len() implies (#[trigger] params[j]).0@ != key by {
                    assert(init[j] == params[j]);
                }
                assert(params.last() == params[params.len() - 1]);
            },
        }
    }
}

/// Whether `a` and `b` hold the same characters.
pub fn chars_eq(a: &Vec<char>, b: &Vec<char>) -> (r: bool)
    ensures
        r == (a@ == b@),
{
    if a.len() != b.len() {
        return false;
    }
    let mut i: usize = 0;
    while i < a.len()
        invariant
            i <= a.len() == b.len(),
            forall|k: int| 0 <= k < i ==> a@[k] == b@[k],
        decreases a.len() - i,
    {
        if a[i] != b[i] {
            return false;
        }
        i += 1;
    }
    assert(a@ =~= b@);
    true
}

/// The index of the first parameter named `key`.
pub fn find_param<V>(params: &Vec<(String, ParamValue<V>)>, key: &Vec<char>) -> (r: Option<usize>)
    ensures
        r matches Some(i) ==> lookup(params@, key@) == Some(i as int),
        r is None ==> lookup(params@, key@) is None,
{
    let mut i: usize = 0;
    assert(params@.take(0) =~= Seq::<(String, ParamValue<V>)>::empty());
    while i < params.len()
        invariant
            i <= params.len(),
            lookup(params@.take(i as int), key@) is None,
        decreases params.len() - i,
    {
        assert(params@.take(i + 1).drop_last() =~= params@.take(i as int));
        let name = crate::text::chars_of(params[i].0.as_str());
        if chars_eq(&name, key) {
            proof {
                lemma_lookup_prefix(params@, key@, i as int);
            }
            return Some(i);
        }
        i += 1;
    }
    assert(params@.take(params.len() as int) =~= params@);
    None
}

/// A first match in a prefix is the first match in the whole.
pub proof fn lemma_lookup_prefix<V>(params: Seq<(String, ParamValue<V>)>, key: Seq<char>, i: int)
    requires
        0 <= i < params.len(),
        lookup(params.take(i), key) is None,
        params[i].0@ == key,
    ensures
        lookup(params, key) == Some(i),
    decreases params.len(),
{
    assert(params.take(i + 1).drop_last() =~= params.take(i));
    assert(lookup(params.take(i + 1), key) == Some(i));
    if params.len() > i + 1 {
        assert(params.drop_last().take(i) =~= params.take(i));
        lemma_lookup_prefix(params.drop_last(), key, i);
    } else {
        assert(params.take(i + 1) =~= params);
    }
}

} // verus!
