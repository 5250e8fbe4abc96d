use std::collections::HashMap;
use vstd::prelude::*;

verus! {

/// The ids that a token vocabulary holds: each key as its sequence of
/// characters, with the value stored under it.
pub uninterp spec fn token_ids(vocab: HashMap<String, usize>) -> Map<Seq<char>, usize>;

/// `HashMap::get` on a vocabulary keyed by strings. It returns the value
/// stored under the key that has the characters of `token`, and `None`
/// where the vocabulary has no such key.
#[verifier::external_body]
pub(crate) fn token_id<'a>(vocab: &'a HashMap<String, usize>, token: &str) -> (id: Option<
    &'a usize,
>)
    ensures
        match id {
            Some(value) => token_ids(*vocab).contains_key(token@) && token_ids(*vocab)[token@]
                == *value,
            None => !token_ids(*vocab).contains_key(token@),
        },
{
    vocab.get(token)
}

/// `HashMap::get` on a vocabulary keyed by characters. It returns the value
/// stored under `c`, and `None` where the vocabulary has no such key.
#[verifier::external_body]
pub(crate) fn char_id<'a>(vocab: &'a HashMap<char, usize>, c: char) -> (id: Option<&'a usize>)
    ensures
        match id {
            Some(value) => vocab@.contains_key(c) && vocab@[c] == *value,
            None => !vocab@.contains_key(c),
        },
{
    vocab.get(&c)
}

/// The value that `ids` holds under `key`, or `fallback` where it holds none.
pub open spec fn id_or<K>(ids: Map<K, usize>, key: K, fallback: usize) -> usize {
    if ids.contains_key(key) {
        ids[key]
    } else {
        fallback
    }
}

} // verus!
