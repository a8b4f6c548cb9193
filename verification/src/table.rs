//! Tables keyed by short byte strings: node ids and IPv4 addresses.

use std::collections::HashMap;

use vstd::prelude::*;

use crate::bytes::{be_u128, be_value, pow256};
use crate::bytes::{lemma_be_value_bound, lemma_be_value_injective, lemma_pow256_increases};
use crate::endpoint::Endpoint;

verus! {

broadcast use vstd::std_specs::hash::group_hash_axioms;

/// A table from strings of `N` bytes to values. `N` is at most sixteen.
pub struct ByteMap<const N: usize, T> {
    inner: HashMap<u128, T>,
}

impl<const N: usize, T: View> View for ByteMap<N, T> {
    type V = Map<Seq<u8>, T::V>;

    closed spec fn view(&self) -> Map<Seq<u8>, T::V> {
        Map::new(
            |k: Seq<u8>| k.len() == N && self.inner@.contains_key(be_value(k) as u128),
            |k: Seq<u8>| self.inner@[be_value(k) as u128]@,
        )
    }
}

/// The number of a key fits, and is the key's alone.
proof fn lemma_key(key: Seq<u8>)
    requires
        key.len() <= 16,
    ensures
        be_value(key) <= u128::MAX,
        forall|k: Seq<u8>|
            k.len() == key.len() && #[trigger] be_value(k) == be_value(key) ==> k == key,
{
    lemma_be_value_bound(key);
    lemma_pow256_increases(key.len(), 16);
    reveal_with_fuel(pow256, 17);
    assert forall|k: Seq<u8>|
        k.len() == key.len() && #[trigger] be_value(k) == be_value(key) implies k == key by {
        lemma_be_value_injective(k, key);
    }
}

/// As [`lemma_key`], for all keys of one length.
proof fn lemma_keys(n: nat)
    requires
        n <= 16,
    ensures
        forall|k: Seq<u8>| k.len() == n ==> #[trigger] be_value(k) <= u128::MAX,
{
    assert forall|k: Seq<u8>| k.len() == n implies #[trigger] be_value(k) <= u128::MAX by {
        lemma_key(k);
    }
}

impl<const N: usize, T: View> ByteMap<N, T> {
    /// A table with nothing in it.
    pub fn new() -> (r: Self)
        ensures
            r@ == Map::<Seq<u8>, T::V>::empty(),
    {
        let r = ByteMap { inner: HashMap::new() };
        assert(r@ =~= Map::<Seq<u8>, T::V>::empty());
        r
    }

    /// The value for a key, if there is one.
    pub fn get(&self, key: &[u8; N]) -> (r: Option<&T>)
        requires
            N <= 16,
        ensures
            match r {
                Some(v) => self@.contains_key(key@) && self@[key@] == v@,
                None => !self@.contains_key(key@),
            },
    {
        proof {
            lemma_key(key@);
        }
        let number: u128 = be_u128(key);
        self.inner.get(&number)
    }

    /// Whether there is a value for a key.
    pub fn contains_key(&self, key: &[u8; N]) -> (r: bool)
        requires
            N <= 16,
        ensures
            r == self@.contains_key(key@),
    {
        self.get(key).is_some()
    }

    /// Sets the value for a key.
    pub fn insert(&mut self, key: &[u8; N], value: T)
        requires
            N <= 16,
        ensures
            final(self)@ == old(self)@.insert(key@, value@),
    {
        proof {
            lemma_key(key@);
            lemma_keys(N as nat);
        }
        let number: u128 = be_u128(key);
        self.inner.insert(number, value);
        assert(self@ =~= old(self)@.insert(key@, value@));
    }

    /// Takes the value for a key out, if there is one.
    pub fn remove(&mut self, key: &[u8; N]) -> (r: Option<T>)
        requires
            N <= 16,
        ensures
            final(self)@ == old(self)@.remove(key@),
            match r {
                Some(v) => old(self)@.contains_key(key@) && old(self)@[key@] == v@,
                None => !old(self)@.contains_key(key@),
            },
    {
        proof {
            lemma_key(key@);
            lemma_keys(N as nat);
        }
        let number: u128 = be_u128(key);
        let r = self.inner.remove(&number);
        assert(self@ =~= old(self)@.remove(key@));
        r
    }
}

impl<const N: usize> ByteMap<N, Endpoint> {
    /// Takes out every entry that has the given endpoint.
    pub fn forget(&mut self, gone: Endpoint)
        requires
            N <= 16,
        ensures
            final(self)@ == old(self)@.remove_keys(
                Set::new(|k: Seq<u8>| old(self)@.contains_key(k) && old(self)@[k] == gone),
            ),
    {
        let mut kept: HashMap<u128, Endpoint> = HashMap::new();
        let ghost all = self.inner@;
        for key in iter: self.inner.keys()
            invariant
                self.inner@ == all,
                iter.seq().unref().to_set() == all.dom(),
                forall|n: u128| #[trigger]
                    kept@.contains_key(n) ==> all.contains_key(n) && all[n] != gone && kept@[n]
                        == all[n],
                forall|n: u128|
                    all.contains_key(n) && all[n] != gone ==> #[trigger] kept@.contains_key(n)
                        || exists|j: int|
                        iter.index() <= j < iter.seq().len() && *(#[trigger] iter.seq()[j]) == n,
        {
            assert(iter.seq().unref()[iter.index() as int] == *key);
            assert(iter.seq().unref().to_set().contains(*key));
            match self.inner.get(key) {
                Some(endpoint) => {
                    if *endpoint != gone {
                        kept.insert(*key, *endpoint);
                    }
                },
                None => {},
            }
        }
        self.inner = kept;
        proof {
            lemma_keys(N as nat);
            assert(self@ =~= old(self)@.remove_keys(
                Set::new(|k: Seq<u8>| old(self)@.contains_key(k) && old(self)@[k] == gone),
            ));
        }
    }
}

} // verus!
