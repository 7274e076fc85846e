//! Objects kept under keys.

use vstd::prelude::*;
use crate::table::Table;
use crate::text::{has_prefix, push_bytes, text_starts_with, texts};

verus! {

/// In-memory object store.
#[derive(Debug)]
pub struct MemStore {
    data: Table<Vec<u8>>,
}

impl View for MemStore {
    type V = Map<Seq<char>, Seq<u8>>;

    closed spec fn view(&self) -> Map<Seq<char>, Seq<u8>> {
        self.data@.map_values(|v: Vec<u8>| v@)
    }
}

impl MemStore {
    /// A store that holds nothing.
    pub fn new() -> (r: Self)
        ensures
            r@ == Map::<Seq<char>, Seq<u8>>::empty(),
    {
        let r = MemStore { data: Table::new() };
        proof {
            assert(r@ =~= Map::empty());
        }
        r
    }

    /// Stores an object, in place of the one that the key had.
    pub fn put(&mut self, key: &str, data: Vec<u8>)
        ensures
            final(self)@ == old(self)@.insert(key@, data@),
    {
        self.data.insert(key.to_owned(), data);
        proof {
            assert(self@ =~= old(self)@.insert(key@, data@));
        }
    }

    /// The object under a key.
    pub fn get(&self, key: &str) -> (r: Option<Vec<u8>>)
        ensures
            match r {
                Some(d) => self@.dom().contains(key@) && d@ == self@[key@],
                None => !self@.dom().contains(key@),
            },
    {
        match self.data.get(key) {
            Some(v) => {
                let mut d: Vec<u8> = Vec::new();
                push_bytes(&mut d, v.as_slice());
                proof {
                    assert(d@ =~= v@);
                }
                Some(d)
            },
            None => None,
        }
    }

    /// Deletes the object under a key; a key without an object is no error.
    pub fn delete(&mut self, key: &str)
        ensures
            final(self)@ == old(self)@.remove(key@),
    {
        self.data.remove(key);
        proof {
            assert(self@ =~= old(self)@.remove(key@));
        }
    }

    /// The keys that start with a prefix, each once, in no particular order.
    pub fn list(&self, prefix: &str) -> (r: Vec<String>)
        ensures
            texts(r@).no_duplicates(),
            forall|k: Seq<char>| #[trigger]
                texts(r@).contains(k) <==> self@.dom().contains(k) && has_prefix(k, prefix@),
    {
        let keys = self.data.keys();
        let ghost all = texts(keys@);
        let mut out: Vec<String> = Vec::new();
        let mut i: usize = 0;
        while i < keys.len()
            invariant
                i <= keys@.len(),
                all == texts(keys@),
                all.no_duplicates(),
                texts(out@).no_duplicates(),
                forall|k: Seq<char>| #[trigger]
                    texts(out@).contains(k) <==> all.take(i as int).contains(k) && has_prefix(
                        k,
                        prefix@,
                    ),
            decreases keys@.len() - i,
        {
            let ghost before = texts(out@);
            let ghost key = all[i as int];
            proof {
                assert(all.take(i as int + 1) =~= all.take(i as int).push(key));
                if all.take(i as int).contains(key) {
                    let j = choose|j: int| 0 <= j < i && all.take(i as int)[j] == key;
                    assert(all[j] == key);
                }
                assert forall|k: Seq<char>| all.take(i as int + 1).contains(k) <==> (all.take(
                    i as int,
                ).contains(k) || k == key) by {
                    if all.take(i as int).contains(k) {
                        let j = choose|j: int| 0 <= j < i && all.take(i as int)[j] == k;
                        assert(all.take(i as int + 1)[j] == k);
                    }
                    if k == key {
                        assert(all.take(i as int + 1)[i as int] == k);
                    }
                }
            }
            if text_starts_with(keys[i].as_str(), prefix) {
                out.push(keys[i].clone());
                proof {
                    assert(texts(out@) =~= before.push(key));
                    assert forall|k: Seq<char>| #[trigger] texts(out@).contains(k) <==> (
                    before.contains(k) || k == key) by {
                        if before.contains(k) {
                            let j = choose|j: int| 0 <= j < before.len() && before[j] == k;
                            assert(texts(out@)[j] == k);
                        }
                        if k == key {
                            assert(texts(out@)[before.len() as int] == k);
                        }
                    }
                    assert(!before.contains(key));
                    assert(texts(out@).no_duplicates());
                }
            }
            i += 1;
        }
        proof {
            assert(all.take(i as int) =~= all);
            assert forall|k: Seq<char>| #[trigger] texts(out@).contains(k) <==> self@.dom().contains(k)
                && has_prefix(k, prefix@) by {
                assert(all.contains(k) <==> all.to_set().contains(k));
            }
        }
        out
    }
}

/// A read gives back what was written last under the key, and no other key is touched.
pub proof fn law_get_after_put(store: Map<Seq<char>, Seq<u8>>, key: Seq<char>, data: Seq<u8>)
    ensures
        store.insert(key, data).dom().contains(key),
        store.insert(key, data)[key] == data,
        forall|k: Seq<char>|
            k != key ==> (#[trigger] store.insert(key, data).dom().contains(k)
                == store.dom().contains(k)) && store.insert(key, data)[k] == store[k],
{
}

/// A deleted key has no object, no other key is touched, and what was put under a new key and
/// deleted again leaves the store as it was.
pub proof fn law_get_after_delete(store: Map<Seq<char>, Seq<u8>>, key: Seq<char>, data: Seq<u8>)
    ensures
        !store.remove(key).dom().contains(key),
        forall|k: Seq<char>|
            k != key ==> (#[trigger] store.remove(key).dom().contains(k) == store.dom().contains(k))
                && store.remove(key)[k] == store[k],
        !store.dom().contains(key) ==> store.insert(key, data).remove(key) == store,
{
    if !store.dom().contains(key) {
        assert(store.insert(key, data).remove(key) =~= store);
    }
}

} // verus!
