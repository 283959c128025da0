//! Iterating over entries read back from the store in one go: the keys to
//! read for a set of ids, and the entries that came back, a missing entry
//! being an empty buffer.
use vstd::prelude::*;

use crate::cache::guild_delete::{id_keys, id_keys_of, IdKey};
use crate::key::RedisKey;
use crate::pipe::byte_views;

verus! {

/// The entry an answer's buffer holds: none if it is empty.
pub open spec fn entry_of(bytes: Seq<u8>) -> Option<Seq<u8>> {
    if bytes.len() == 0 {
        None
    } else {
        Some(bytes)
    }
}

/// The entries among `items` that were found, in order.
pub open spec fn present_entries(items: Seq<Seq<u8>>) -> Seq<Seq<u8>>
    decreases items.len(),
{
    if items.len() == 0 {
        Seq::empty()
    } else {
        (if items[0].len() == 0 {
            Seq::empty()
        } else {
            seq![items[0]]
        }) + present_entries(items.drop_first())
    }
}

/// The entries among `items` that were found, in order, read from the back.
pub open spec fn present_entries_rev(items: Seq<Seq<u8>>) -> Seq<Seq<u8>>
    decreases items.len(),
{
    if items.len() == 0 {
        Seq::empty()
    } else {
        (if items.last().len() == 0 {
            Seq::empty()
        } else {
            seq![items.last()]
        }) + present_entries_rev(items.drop_last())
    }
}

/// The keys to read for `ids` of shape `shape` in `guild`: the keys of the
/// iterators over a set of ids.
pub fn keys_for_ids(shape: IdKey, guild: u64, ids: &[u64]) -> (res: Vec<RedisKey>)
    ensures
        res@ == id_keys(shape, guild, ids@),
{
    id_keys_of(shape, guild, ids)
}

/// Iterator over the entries read back for a list of keys, one item per
/// key: `None` where the entry was not found.
pub struct OptionalCacheIter {
    items: Vec<Vec<u8>>,
    front: usize,
    back: usize,
}

impl OptionalCacheIter {
    #[verifier::type_invariant]
    spec fn bounds(self) -> bool {
        self.front <= self.back <= self.items@.len()
    }

    /// The buffers not yet read, in order.
    pub closed spec fn remaining(self) -> Seq<Seq<u8>> {
        byte_views(self.items@).subrange(self.front as int, self.back as int)
    }

    /// An iterator over the buffers the store answered, in order.
    pub fn new(items: Vec<Vec<u8>>) -> (res: OptionalCacheIter)
        ensures
            res.remaining() == byte_views(items@),
    {
        let n = items.len();
        let res = OptionalCacheIter { items, front: 0, back: n };
        assert(res.remaining() =~= byte_views(res.items@));
        res
    }

    /// How many items remain.
    pub fn len(&self) -> (res: usize)
        ensures
            res == self.remaining().len(),
    {
        proof {
            use_type_invariant(self);
        }
        self.back - self.front
    }

    /// The next item from the front: the entry, or `None` where it was not
    /// found; `None` at the end.
    pub fn next(&mut self) -> (res: Option<Option<Vec<u8>>>)
        ensures
            old(self).remaining().len() == 0 ==> res is None && final(self).remaining() == old(
                self,
            ).remaining(),
            old(self).remaining().len() > 0 ==> res is Some && final(self).remaining() == old(
                self,
            ).remaining().drop_first() && match res.unwrap() {
                Some(b) => entry_of(old(self).remaining()[0]) == Some(b@),
                None => entry_of(old(self).remaining()[0]) is None,
            },
    {
        proof {
            use_type_invariant(&*self);
        }
        if self.front == self.back {
            return None;
        }
        let bytes = self.items[self.front].clone();
        assert(bytes@ == byte_views(self.items@)[self.front as int]);
        let ghost before = self.remaining();
        self.front = self.front + 1;
        assert(self.remaining() =~= before.drop_first());
        if bytes.len() == 0 {
            Some(None)
        } else {
            Some(Some(bytes))
        }
    }

    /// The next item from the back: the entry, or `None` where it was not
    /// found; `None` at the end.
    pub fn next_back(&mut self) -> (res: Option<Option<Vec<u8>>>)
        ensures
            old(self).remaining().len() == 0 ==> res is None && final(self).remaining() == old(
                self,
            ).remaining(),
            old(self).remaining().len() > 0 ==> res is Some && final(self).remaining() == old(
                self,
            ).remaining().drop_last() && match res.unwrap() {
                Some(b) => entry_of(old(self).remaining().last()) == Some(b@),
                None => entry_of(old(self).remaining().last()) is None,
            },
    {
        proof {
            use_type_invariant(&*self);
        }
        if self.front == self.back {
            return None;
        }
        let bytes = self.items[self.back - 1].clone();
        assert(bytes@ == byte_views(self.items@)[self.back - 1]);
        let ghost before = self.remaining();
        self.back = self.back - 1;
        assert(self.remaining() =~= before.drop_last());
        if bytes.len() == 0 {
            Some(None)
        } else {
            Some(Some(bytes))
        }
    }
}

/// Iterator over the entries read back for a list of keys that were found.
pub struct CacheIter {
    inner: OptionalCacheIter,
}

impl CacheIter {
    /// The buffers not yet read, in order.
    pub closed spec fn remaining(self) -> Seq<Seq<u8>> {
        self.inner.remaining()
    }

    /// An iterator over the entries found among `inner`'s items.
    pub fn new(inner: OptionalCacheIter) -> (res: CacheIter)
        ensures
            res.remaining() == inner.remaining(),
    {
        CacheIter { inner }
    }

    /// At most how many entries remain.
    pub fn max_len(&self) -> (res: usize)
        ensures
            res == self.remaining().len(),
    {
        self.inner.len()
    }

    /// The next entry that was found, from the front; `None` at the end.
    pub fn next(&mut self) -> (res: Option<Vec<u8>>)
        ensures
            match res {
                Some(b) => present_entries(old(self).remaining()).len() > 0 && b@ == present_entries(
                    old(self).remaining(),
                )[0] && present_entries(final(self).remaining()) == present_entries(
                    old(self).remaining(),
                ).drop_first(),
                None => present_entries(old(self).remaining()).len() == 0
                    && final(self).remaining().len() == 0,
            },
    {
        loop
            invariant
                present_entries(self.remaining()) == present_entries(old(self).remaining()),
            decreases self.remaining().len(),
        {
            let ghost before = self.remaining();
            match self.inner.next() {
                None => {
                    return None;
                },
                Some(Some(bytes)) => {
                    proof {
                        lemma_present_split(before);
                    }
                    return Some(bytes);
                },
                Some(None) => {
                    proof {
                        lemma_present_split(before);
                    }
                },
            }
        }
    }

    /// The next entry that was found, from the back; `None` at the end.
    pub fn next_back(&mut self) -> (res: Option<Vec<u8>>)
        ensures
            match res {
                Some(b) => present_entries_rev(old(self).remaining()).len() > 0 && b@
                    == present_entries_rev(old(self).remaining())[0] && present_entries_rev(
                    final(self).remaining(),
                ) == present_entries_rev(old(self).remaining()).drop_first(),
                None => present_entries_rev(old(self).remaining()).len() == 0
                    && final(self).remaining().len() == 0,
            },
    {
        loop
            invariant
                present_entries_rev(self.remaining()) == present_entries_rev(
                    old(self).remaining(),
                ),
            decreases self.remaining().len(),
        {
            let ghost before = self.remaining();
            match self.inner.next_back() {
                None => {
                    return None;
                },
                Some(Some(bytes)) => {
                    proof {
                        lemma_present_rev_split(before);
                    }
                    return Some(bytes);
                },
                Some(None) => {
                    proof {
                        lemma_present_rev_split(before);
                    }
                },
            }
        }
    }
}

/// Reading the first buffer splits off the entry it holds, if any.
proof fn lemma_present_split(items: Seq<Seq<u8>>)
    requires
        items.len() > 0,
    ensures
        present_entries(items) == (if items[0].len() == 0 {
            Seq::empty()
        } else {
            seq![items[0]]
        }) + present_entries(items.drop_first()),
{
}

/// Reading the last buffer splits off the entry it holds, if any.
proof fn lemma_present_rev_split(items: Seq<Seq<u8>>)
    requires
        items.len() > 0,
    ensures
        present_entries_rev(items) == (if items.last().len() == 0 {
            Seq::empty()
        } else {
            seq![items.last()]
        }) + present_entries_rev(items.drop_last()),
{
}

} // verus!
