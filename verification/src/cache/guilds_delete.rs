//! Removing several guilds at once once their sets were read. The store
//! answers each set of every guild before the next set, so the answer holds
//! one block of lists per set read, one list per guild.
use vstd::prelude::*;

use crate::cache::common::{all_ids_key, kind_settings, EntryKind};
use crate::cache::guild::{guild_list_key, guild_lists, guild_lists_of, GuildList};
use crate::cache::guild_delete::{
    estranged, estranged_of, extend_keys, id_keys, id_keys_of, is_keyed_list, list_entry_kind,
    list_pair_shape, list_views, settings_expire, keyed_list, entry_kind_of, pair_shape_of, user_guild_cmds, drop_positions, lemma_user_guild_len, IdKey,
};
use crate::config::CacheSettings;
use crate::error::CacheError;
use crate::key::{key_bytes, RedisKey};
use crate::pipe::{cmd_del, cmd_srem, key_texts, Pipe};

verus! {

/// The ids of all lists of `block`, in order.
pub open spec fn flat(block: Seq<Seq<u64>>) -> Seq<u64>
    decreases block.len(),
{
    if block.len() == 0 {
        Seq::empty()
    } else {
        flat(block.drop_last()) + block.last()
    }
}

/// The keys of the set `k` of each guild.
pub open spec fn guild_keys(k: GuildList, guilds: Seq<u64>) -> Seq<RedisKey> {
    guilds.map_values(|g: u64| guild_list_key(k, g))
}

/// The keys of shape `shape` for the ids of `block[i]` in `guilds[i]`, for
/// each guild in turn.
pub open spec fn pair_keys(shape: IdKey, guilds: Seq<u64>, block: Seq<Seq<u64>>) -> Seq<RedisKey>
    decreases guilds.len(),
{
    if guilds.len() == 0 {
        Seq::empty()
    } else {
        pair_keys(shape, guilds.drop_last(), block) + id_keys(
            shape,
            guilds.last(),
            block[guilds.len() - 1],
        )
    }
}

/// The lists of the `j`-th block of an answer for `n` guilds.
pub open spec fn block_of(lists: Seq<Seq<u64>>, j: int, n: int) -> Seq<Seq<u64>> {
    lists.subrange(j * n, j * n + n)
}

/// Removing the ids of the set `k` of all guilds from the set of all ids of
/// its kind; for the members, removing all their users from the users.
pub open spec fn multi_list_srems(s: CacheSettings, k: GuildList, block: Seq<Seq<u64>>) -> Seq<
    Seq<Seq<u8>>,
> {
    if k == GuildList::Members {
        if s.user.wanted {
            seq![cmd_srem(key_bytes(RedisKey::Users), flat(block))]
        } else {
            Seq::empty()
        }
    } else if is_keyed_list(k) {
        seq![cmd_srem(key_bytes(all_ids_key(list_entry_kind(k))), flat(block))]
    } else {
        Seq::empty()
    }
}

/// The keys to delete for the set `k` of `guilds`, whose lists are `block`.
pub open spec fn multi_list_keys(
    s: CacheSettings,
    guilds: Seq<u64>,
    k: GuildList,
    block: Seq<Seq<u64>>,
    counts: Seq<usize>,
) -> Seq<RedisKey> {
    if k == GuildList::Members {
        (if s.user.wanted {
            id_keys(IdKey::User, 0, estranged(flat(block), counts))
        } else {
            Seq::empty()
        }) + (if s.member.wanted {
            guild_keys(k, guilds) + pair_keys(IdKey::Member, guilds, block)
        } else {
            Seq::empty()
        })
    } else if is_keyed_list(k) {
        let e = list_entry_kind(k);
        (if kind_settings(s, e).expires() {
            id_keys(IdKey::Meta(e), 0, flat(block))
        } else {
            Seq::empty()
        }) + id_keys(IdKey::Entry(e), 0, flat(block)) + guild_keys(k, guilds)
    } else {
        pair_keys(list_pair_shape(k), guilds, block) + guild_keys(k, guilds)
    }
}

/// The removals for the sets `kinds`, the `j`-th of which has the `j`-th
/// block of `lists`.
pub open spec fn multi_srems(
    s: CacheSettings,
    n: int,
    kinds: Seq<GuildList>,
    lists: Seq<Seq<u64>>,
) -> Seq<Seq<Seq<u8>>>
    decreases kinds.len(),
{
    if kinds.len() == 0 {
        Seq::empty()
    } else {
        multi_srems(s, n, kinds.drop_last(), lists) + multi_list_srems(
            s,
            kinds.last(),
            block_of(lists, kinds.len() - 1, n),
        )
    }
}

/// The keys to delete for the sets `kinds`, the `j`-th of which has the
/// `j`-th block of `lists`.
pub open spec fn multi_keys(
    s: CacheSettings,
    guilds: Seq<u64>,
    kinds: Seq<GuildList>,
    lists: Seq<Seq<u64>>,
    counts: Seq<usize>,
) -> Seq<RedisKey>
    decreases kinds.len(),
{
    if kinds.len() == 0 {
        Seq::empty()
    } else {
        multi_keys(s, guilds, kinds.drop_last(), lists, counts) + multi_list_keys(
            s,
            guilds,
            kinds.last(),
            block_of(lists, kinds.len() - 1, guilds.len() as int),
            counts,
        )
    }
}

/// Every key that removing `guilds` deletes, given the members of their sets
/// and the counts of guilds their users have left.
pub open spec fn delete_guilds_keys(
    s: CacheSettings,
    guilds: Seq<u64>,
    lists: Seq<Seq<u64>>,
    counts: Seq<usize>,
) -> Seq<RedisKey> {
    multi_keys(s, guilds, guild_lists(s), lists, counts) + (if s.guild.wanted {
        guilds.map_values(|g: u64| RedisKey::Guild { id: g })
    } else {
        Seq::empty()
    })
}

/// Last step of removing `guilds`: the removals from the sets of all ids,
/// the guilds' ids out of the guilds, then one deletion of every key.
pub open spec fn delete_guilds_finish_cmds(
    s: CacheSettings,
    guilds: Seq<u64>,
    lists: Seq<Seq<u64>>,
    counts: Seq<usize>,
) -> Seq<Seq<Seq<u8>>> {
    let keys = delete_guilds_keys(s, guilds, lists, counts);
    multi_srems(s, guilds.len() as int, guild_lists(s), lists) + (if s.guild.wanted {
        seq![cmd_srem(key_bytes(RedisKey::Guilds), guilds)]
    } else {
        Seq::empty()
    }) + (if keys.len() > 0 {
        seq![cmd_del(key_texts(keys))]
    } else {
        Seq::empty()
    })
}

/// Dropping each guild from the guilds of its users, `lists[i]` holding the
/// users of `guilds[i]`.
pub open spec fn users_each_cmds(guilds: Seq<u64>, lists: Seq<Seq<u64>>) -> Seq<Seq<Seq<u8>>>
    decreases guilds.len(),
{
    if guilds.len() == 0 {
        Seq::empty()
    } else {
        users_each_cmds(guilds.drop_last(), lists) + user_guild_cmds(
            guilds.last(),
            lists[guilds.len() - 1],
        )
    }
}

/// Whether the store answered with one list per set read and guild.
pub open spec fn answer_fits(s: CacheSettings, guilds: nat, lists: nat) -> bool {
    lists == guild_lists(s).len() * guilds
}

/// The ids of the lists `lists[off..off + n]`, in order.
fn flat_of(lists: &[Vec<u64>], off: usize, n: usize) -> (res: Vec<u64>)
    requires
        off + n <= lists@.len(),
    ensures
        res@ == flat(list_views(lists@).subrange(off as int, off + n)),
{
    let ghost block = list_views(lists@).subrange(off as int, off + n);
    let total = lists.len();
    let mut out: Vec<u64> = Vec::new();
    let mut i: usize = 0;
    while i < n
        invariant
            i <= n,
            total == lists@.len(),
            off + n <= lists@.len(),
            block == list_views(lists@).subrange(off as int, off + n),
            out@ == flat(block.take(i as int)),
        decreases n - i,
    {
        let ghost before = out@;
        let ids = &lists[off + i];
        let mut j: usize = 0;
        while j < ids.len()
            invariant
                j <= ids@.len(),
                out@ == before + ids@.take(j as int),
            decreases ids@.len() - j,
        {
            out.push(ids[j]);
            assert(ids@.take(j + 1) =~= ids@.take(j as int).push(ids@[j as int]));
            assert(out@ =~= before + ids@.take(j + 1));
            j = j + 1;
        }
        assert(ids@.take(j as int) =~= ids@);
        assert(block.take(i + 1).drop_last() =~= block.take(i as int));
        assert(block.take(i + 1).last() == ids@);
        i = i + 1;
    }
    assert(block.take(i as int) =~= block);
    out
}

/// The keys of the set `k` of each guild.
fn guild_keys_of(k: GuildList, guilds: &[u64]) -> (res: Vec<RedisKey>)
    ensures
        res@ == guild_keys(k, guilds@),
{
    let mut keys: Vec<RedisKey> = Vec::new();
    let mut i: usize = 0;
    while i < guilds.len()
        invariant
            i <= guilds@.len(),
            keys@ == guild_keys(k, guilds@.take(i as int)),
        decreases guilds@.len() - i,
    {
        keys.push(k.key(guilds[i]));
        assert(guilds@.take(i + 1) =~= guilds@.take(i as int).push(guilds@[i as int]));
        assert(keys@ =~= guild_keys(k, guilds@.take(i + 1)));
        i = i + 1;
    }
    assert(guilds@.take(i as int) =~= guilds@);
    keys
}

/// The keys of shape `shape` for the ids of `lists[off + i]` in
/// `guilds[i]`, for each guild in turn.
fn pair_keys_of(shape: IdKey, guilds: &[u64], lists: &[Vec<u64>], off: usize) -> (res: Vec<
    RedisKey,
>)
    requires
        off + guilds@.len() <= lists@.len(),
    ensures
        res@ == pair_keys(
            shape,
            guilds@,
            list_views(lists@).subrange(off as int, off + guilds@.len()),
        ),
{
    let ghost block = list_views(lists@).subrange(off as int, off + guilds@.len());
    let total = lists.len();
    let mut keys: Vec<RedisKey> = Vec::new();
    let mut i: usize = 0;
    while i < guilds.len()
        invariant
            i <= guilds@.len(),
            total == lists@.len(),
            off + guilds@.len() <= lists@.len(),
            block == list_views(lists@).subrange(off as int, off + guilds@.len()),
            keys@ == pair_keys(shape, guilds@.take(i as int), block),
        decreases guilds@.len() - i,
    {
        let more = id_keys_of(shape, guilds[i], lists[off + i].as_slice());
        extend_keys(&mut keys, more);
        assert(guilds@.take(i + 1).drop_last() =~= guilds@.take(i as int));
        assert(block[i as int] == lists@[off + i]@);
        i = i + 1;
    }
    assert(guilds@.take(i as int) =~= guilds@);
    keys
}

/// The key of the entry of each guild.
fn guild_entry_keys_of(guilds: &[u64]) -> (res: Vec<RedisKey>)
    ensures
        res@ == guilds@.map_values(|g: u64| RedisKey::Guild { id: g }),
{
    let mut keys: Vec<RedisKey> = Vec::new();
    let mut i: usize = 0;
    while i < guilds.len()
        invariant
            i <= guilds@.len(),
            keys@ == guilds@.take(i as int).map_values(|g: u64| RedisKey::Guild { id: g }),
        decreases guilds@.len() - i,
    {
        keys.push(RedisKey::Guild { id: guilds[i] });
        assert(guilds@.take(i + 1) =~= guilds@.take(i as int).push(guilds@[i as int]));
        assert(keys@ =~= guilds@.take(i + 1).map_values(|g: u64| RedisKey::Guild { id: g }));
        i = i + 1;
    }
    assert(guilds@.take(i as int) =~= guilds@);
    keys
}

/// Whether `lists` holds exactly one list per set read and guild.
fn answer_fits_exec(kinds: usize, guilds: usize, lists: usize) -> (res: bool)
    ensures
        res == (lists == kinds * guilds),
{
    match kinds.checked_mul(guilds) {
        Some(product) => lists == product,
        None => {
            assert(kinds * guilds > usize::MAX);
            false
        },
    }
}

impl Pipe {
    /// Handles the set `k` of all guilds, whose lists are
    /// `lists[off..off + guilds.len()]`: queues its removals and appends the
    /// keys to delete.
    fn handle_multi_list(
        &mut self,
        guilds: &[u64],
        k: GuildList,
        lists: &[Vec<u64>],
        off: usize,
        counts: &[usize],
        keys: &mut Vec<RedisKey>,
    )
        requires
            off + guilds@.len() <= lists@.len(),
        ensures
            final(self).cmds() == old(self).cmds() + multi_list_srems(
                old(self).settings(),
                k,
                list_views(lists@).subrange(off as int, off + guilds@.len()),
            ),
            final(self).settings() == old(self).settings(),
            final(keys)@ == old(keys)@ + multi_list_keys(
                old(self).settings(),
                guilds@,
                k,
                list_views(lists@).subrange(off as int, off + guilds@.len()),
                counts@,
            ),
            old(self).ignores_only_expires() ==> final(self).ignores_only_expires(),
    {
        let ghost start = self.cmds();
        let ghost block = list_views(lists@).subrange(off as int, off + guilds@.len());
        let s = *self.settings_ref();
        let n = guilds.len();
        if k == GuildList::Members {
            if s.user.wanted {
                let users = flat_of(lists, off, n);
                self.srem(RedisKey::Users, users.as_slice());
                let gone = estranged_of(users.as_slice(), counts);
                extend_keys(keys, id_keys_of(IdKey::User, 0, gone.as_slice()));
            }
            let ghost mid = keys@;
            if s.member.wanted {
                extend_keys(keys, guild_keys_of(k, guilds));
                extend_keys(keys, pair_keys_of(IdKey::Member, guilds, lists, off));
            }
            assert(keys@ =~= old(keys)@ + multi_list_keys(s, guilds@, k, block, counts@));
            assert(self.cmds() =~= start + multi_list_srems(s, k, block));
        } else if keyed_list(k) {
            let e = entry_kind_of(k);
            let ids = flat_of(lists, off, n);
            self.srem(e.all_ids_key(), ids.as_slice());
            if settings_expire(&s, e) {
                extend_keys(keys, id_keys_of(IdKey::Meta(e), 0, ids.as_slice()));
            }
            let ghost mid = keys@;
            extend_keys(keys, id_keys_of(IdKey::Entry(e), 0, ids.as_slice()));
            let ghost mid2 = keys@;
            extend_keys(keys, guild_keys_of(k, guilds));
            assert(keys@ =~= old(keys)@ + multi_list_keys(s, guilds@, k, block, counts@));
            assert(self.cmds() =~= start + multi_list_srems(s, k, block));
        } else {
            extend_keys(keys, pair_keys_of(pair_shape_of(k), guilds, lists, off));
            extend_keys(keys, guild_keys_of(k, guilds));
            assert(keys@ =~= old(keys)@ + multi_list_keys(s, guilds@, k, block, counts@));
            assert(self.cmds() =~= start + multi_list_srems(s, k, block));
        }
    }

    /// Second step of removing several guilds, with the members of their
    /// sets as the store answered them: drops each guild from the guilds of
    /// each of its users and asks how many remain. Returns whether those
    /// counts must be fetched before [`Pipe::delete_guilds_finish`]; fails,
    /// queuing nothing, if the answer does not hold one list per set read
    /// and guild.
    pub fn delete_guilds_users(&mut self, guilds: &[u64], lists: &[Vec<u64>]) -> (res: Result<
        bool,
        CacheError,
    >)
        ensures
            res is Err <==> !answer_fits(old(self).settings(), guilds@.len(), lists@.len()),
            res is Err ==> res == Err::<bool, CacheError>(CacheError::InvalidResponse),
            res is Ok ==> res == Ok::<bool, CacheError>(
                (old(self).settings().member.wanted || old(self).settings().user.wanted)
                    && old(self).settings().user.wanted,
            ),
            final(self).cmds() == old(self).cmds() + (if res == Ok::<bool, CacheError>(true) {
                users_each_cmds(guilds@, list_views(lists@))
            } else {
                Seq::empty()
            }),
            final(self).ignored() == old(self).ignored().union(
                drop_positions(
                    old(self).cmds().len() as int,
                    (final(self).cmds().len() - old(self).cmds().len()) / 2,
                ),
            ),
            final(self).settings() == old(self).settings(),
    {
        let ghost start = self.cmds();
        let ghost start_ignored = self.ignored();
        proof {
            assert(self.ignored() =~= self.ignored().union(drop_positions(start.len() as int, 0)));
        }
        let s = *self.settings_ref();
        let kinds = guild_lists_of(&s);
        if !answer_fits_exec(kinds.len(), guilds.len(), lists.len()) {
            assert(self.cmds() =~= start + Seq::<Seq<Seq<u8>>>::empty());
            return Err(CacheError::InvalidResponse);
        }
        if !s.user.wanted {
            assert(self.cmds() =~= start + Seq::<Seq<Seq<u8>>>::empty());
            return Ok(false);
        }
        assert(kinds@[0] == GuildList::Members);
        assert(kinds@.len() * guilds@.len() >= guilds@.len()) by (nonlinear_arith)
            requires
                kinds@.len() >= 1,
        ;
        let ghost views = list_views(lists@);
        let mut i: usize = 0;
        while i < guilds.len()
            invariant
                i <= guilds@.len(),
                guilds@.len() <= lists@.len(),
                views == list_views(lists@),
                self.cmds() == start + users_each_cmds(guilds@.take(i as int), views),
                (self.cmds().len() - start.len()) % 2 == 0,
                self.ignored() == start_ignored.union(
                    drop_positions(start.len() as int, (self.cmds().len() - start.len()) / 2),
                ),
                self.settings() == s,
            decreases guilds@.len() - i,
        {
            let ghost mid = self.cmds();
            self.drop_guild_from_users(guilds[i], lists[i].as_slice());
            proof {
                lemma_user_guild_len(guilds@[i as int], lists@[i as int]@);
                let done = (mid.len() - start.len()) / 2;
                let added = lists@[i as int]@.len() as int;
                assert(start_ignored.union(drop_positions(start.len() as int, done)).union(
                    drop_positions(mid.len() as int, added),
                ) =~= start_ignored.union(drop_positions(start.len() as int, done + added)));
                let prev = guilds@.take(i as int);
                let next = guilds@.take(i + 1);
                assert(next.drop_last() =~= prev);
                assert(views[i as int] == lists@[i as int]@);
                assert(start + users_each_cmds(prev, views) + user_guild_cmds(
                    guilds@[i as int],
                    views[i as int],
                ) =~= start + users_each_cmds(next, views));
            }
            i = i + 1;
        }
        assert(guilds@.take(i as int) =~= guilds@);
        Ok(true)
    }

    /// Last step of removing several guilds, with the members of their sets
    /// as the store answered them and the counts of guilds their users have
    /// left: queues the removals from the sets of all ids and the guilds'
    /// ids out of the guilds, then deletes every key at once. Fails, queuing
    /// nothing, if the answer does not hold one list per set read and guild.
    pub fn delete_guilds_finish(
        &mut self,
        guilds: &[u64],
        lists: &[Vec<u64>],
        counts: &[usize],
    ) -> (res: Result<(), CacheError>)
        ensures
            res is Err <==> !answer_fits(old(self).settings(), guilds@.len(), lists@.len()),
            res is Err ==> res == Err::<(), CacheError>(CacheError::InvalidResponse),
            final(self).cmds() == old(self).cmds() + (if res is Ok {
                delete_guilds_finish_cmds(old(self).settings(), guilds@, list_views(lists@), counts@)
            } else {
                Seq::empty()
            }),
            final(self).settings() == old(self).settings(),
            old(self).ignores_only_expires() ==> final(self).ignores_only_expires(),
    {
        let ghost start = self.cmds();
        let s = *self.settings_ref();
        let kinds = guild_lists_of(&s);
        if !answer_fits_exec(kinds.len(), guilds.len(), lists.len()) {
            assert(self.cmds() =~= start + Seq::<Seq<Seq<u8>>>::empty());
            return Err(CacheError::InvalidResponse);
        }
        let ghost views = list_views(lists@);
        let ghost n = guilds@.len() as int;
        let total = lists.len();
        let mut keys: Vec<RedisKey> = Vec::new();
        let mut off: usize = 0;
        let mut j: usize = 0;
        while j < kinds.len()
            invariant
                old(self).ignores_only_expires() ==> self.ignores_only_expires(),
                j <= kinds@.len(),
                total == lists@.len(),
                lists@.len() == kinds@.len() * guilds@.len(),
                n == guilds@.len(),
                off == j * n,
                views == list_views(lists@),
                self.cmds() == start + multi_srems(s, n, kinds@.take(j as int), views),
                keys@ == multi_keys(s, guilds@, kinds@.take(j as int), views, counts@),
                self.settings() == s,
            decreases kinds@.len() - j,
        {
            assert(off + n <= lists@.len()) by (nonlinear_arith)
                requires
                    off == j * n,
                    j < kinds@.len(),
                    lists@.len() == kinds@.len() * n,
                    n >= 0,
            ;
            self.handle_multi_list(guilds, kinds[j], lists, off, counts, &mut keys);
            proof {
                let prev = kinds@.take(j as int);
                let next = kinds@.take(j + 1);
                assert(next.drop_last() =~= prev);
                assert(next.last() == kinds@[j as int]);
                assert(block_of(views, j as int, n) == views.subrange(off as int, off + n));
                assert(start + multi_srems(s, n, prev, views) + multi_list_srems(
                    s,
                    kinds@[j as int],
                    block_of(views, j as int, n),
                ) =~= start + multi_srems(s, n, next, views));
            }
            assert((j + 1) * n == j * n + n) by (nonlinear_arith);
            off = off + guilds.len();
            j = j + 1;
        }
        assert(kinds@.take(j as int) =~= kinds@);
        if s.guild.wanted {
            extend_keys(&mut keys, guild_entry_keys_of(guilds));
            self.srem(RedisKey::Guilds, guilds);
        }
        assert(keys@ =~= delete_guilds_keys(s, guilds@, views, counts@));
        if keys.len() > 0 {
            self.del(keys.as_slice());
        }
        assert(self.cmds() =~= start + delete_guilds_finish_cmds(s, guilds@, views, counts@));
        Ok(())
    }
}

} // verus!
