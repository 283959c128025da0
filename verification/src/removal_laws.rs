//! Removing several guilds at once does what removing each of them does.
use vstd::prelude::*;

use crate::cache::guild::{guild_list_key, guild_lists, GuildList};
use crate::cache::guild_delete::{
    delete_guild_keys, finish_keys, id_key, id_keys, is_keyed_list, list_entry_kind, list_keys,
    list_pair_shape, IdKey,
};
use crate::cache::guilds_delete::{
    block_of, delete_guilds_keys, flat, guild_keys, multi_keys, multi_list_keys, pair_keys,
};
use crate::cache::guild_delete::{delete_guild_finish_cmds, finish_srems, list_srems};
use crate::cache::guilds_delete::{delete_guilds_finish_cmds, multi_list_srems, multi_srems};
use crate::config::CacheSettings;
use crate::decimal::dec;
use crate::key::{key_bytes, RedisKey};
use crate::laws::{
    cmd_deletes, cmd_removes, deletes, lemma_adds_concat, lemma_adds_one, lemma_writes_concat,
    lemma_writes_one, removes, SetMember,
};
use crate::pipe::{cmd_del, cmd_srem, key_texts, name_del, name_srem, name_zrem};

verus! {

/// A sequence joined to another holds what either holds.
proof fn lemma_concat_contains<A>(a: Seq<A>, b: Seq<A>, x: A)
    ensures
        (a + b).contains(x) <==> (a.contains(x) || b.contains(x)),
{
    if a.contains(x) {
        let i = choose|i: int| 0 <= i < a.len() && a[i] == x;
        assert((a + b)[i] == x);
    }
    if b.contains(x) {
        let j = choose|j: int| 0 <= j < b.len() && b[j] == x;
        assert((a + b)[a.len() + j] == x);
    }
    if (a + b).contains(x) {
        let i = choose|i: int| 0 <= i < (a + b).len() && (a + b)[i] == x;
        if i < a.len() {
            assert(a[i] == x);
        } else {
            assert(b[i - a.len()] == x);
        }
    }
}

/// The keys of shape `shape` for `ids` in `guild` are the key of each id.
proof fn lemma_id_keys_contains(shape: IdKey, guild: u64, ids: Seq<u64>, k: RedisKey)
    ensures
        id_keys(shape, guild, ids).contains(k) <==> exists|j: int|
            0 <= j < ids.len() && k == id_key(shape, guild, ids[j]),
{
    if id_keys(shape, guild, ids).contains(k) {
        let j = choose|j: int| 0 <= j < id_keys(shape, guild, ids).len() && id_keys(shape, guild, ids)[j] == k;
        assert(k == id_key(shape, guild, ids[j]));
    }
    if exists|j: int| 0 <= j < ids.len() && k == id_key(shape, guild, ids[j]) {
        let j = choose|j: int| 0 <= j < ids.len() && k == id_key(shape, guild, ids[j]);
        assert(id_keys(shape, guild, ids)[j] == k);
    }
}

/// The lists of guild `i` in an answer for `n` guilds: the `i`-th list of
/// each of the `m` blocks.
pub open spec fn lists_of_guild(lists: Seq<Seq<u64>>, i: int, n: int, m: int) -> Seq<Seq<u64>> {
    Seq::new(m as nat, |j: int| lists[j * n + i])
}

/// The ids of a block of lists are those of its lists.
proof fn lemma_flat_contains(block: Seq<Seq<u64>>, x: u64)
    ensures
        flat(block).contains(x) <==> exists|i: int| 0 <= i < block.len() && #[trigger] block[i].contains(x),
    decreases block.len(),
{
    if block.len() > 0 {
        let rest = block.drop_last();
        lemma_flat_contains(rest, x);
        lemma_concat_contains(flat(rest), block.last(), x);
        if exists|i: int| 0 <= i < block.len() && #[trigger] block[i].contains(x) {
            let i = choose|i: int| 0 <= i < block.len() && #[trigger] block[i].contains(x);
            if i < rest.len() {
                assert(rest[i] == block[i]);
            }
        }
        if flat(rest).contains(x) {
            let i = choose|i: int| 0 <= i < rest.len() && #[trigger] rest[i].contains(x);
            assert(block[i] == rest[i]);
        }
    }
}

/// The keys of the set `k` of each guild.
proof fn lemma_guild_keys_contains(k: GuildList, guilds: Seq<u64>, key: RedisKey)
    ensures
        guild_keys(k, guilds).contains(key) <==> exists|i: int|
            0 <= i < guilds.len() && key == guild_list_key(k, guilds[i]),
{
    if guild_keys(k, guilds).contains(key) {
        let i = choose|i: int| 0 <= i < guild_keys(k, guilds).len() && guild_keys(k, guilds)[i] == key;
        assert(key == guild_list_key(k, guilds[i]));
    }
    if exists|i: int| 0 <= i < guilds.len() && key == guild_list_key(k, guilds[i]) {
        let i = choose|i: int| 0 <= i < guilds.len() && key == guild_list_key(k, guilds[i]);
        assert(guild_keys(k, guilds)[i] == key);
    }
}

/// The keys of each guild's entries of shape `shape` are those of each
/// guild.
proof fn lemma_pair_keys_contains(shape: IdKey, guilds: Seq<u64>, block: Seq<Seq<u64>>, k: RedisKey)
    requires
        block.len() >= guilds.len(),
    ensures
        pair_keys(shape, guilds, block).contains(k) <==> exists|i: int|
            0 <= i < guilds.len() && #[trigger] id_keys(shape, guilds[i], block[i]).contains(k),
    decreases guilds.len(),
{
    if guilds.len() > 0 {
        let rest = guilds.drop_last();
        let n = guilds.len() - 1;
        lemma_pair_keys_contains(shape, rest, block, k);
        lemma_concat_contains(pair_keys(shape, rest, block), id_keys(shape, guilds.last(), block[n]), k);
        if exists|i: int| 0 <= i < guilds.len() && #[trigger] id_keys(shape, guilds[i], block[i]).contains(k) {
            let i = choose|i: int| 0 <= i < guilds.len() && #[trigger] id_keys(shape, guilds[i], block[i]).contains(k);
            if i < n {
                assert(rest[i] == guilds[i]);
            }
        }
        if pair_keys(shape, rest, block).contains(k) {
            let i = choose|i: int| 0 <= i < rest.len() && #[trigger] id_keys(shape, rest[i], block[i]).contains(k);
            assert(guilds[i] == rest[i]);
        }
    }
}

/// For the shapes of entries stored under their own id, the keys for all
/// ids of a block are those for each guild's ids.
proof fn lemma_flat_keys_contains(shape: IdKey, guilds: Seq<u64>, block: Seq<Seq<u64>>, k: RedisKey)
    requires
        shape is Entry || shape is Meta,
        block.len() == guilds.len(),
    ensures
        id_keys(shape, 0, flat(block)).contains(k) <==> exists|i: int|
            0 <= i < guilds.len() && #[trigger] id_keys(shape, guilds[i], block[i]).contains(k),
{
    lemma_id_keys_contains(shape, 0, flat(block), k);
    if id_keys(shape, 0, flat(block)).contains(k) {
        let j = choose|j: int| 0 <= j < flat(block).len() && k == id_key(shape, 0, flat(block)[j]);
        let x = flat(block)[j];
        assert(flat(block).contains(x));
        lemma_flat_contains(block, x);
        let i = choose|i: int| 0 <= i < block.len() && #[trigger] block[i].contains(x);
        let jj = choose|jj: int| 0 <= jj < block[i].len() && block[i][jj] == x;
        lemma_id_keys_contains(shape, guilds[i], block[i], k);
        assert(k == id_key(shape, guilds[i], block[i][jj]));
    }
    if exists|i: int| 0 <= i < guilds.len() && #[trigger] id_keys(shape, guilds[i], block[i]).contains(k) {
        let i = choose|i: int| 0 <= i < guilds.len() && #[trigger] id_keys(shape, guilds[i], block[i]).contains(k);
        lemma_id_keys_contains(shape, guilds[i], block[i], k);
        let jj = choose|jj: int| 0 <= jj < block[i].len() && k == id_key(shape, guilds[i], block[i][jj]);
        let x = block[i][jj];
        assert(block[i].contains(x));
        lemma_flat_contains(block, x);
        let j = choose|j: int| 0 <= j < flat(block).len() && flat(block)[j] == x;
        assert(k == id_key(shape, 0, flat(block)[j]));
    }
}

/// A sequence of one item holds just that item.
proof fn lemma_one_contains<A>(a: A, x: A)
    ensures
        seq![a].contains(x) <==> x == a,
{
    if x == a {
        assert(seq![a][0] == x);
    }
}

/// For one set of the guilds, the keys that removing them all deletes are
/// those that removing each deletes, when users are not cached.
proof fn lemma_list_keys_union(
    s: CacheSettings,
    guilds: Seq<u64>,
    k: GuildList,
    block: Seq<Seq<u64>>,
    counts: Seq<usize>,
    key: RedisKey,
)
    requires
        !s.user.wanted,
        block.len() == guilds.len(),
    ensures
        multi_list_keys(s, guilds, k, block, counts).contains(key) <==> exists|i: int|
            0 <= i < guilds.len() && #[trigger] list_keys(s, guilds[i], k, block[i], counts).contains(key),
{
    let n = guilds.len() as int;
    let e = Seq::<RedisKey>::empty();
    lemma_guild_keys_contains(k, guilds, key);
    if k == GuildList::Members {
        lemma_pair_keys_contains(IdKey::Member, guilds, block, key);
        lemma_concat_contains(guild_keys(k, guilds), pair_keys(IdKey::Member, guilds, block), key);
        assert forall|i: int| 0 <= i < n implies (#[trigger] list_keys(s, guilds[i], k, block[i], counts).contains(key) <==> (s.member.wanted && (key == guild_list_key(k, guilds[i]) || id_keys(IdKey::Member, guilds[i], block[i]).contains(key)))) by {
            let one = seq![RedisKey::GuildMembers { id: guilds[i] }];
            lemma_one_contains(RedisKey::GuildMembers { id: guilds[i] }, key);
            lemma_concat_contains(one, id_keys(IdKey::Member, guilds[i], block[i]), key);
            if s.member.wanted {
                assert(list_keys(s, guilds[i], k, block[i], counts) =~= one + id_keys(IdKey::Member, guilds[i], block[i]));
            } else {
                assert(list_keys(s, guilds[i], k, block[i], counts) =~= e);
            }
        }
        if s.member.wanted {
            assert(multi_list_keys(s, guilds, k, block, counts) =~= guild_keys(k, guilds) + pair_keys(IdKey::Member, guilds, block));
            if guild_keys(k, guilds).contains(key) {
                let i = choose|i: int| 0 <= i < guilds.len() && key == guild_list_key(k, guilds[i]);
                assert(list_keys(s, guilds[i], k, block[i], counts).contains(key));
            }
            if pair_keys(IdKey::Member, guilds, block).contains(key) {
                let i = choose|i: int| 0 <= i < guilds.len() && #[trigger] id_keys(IdKey::Member, guilds[i], block[i]).contains(key);
                assert(list_keys(s, guilds[i], k, block[i], counts).contains(key));
            }
            if exists|i: int| 0 <= i < guilds.len() && #[trigger] list_keys(s, guilds[i], k, block[i], counts).contains(key) {
                let i = choose|i: int| 0 <= i < guilds.len() && #[trigger] list_keys(s, guilds[i], k, block[i], counts).contains(key);
                if key == guild_list_key(k, guilds[i]) {
                    assert(guild_keys(k, guilds).contains(key));
                } else {
                    assert(id_keys(IdKey::Member, guilds[i], block[i]).contains(key));
                    assert(pair_keys(IdKey::Member, guilds, block).contains(key));
                }
            }
        } else {
            assert(multi_list_keys(s, guilds, k, block, counts) =~= e);
            if exists|i: int| 0 <= i < guilds.len() && #[trigger] list_keys(s, guilds[i], k, block[i], counts).contains(key) {
                let i = choose|i: int| 0 <= i < guilds.len() && #[trigger] list_keys(s, guilds[i], k, block[i], counts).contains(key);
                assert(false);
            }
        }
    } else if is_keyed_list(k) {
        let ek = list_entry_kind(k);
        let expires = crate::cache::common::kind_settings(s, ek).expires();
        let meta: Seq<RedisKey> = if expires { id_keys(IdKey::Meta(ek), 0, flat(block)) } else { e };
        lemma_flat_keys_contains(IdKey::Meta(ek), guilds, block, key);
        lemma_flat_keys_contains(IdKey::Entry(ek), guilds, block, key);
        lemma_concat_contains(meta, id_keys(IdKey::Entry(ek), 0, flat(block)), key);
        lemma_concat_contains(meta + id_keys(IdKey::Entry(ek), 0, flat(block)), guild_keys(k, guilds), key);
        assert(multi_list_keys(s, guilds, k, block, counts) =~= meta + id_keys(IdKey::Entry(ek), 0, flat(block)) + guild_keys(k, guilds));
        assert forall|i: int| 0 <= i < n implies (#[trigger] list_keys(s, guilds[i], k, block[i], counts).contains(key) <==> (key == guild_list_key(k, guilds[i]) || (expires && id_keys(IdKey::Meta(ek), guilds[i], block[i]).contains(key)) || id_keys(IdKey::Entry(ek), guilds[i], block[i]).contains(key))) by {
            let one = seq![guild_list_key(k, guilds[i])];
            let m: Seq<RedisKey> = if expires { id_keys(IdKey::Meta(ek), guilds[i], block[i]) } else { e };
            lemma_one_contains(guild_list_key(k, guilds[i]), key);
            lemma_concat_contains(one, m, key);
            lemma_concat_contains(one + m, id_keys(IdKey::Entry(ek), guilds[i], block[i]), key);
            assert(list_keys(s, guilds[i], k, block[i], counts) =~= one + m + id_keys(IdKey::Entry(ek), guilds[i], block[i]));
        }
        if multi_list_keys(s, guilds, k, block, counts).contains(key) {
            if guild_keys(k, guilds).contains(key) {
                let i = choose|i: int| 0 <= i < guilds.len() && key == guild_list_key(k, guilds[i]);
                assert(list_keys(s, guilds[i], k, block[i], counts).contains(key));
            } else if meta.contains(key) {
                let i = choose|i: int| 0 <= i < guilds.len() && #[trigger] id_keys(IdKey::Meta(ek), guilds[i], block[i]).contains(key);
                assert(list_keys(s, guilds[i], k, block[i], counts).contains(key));
            } else {
                let i = choose|i: int| 0 <= i < guilds.len() && #[trigger] id_keys(IdKey::Entry(ek), guilds[i], block[i]).contains(key);
                assert(list_keys(s, guilds[i], k, block[i], counts).contains(key));
            }
        }
        if exists|i: int| 0 <= i < guilds.len() && #[trigger] list_keys(s, guilds[i], k, block[i], counts).contains(key) {
            let i = choose|i: int| 0 <= i < guilds.len() && #[trigger] list_keys(s, guilds[i], k, block[i], counts).contains(key);
            if key == guild_list_key(k, guilds[i]) {
                assert(guild_keys(k, guilds).contains(key));
            } else if expires && id_keys(IdKey::Meta(ek), guilds[i], block[i]).contains(key) {
                assert(meta.contains(key));
            } else {
                assert(id_keys(IdKey::Entry(ek), guilds[i], block[i]).contains(key));
                assert(id_keys(IdKey::Entry(ek), 0, flat(block)).contains(key));
            }
        }
    } else {
        let sh = list_pair_shape(k);
        lemma_pair_keys_contains(sh, guilds, block, key);
        lemma_concat_contains(pair_keys(sh, guilds, block), guild_keys(k, guilds), key);
        assert(multi_list_keys(s, guilds, k, block, counts) =~= pair_keys(sh, guilds, block) + guild_keys(k, guilds));
        assert forall|i: int| 0 <= i < n implies (#[trigger] list_keys(s, guilds[i], k, block[i], counts).contains(key) <==> (key == guild_list_key(k, guilds[i]) || id_keys(sh, guilds[i], block[i]).contains(key))) by {
            let one = seq![guild_list_key(k, guilds[i])];
            lemma_one_contains(guild_list_key(k, guilds[i]), key);
            lemma_concat_contains(one, id_keys(sh, guilds[i], block[i]), key);
            assert(list_keys(s, guilds[i], k, block[i], counts) =~= one + id_keys(sh, guilds[i], block[i]));
        }
        if multi_list_keys(s, guilds, k, block, counts).contains(key) {
            if guild_keys(k, guilds).contains(key) {
                let i = choose|i: int| 0 <= i < guilds.len() && key == guild_list_key(k, guilds[i]);
                assert(list_keys(s, guilds[i], k, block[i], counts).contains(key));
            } else {
                let i = choose|i: int| 0 <= i < guilds.len() && #[trigger] id_keys(sh, guilds[i], block[i]).contains(key);
                assert(list_keys(s, guilds[i], k, block[i], counts).contains(key));
            }
        }
        if exists|i: int| 0 <= i < guilds.len() && #[trigger] list_keys(s, guilds[i], k, block[i], counts).contains(key) {
            let i = choose|i: int| 0 <= i < guilds.len() && #[trigger] list_keys(s, guilds[i], k, block[i], counts).contains(key);
            if key == guild_list_key(k, guilds[i]) {
                assert(guild_keys(k, guilds).contains(key));
            } else {
                assert(id_keys(sh, guilds[i], block[i]).contains(key));
                assert(pair_keys(sh, guilds, block).contains(key));
            }
        }
    }
}

/// The `j`-th block of an answer for `n` guilds holds, for each guild, its
/// `j`-th list.
proof fn lemma_block_lists(lists: Seq<Seq<u64>>, j: int, n: int, m: int)
    requires
        0 <= j < m,
        n >= 0,
        lists.len() == m * n,
    ensures
        block_of(lists, j, n).len() == n,
        forall|i: int| 0 <= i < n ==> #[trigger] block_of(lists, j, n)[i] == lists_of_guild(lists, i, n, m)[j],
{
    assert(j * n + n <= m * n) by (nonlinear_arith)
        requires
            0 <= j < m,
            n >= 0,
    ;
    assert(0 <= j * n) by (nonlinear_arith)
        requires
            0 <= j,
            n >= 0,
    ;
}

/// For the sets `kinds`, the keys that removing all guilds deletes are those
/// that removing each deletes, when users are not cached.
proof fn lemma_multi_keys_union(
    s: CacheSettings,
    guilds: Seq<u64>,
    kinds: Seq<GuildList>,
    lists: Seq<Seq<u64>>,
    counts: Seq<usize>,
    m: int,
    key: RedisKey,
)
    requires
        !s.user.wanted,
        kinds.len() <= m,
        lists.len() == m * guilds.len(),
    ensures
        multi_keys(s, guilds, kinds, lists, counts).contains(key) <==> exists|i: int|
            0 <= i < guilds.len() && #[trigger] finish_keys(
                s,
                guilds[i],
                kinds,
                lists_of_guild(lists, i, guilds.len() as int, m),
                counts,
            ).contains(key),
    decreases kinds.len(),
{
    let n = guilds.len() as int;
    if kinds.len() == 0 {
        if exists|i: int| 0 <= i < n && #[trigger] finish_keys(s, guilds[i], kinds, lists_of_guild(lists, i, n, m), counts).contains(key) {
            let i = choose|i: int| 0 <= i < n && #[trigger] finish_keys(s, guilds[i], kinds, lists_of_guild(lists, i, n, m), counts).contains(key);
            assert(false);
        }
    } else {
        let j = kinds.len() - 1;
        let rest = kinds.drop_last();
        let k = kinds.last();
        let block = block_of(lists, j, n);
        lemma_multi_keys_union(s, guilds, rest, lists, counts, m, key);
        lemma_block_lists(lists, j, n, m);
        lemma_list_keys_union(s, guilds, k, block, counts, key);
        lemma_concat_contains(multi_keys(s, guilds, rest, lists, counts), multi_list_keys(s, guilds, k, block, counts), key);
        assert forall|i: int| 0 <= i < n implies (#[trigger] finish_keys(s, guilds[i], kinds, lists_of_guild(lists, i, n, m), counts).contains(key) <==> (finish_keys(s, guilds[i], rest, lists_of_guild(lists, i, n, m), counts).contains(key) || list_keys(s, guilds[i], k, block[i], counts).contains(key))) by {
            let li = lists_of_guild(lists, i, n, m);
            assert(li[j] == block[i]);
            lemma_concat_contains(finish_keys(s, guilds[i], rest, li, counts), list_keys(s, guilds[i], k, li[j], counts), key);
        }
        if multi_keys(s, guilds, kinds, lists, counts).contains(key) {
            if multi_keys(s, guilds, rest, lists, counts).contains(key) {
                let i = choose|i: int| 0 <= i < n && #[trigger] finish_keys(s, guilds[i], rest, lists_of_guild(lists, i, n, m), counts).contains(key);
                assert(finish_keys(s, guilds[i], kinds, lists_of_guild(lists, i, n, m), counts).contains(key));
            } else {
                let i = choose|i: int| 0 <= i < n && #[trigger] list_keys(s, guilds[i], k, block[i], counts).contains(key);
                assert(finish_keys(s, guilds[i], kinds, lists_of_guild(lists, i, n, m), counts).contains(key));
            }
        }
        if exists|i: int| 0 <= i < n && #[trigger] finish_keys(s, guilds[i], kinds, lists_of_guild(lists, i, n, m), counts).contains(key) {
            let i = choose|i: int| 0 <= i < n && #[trigger] finish_keys(s, guilds[i], kinds, lists_of_guild(lists, i, n, m), counts).contains(key);
            if finish_keys(s, guilds[i], rest, lists_of_guild(lists, i, n, m), counts).contains(key) {
                assert(multi_keys(s, guilds, rest, lists, counts).contains(key));
            } else {
                assert(list_keys(s, guilds[i], k, block[i], counts).contains(key));
                assert(multi_list_keys(s, guilds, k, block, counts).contains(key));
            }
        }
    }
}

/// `SREM key ids` takes each of `ids` out of the set at `key` and deletes
/// no key.
proof fn lemma_srem_effects(key: Seq<u8>, ids: Seq<u64>, p: SetMember)
    ensures
        cmd_removes(cmd_srem(key, ids)).contains(p) <==> (p.0 == key && exists|j: int|
            0 <= j < ids.len() && p.1 == dec(#[trigger] ids[j] as nat)),
        cmd_deletes(cmd_srem(key, ids)) == Set::<Seq<u8>>::empty(),
{
    let c = cmd_srem(key, ids);
    assert(c[0] == name_srem());
    assert(c[1] == key);
    assert(name_srem().len() != name_del().len());
    assert(cmd_deletes(c) =~= Set::<Seq<u8>>::empty());
    if cmd_removes(c).contains(p) {
        let j = choose|j: int| 2 <= j < c.len() && p.1 == c[j];
        assert(c[j] == dec(ids[j - 2] as nat));
    }
    if p.0 == key && exists|j: int| 0 <= j < ids.len() && p.1 == dec(#[trigger] ids[j] as nat) {
        let j = choose|j: int| 0 <= j < ids.len() && p.1 == dec(#[trigger] ids[j] as nat);
        assert(c[j + 2] == dec(ids[j] as nat));
    }
}

/// `DEL` with the text of each of `keys` deletes those keys and takes no
/// member out of a set.
proof fn lemma_del_effects(keys: Seq<RedisKey>, t: Seq<u8>)
    ensures
        cmd_deletes(cmd_del(key_texts(keys))).contains(t) <==> exists|j: int|
            0 <= j < keys.len() && t == key_bytes(#[trigger] keys[j]),
        cmd_removes(cmd_del(key_texts(keys))) == Set::<SetMember>::empty(),
{
    let c = cmd_del(key_texts(keys));
    assert(c[0] == name_del());
    assert(name_srem().len() != name_del().len());
    assert(name_zrem().len() != name_del().len());
    assert(cmd_removes(c) =~= Set::<SetMember>::empty());
    if cmd_deletes(c).contains(t) {
        let j = choose|j: int| 1 <= j < c.len() && t == c[j];
        assert(c[j] == key_bytes(keys[j - 1]));
    }
    if exists|j: int| 0 <= j < keys.len() && t == key_bytes(#[trigger] keys[j]) {
        let j = choose|j: int| 0 <= j < keys.len() && t == key_bytes(#[trigger] keys[j]);
        assert(c[j + 1] == key_bytes(keys[j]));
    }
}

/// No command takes nothing out of a set.
proof fn lemma_removes_empty(p: SetMember)
    ensures
        !removes(Seq::<Seq<Seq<u8>>>::empty()).contains(p),
        deletes(Seq::<Seq<Seq<u8>>>::empty()) == Set::<Seq<u8>>::empty(),
{
}

/// For one set of the guilds, the members that removing them all takes out
/// of the sets of all ids are those that removing each takes out, when
/// users are not cached.
proof fn lemma_list_srems_union(
    s: CacheSettings,
    guilds: Seq<u64>,
    k: GuildList,
    block: Seq<Seq<u64>>,
    counts: Seq<usize>,
    p: SetMember,
)
    requires
        !s.user.wanted,
        block.len() == guilds.len(),
    ensures
        removes(multi_list_srems(s, k, block)).contains(p) <==> exists|i: int|
            0 <= i < guilds.len() && #[trigger] removes(list_srems(s, k, block[i], counts)).contains(p),
        deletes(multi_list_srems(s, k, block)) == Set::<Seq<u8>>::empty(),
        forall|i: int| 0 <= i < guilds.len() ==> #[trigger] deletes(list_srems(s, k, block[i], counts)) == Set::<Seq<u8>>::empty(),
{
    let n = guilds.len() as int;
    let e = Seq::<Seq<Seq<u8>>>::empty();
    lemma_removes_empty(p);
    if k != GuildList::Members && is_keyed_list(k) {
        let key = key_bytes(crate::cache::common::all_ids_key(list_entry_kind(k)));
        let c = cmd_srem(key, flat(block));
        lemma_adds_one(c);
        lemma_writes_one(c);
        lemma_srem_effects(key, flat(block), p);
        assert forall|i: int| 0 <= i < n implies (#[trigger] removes(list_srems(s, k, block[i], counts)).contains(p) <==> (p.0 == key && exists|j: int| 0 <= j < block[i].len() && p.1 == dec(#[trigger] block[i][j] as nat))) && deletes(list_srems(s, k, block[i], counts)) == Set::<Seq<u8>>::empty() by {
            lemma_adds_one(cmd_srem(key, block[i]));
            lemma_writes_one(cmd_srem(key, block[i]));
            lemma_srem_effects(key, block[i], p);
            assert(list_srems(s, k, block[i], counts) == seq![cmd_srem(key, block[i])]);
        }
        assert forall|i: int| 0 <= i < n implies #[trigger] deletes(list_srems(s, k, block[i], counts)) == Set::<Seq<u8>>::empty() by {
            lemma_writes_one(cmd_srem(key, block[i]));
            lemma_srem_effects(key, block[i], p);
            assert(list_srems(s, k, block[i], counts) == seq![cmd_srem(key, block[i])]);
        }
        assert(multi_list_srems(s, k, block) == seq![c]);
        if removes(multi_list_srems(s, k, block)).contains(p) {
            let j = choose|j: int| 0 <= j < flat(block).len() && p.1 == dec(#[trigger] flat(block)[j] as nat);
            let x = flat(block)[j];
            assert(flat(block).contains(x));
            lemma_flat_contains(block, x);
            let i = choose|i: int| 0 <= i < block.len() && #[trigger] block[i].contains(x);
            let jj = choose|jj: int| 0 <= jj < block[i].len() && block[i][jj] == x;
            assert(p.1 == dec(block[i][jj] as nat));
            assert(removes(list_srems(s, k, block[i], counts)).contains(p));
        }
        if exists|i: int| 0 <= i < n && #[trigger] removes(list_srems(s, k, block[i], counts)).contains(p) {
            let i = choose|i: int| 0 <= i < n && #[trigger] removes(list_srems(s, k, block[i], counts)).contains(p);
            let jj = choose|jj: int| 0 <= jj < block[i].len() && p.1 == dec(#[trigger] block[i][jj] as nat);
            let x = block[i][jj];
            assert(block[i].contains(x));
            lemma_flat_contains(block, x);
            let j = choose|j: int| 0 <= j < flat(block).len() && flat(block)[j] == x;
            assert(p.1 == dec(flat(block)[j] as nat));
        }
    } else {
        assert(multi_list_srems(s, k, block) =~= e);
        assert forall|i: int| 0 <= i < n implies #[trigger] deletes(list_srems(s, k, block[i], counts)) == Set::<Seq<u8>>::empty() && list_srems(s, k, block[i], counts) == e by {
            assert(list_srems(s, k, block[i], counts) =~= e);
        }
        if exists|i: int| 0 <= i < n && #[trigger] removes(list_srems(s, k, block[i], counts)).contains(p) {
            let i = choose|i: int| 0 <= i < n && #[trigger] removes(list_srems(s, k, block[i], counts)).contains(p);
            assert(list_srems(s, k, block[i], counts) == e);
            assert(false);
        }
    }
}

/// For the sets `kinds`, the members that removing all guilds takes out of
/// the sets of all ids are those that removing each takes out, when users
/// are not cached; neither deletes a key.
proof fn lemma_multi_srems_union(
    s: CacheSettings,
    guilds: Seq<u64>,
    kinds: Seq<GuildList>,
    lists: Seq<Seq<u64>>,
    counts: Seq<usize>,
    m: int,
    p: SetMember,
)
    requires
        !s.user.wanted,
        kinds.len() <= m,
        lists.len() == m * guilds.len(),
    ensures
        removes(multi_srems(s, guilds.len() as int, kinds, lists)).contains(p) <==> exists|i: int|
            0 <= i < guilds.len() && #[trigger] removes(
                finish_srems(s, kinds, lists_of_guild(lists, i, guilds.len() as int, m), counts),
            ).contains(p),
        deletes(multi_srems(s, guilds.len() as int, kinds, lists)) == Set::<Seq<u8>>::empty(),
        forall|i: int| 0 <= i < guilds.len() ==> #[trigger] deletes(
            finish_srems(s, kinds, lists_of_guild(lists, i, guilds.len() as int, m), counts),
        ) == Set::<Seq<u8>>::empty(),
    decreases kinds.len(),
{
    let n = guilds.len() as int;
    lemma_removes_empty(p);
    if kinds.len() == 0 {
        assert forall|i: int| 0 <= i < n implies #[trigger] deletes(finish_srems(s, kinds, lists_of_guild(lists, i, n, m), counts)) == Set::<Seq<u8>>::empty() by {
            assert(finish_srems(s, kinds, lists_of_guild(lists, i, n, m), counts) =~= Seq::<Seq<Seq<u8>>>::empty());
        }
        if exists|i: int| 0 <= i < n && #[trigger] removes(finish_srems(s, kinds, lists_of_guild(lists, i, n, m), counts)).contains(p) {
            let i = choose|i: int| 0 <= i < n && #[trigger] removes(finish_srems(s, kinds, lists_of_guild(lists, i, n, m), counts)).contains(p);
            assert(false);
        }
    } else {
        let j = kinds.len() - 1;
        let rest = kinds.drop_last();
        let k = kinds.last();
        let block = block_of(lists, j, n);
        lemma_multi_srems_union(s, guilds, rest, lists, counts, m, p);
        lemma_block_lists(lists, j, n, m);
        lemma_list_srems_union(s, guilds, k, block, counts, p);
        let a = multi_srems(s, n, rest, lists);
        let b = multi_list_srems(s, k, block);
        lemma_adds_concat(a, b);
        lemma_writes_concat(a, b);
        assert(deletes(a + b) =~= Set::<Seq<u8>>::empty());
        assert forall|i: int| 0 <= i < n implies (#[trigger] removes(finish_srems(s, kinds, lists_of_guild(lists, i, n, m), counts)).contains(p) <==> (removes(finish_srems(s, rest, lists_of_guild(lists, i, n, m), counts)).contains(p) || removes(list_srems(s, k, block[i], counts)).contains(p))) && deletes(finish_srems(s, kinds, lists_of_guild(lists, i, n, m), counts)) == Set::<Seq<u8>>::empty() by {
            let li = lists_of_guild(lists, i, n, m);
            assert(li[j] == block[i]);
            let x = finish_srems(s, rest, li, counts);
            let y = list_srems(s, k, block[i], counts);
            assert(finish_srems(s, kinds, li, counts) == x + y);
            assert(deletes(x) == Set::<Seq<u8>>::empty());
            assert(deletes(y) == Set::<Seq<u8>>::empty());
            lemma_adds_concat(x, y);
            lemma_writes_concat(x, y);
            assert(deletes(x + y) =~= Set::<Seq<u8>>::empty());
        }
        assert forall|i: int| 0 <= i < n implies #[trigger] deletes(finish_srems(s, kinds, lists_of_guild(lists, i, n, m), counts)) == Set::<Seq<u8>>::empty() by {
            let li = lists_of_guild(lists, i, n, m);
            assert(li[j] == block[i]);
            let x = finish_srems(s, rest, li, counts);
            let y = list_srems(s, k, block[i], counts);
            assert(finish_srems(s, kinds, li, counts) == x + y);
            assert(deletes(x) == Set::<Seq<u8>>::empty());
            assert(deletes(y) == Set::<Seq<u8>>::empty());
            lemma_writes_concat(x, y);
            assert(deletes(x + y) =~= Set::<Seq<u8>>::empty());
        }
        if removes(a + b).contains(p) {
            if removes(a).contains(p) {
                let i = choose|i: int| 0 <= i < n && #[trigger] removes(finish_srems(s, rest, lists_of_guild(lists, i, n, m), counts)).contains(p);
                assert(removes(finish_srems(s, kinds, lists_of_guild(lists, i, n, m), counts)).contains(p));
            } else {
                let i = choose|i: int| 0 <= i < n && #[trigger] removes(list_srems(s, k, block[i], counts)).contains(p);
                assert(removes(finish_srems(s, kinds, lists_of_guild(lists, i, n, m), counts)).contains(p));
            }
        }
        if exists|i: int| 0 <= i < n && #[trigger] removes(finish_srems(s, kinds, lists_of_guild(lists, i, n, m), counts)).contains(p) {
            let i = choose|i: int| 0 <= i < n && #[trigger] removes(finish_srems(s, kinds, lists_of_guild(lists, i, n, m), counts)).contains(p);
            if removes(finish_srems(s, rest, lists_of_guild(lists, i, n, m), counts)).contains(p) {
                assert(removes(a).contains(p));
            } else {
                assert(removes(list_srems(s, k, block[i], counts)).contains(p));
                assert(removes(b).contains(p));
            }
        }
        assert(multi_srems(s, n, kinds, lists) == a + b);
    }
}

/// The keys that removing all guilds deletes are those that removing each
/// deletes, when users are not cached.
proof fn lemma_delete_keys_union(
    s: CacheSettings,
    guilds: Seq<u64>,
    lists: Seq<Seq<u64>>,
    counts: Seq<usize>,
    key: RedisKey,
)
    requires
        !s.user.wanted,
        lists.len() == guild_lists(s).len() * guilds.len(),
    ensures
        delete_guilds_keys(s, guilds, lists, counts).contains(key) <==> exists|i: int|
            0 <= i < guilds.len() && #[trigger] delete_guild_keys(
                s,
                guilds[i],
                lists_of_guild(lists, i, guilds.len() as int, guild_lists(s).len() as int),
                counts,
            ).contains(key),
{
    let n = guilds.len() as int;
    let m = guild_lists(s).len() as int;
    let kinds = guild_lists(s);
    let e = Seq::<RedisKey>::empty();
    lemma_multi_keys_union(s, guilds, kinds, lists, counts, m, key);
    let gk: Seq<RedisKey> = if s.guild.wanted { guilds.map_values(|g: u64| RedisKey::Guild { id: g }) } else { e };
    lemma_concat_contains(multi_keys(s, guilds, kinds, lists, counts), gk, key);
    assert(delete_guilds_keys(s, guilds, lists, counts) == multi_keys(s, guilds, kinds, lists, counts) + gk);
    assert forall|i: int| 0 <= i < n implies (#[trigger] delete_guild_keys(s, guilds[i], lists_of_guild(lists, i, n, m), counts).contains(key) <==> (finish_keys(s, guilds[i], kinds, lists_of_guild(lists, i, n, m), counts).contains(key) || (s.guild.wanted && key == (RedisKey::Guild { id: guilds[i] })))) by {
        let one: Seq<RedisKey> = if s.guild.wanted { seq![RedisKey::Guild { id: guilds[i] }] } else { e };
        lemma_one_contains(RedisKey::Guild { id: guilds[i] }, key);
        lemma_concat_contains(finish_keys(s, guilds[i], kinds, lists_of_guild(lists, i, n, m), counts), one, key);
    }
    if gk.contains(key) {
        let i = choose|i: int| 0 <= i < gk.len() && gk[i] == key;
        assert(key == (RedisKey::Guild { id: guilds[i] }));
        assert(delete_guild_keys(s, guilds[i], lists_of_guild(lists, i, n, m), counts).contains(key));
    }
    if multi_keys(s, guilds, kinds, lists, counts).contains(key) {
        let i = choose|i: int| 0 <= i < n && #[trigger] finish_keys(s, guilds[i], kinds, lists_of_guild(lists, i, n, m), counts).contains(key);
        assert(delete_guild_keys(s, guilds[i], lists_of_guild(lists, i, n, m), counts).contains(key));
    }
    if exists|i: int| 0 <= i < n && #[trigger] delete_guild_keys(s, guilds[i], lists_of_guild(lists, i, n, m), counts).contains(key) {
        let i = choose|i: int| 0 <= i < n && #[trigger] delete_guild_keys(s, guilds[i], lists_of_guild(lists, i, n, m), counts).contains(key);
        if !finish_keys(s, guilds[i], kinds, lists_of_guild(lists, i, n, m), counts).contains(key) {
            assert(gk[i] == key);
        }
    }
}

/// A deletion of `keys`, if there are any: it deletes their texts and takes
/// nothing out of a set.
proof fn lemma_del_piece(keys: Seq<RedisKey>, t: Seq<u8>, p: SetMember)
    ensures
        deletes(if keys.len() > 0 { seq![cmd_del(key_texts(keys))] } else { Seq::empty() }).contains(t)
            <==> exists|j: int| 0 <= j < keys.len() && t == key_bytes(#[trigger] keys[j]),
        !removes(if keys.len() > 0 { seq![cmd_del(key_texts(keys))] } else { Seq::empty() }).contains(p),
{
    lemma_removes_empty(p);
    if keys.len() > 0 {
        lemma_adds_one(cmd_del(key_texts(keys)));
        lemma_writes_one(cmd_del(key_texts(keys)));
        lemma_del_effects(keys, t);
    }
}

/// Taking `ids` out of the guilds, if guilds are cached: it deletes nothing.
proof fn lemma_guilds_piece(s: CacheSettings, ids: Seq<u64>, p: SetMember)
    ensures
        removes(if s.guild.wanted { seq![cmd_srem(key_bytes(RedisKey::Guilds), ids)] } else { Seq::empty() }).contains(p)
            <==> (s.guild.wanted && p.0 == key_bytes(RedisKey::Guilds) && exists|j: int|
            0 <= j < ids.len() && p.1 == dec(#[trigger] ids[j] as nat)),
        deletes(if s.guild.wanted { seq![cmd_srem(key_bytes(RedisKey::Guilds), ids)] } else { Seq::empty() })
            == Set::<Seq<u8>>::empty(),
{
    lemma_removes_empty(p);
    if s.guild.wanted {
        let c = cmd_srem(key_bytes(RedisKey::Guilds), ids);
        lemma_adds_one(c);
        lemma_writes_one(c);
        lemma_srem_effects(key_bytes(RedisKey::Guilds), ids, p);
    }
}

/// The lists of guild `i` of an answer for `guilds`, in the order of the
/// sets that are read.
pub open spec fn guild_answer(s: CacheSettings, guilds: Seq<u64>, lists: Seq<Seq<u64>>, i: int) -> Seq<
    Seq<u64>,
> {
    lists_of_guild(lists, i, guilds.len() as int, guild_lists(s).len() as int)
}

/// What the last step of removing all guilds deletes and takes out of sets,
/// one key text or member at a time.
proof fn lemma_finish_union_one(
    s: CacheSettings,
    guilds: Seq<u64>,
    lists: Seq<Seq<u64>>,
    counts: Seq<usize>,
    t: Seq<u8>,
    p: SetMember,
)
    requires
        !s.user.wanted,
        lists.len() == guild_lists(s).len() * guilds.len(),
    ensures
        deletes(delete_guilds_finish_cmds(s, guilds, lists, counts)).contains(t) <==> exists|i: int|
            0 <= i < guilds.len() && #[trigger] deletes(
                delete_guild_finish_cmds(s, guilds[i], guild_answer(s, guilds, lists, i), counts),
            ).contains(t),
        removes(delete_guilds_finish_cmds(s, guilds, lists, counts)).contains(p) <==> exists|i: int|
            0 <= i < guilds.len() && #[trigger] removes(
                delete_guild_finish_cmds(s, guilds[i], guild_answer(s, guilds, lists, i), counts),
            ).contains(p),
{
    let n = guilds.len() as int;
    let m = guild_lists(s).len() as int;
    let kinds = guild_lists(s);
    let e = Seq::<Seq<Seq<u8>>>::empty();
    let keys = delete_guilds_keys(s, guilds, lists, counts);
    let a = multi_srems(s, n, kinds, lists);
    let b: Seq<Seq<Seq<u8>>> = if s.guild.wanted { seq![cmd_srem(key_bytes(RedisKey::Guilds), guilds)] } else { e };
    let c: Seq<Seq<Seq<u8>>> = if keys.len() > 0 { seq![cmd_del(key_texts(keys))] } else { e };
    assert(delete_guilds_finish_cmds(s, guilds, lists, counts) == a + b + c);
    lemma_multi_srems_union(s, guilds, kinds, lists, counts, m, p);
    lemma_guilds_piece(s, guilds, p);
    lemma_del_piece(keys, t, p);
    lemma_adds_concat(a, b);
    lemma_adds_concat(a + b, c);
    lemma_writes_concat(a, b);
    lemma_writes_concat(a + b, c);
    assert forall|i: int| 0 <= i < n implies
        (#[trigger] deletes(delete_guild_finish_cmds(s, guilds[i], guild_answer(s, guilds, lists, i), counts)).contains(t)
            <==> exists|j: int| 0 <= j < delete_guild_keys(s, guilds[i], guild_answer(s, guilds, lists, i), counts).len()
            && t == key_bytes(#[trigger] delete_guild_keys(s, guilds[i], guild_answer(s, guilds, lists, i), counts)[j]))
    by {
        let li = guild_answer(s, guilds, lists, i);
        let ki = delete_guild_keys(s, guilds[i], li, counts);
        let ai = finish_srems(s, kinds, li, counts);
        let bi: Seq<Seq<Seq<u8>>> = if s.guild.wanted { seq![cmd_srem(key_bytes(RedisKey::Guilds), seq![guilds[i]])] } else { e };
        let ci: Seq<Seq<Seq<u8>>> = if ki.len() > 0 { seq![cmd_del(key_texts(ki))] } else { e };
        assert(delete_guild_finish_cmds(s, guilds[i], li, counts) == ai + bi + ci);
        lemma_guilds_piece(s, seq![guilds[i]], p);
        lemma_del_piece(ki, t, p);
        lemma_writes_concat(ai, bi);
        lemma_writes_concat(ai + bi, ci);
        assert(deletes(ai) == Set::<Seq<u8>>::empty());
    }
    assert forall|i: int| 0 <= i < n implies
        (#[trigger] removes(delete_guild_finish_cmds(s, guilds[i], guild_answer(s, guilds, lists, i), counts)).contains(p)
            <==> (removes(finish_srems(s, kinds, guild_answer(s, guilds, lists, i), counts)).contains(p)
            || (s.guild.wanted && p.0 == key_bytes(RedisKey::Guilds) && p.1 == dec(guilds[i] as nat))))
    by {
        let li = guild_answer(s, guilds, lists, i);
        let ki = delete_guild_keys(s, guilds[i], li, counts);
        let ai = finish_srems(s, kinds, li, counts);
        let bi: Seq<Seq<Seq<u8>>> = if s.guild.wanted { seq![cmd_srem(key_bytes(RedisKey::Guilds), seq![guilds[i]])] } else { e };
        let ci: Seq<Seq<Seq<u8>>> = if ki.len() > 0 { seq![cmd_del(key_texts(ki))] } else { e };
        assert(delete_guild_finish_cmds(s, guilds[i], li, counts) == ai + bi + ci);
        lemma_guilds_piece(s, seq![guilds[i]], p);
        lemma_del_piece(ki, t, p);
        lemma_adds_concat(ai, bi);
        lemma_adds_concat(ai + bi, ci);
        if s.guild.wanted && p.0 == key_bytes(RedisKey::Guilds) && p.1 == dec(guilds[i] as nat) {
            assert(seq![guilds[i]][0] == guilds[i]);
        }
    }
    // what is deleted
    if deletes(delete_guilds_finish_cmds(s, guilds, lists, counts)).contains(t) {
        let j = choose|j: int| 0 <= j < keys.len() && t == key_bytes(#[trigger] keys[j]);
        let key = keys[j];
        assert(keys.contains(key));
        lemma_delete_keys_union(s, guilds, lists, counts, key);
        let i = choose|i: int| 0 <= i < n && #[trigger] delete_guild_keys(s, guilds[i], lists_of_guild(lists, i, n, m), counts).contains(key);
        let ki = delete_guild_keys(s, guilds[i], guild_answer(s, guilds, lists, i), counts);
        let jj = choose|jj: int| 0 <= jj < ki.len() && ki[jj] == key;
        assert(t == key_bytes(ki[jj]));
        assert(deletes(delete_guild_finish_cmds(s, guilds[i], guild_answer(s, guilds, lists, i), counts)).contains(t));
    }
    if exists|i: int| 0 <= i < n && #[trigger] deletes(delete_guild_finish_cmds(s, guilds[i], guild_answer(s, guilds, lists, i), counts)).contains(t) {
        let i = choose|i: int| 0 <= i < n && #[trigger] deletes(delete_guild_finish_cmds(s, guilds[i], guild_answer(s, guilds, lists, i), counts)).contains(t);
        let ki = delete_guild_keys(s, guilds[i], guild_answer(s, guilds, lists, i), counts);
        let jj = choose|jj: int| 0 <= jj < ki.len() && t == key_bytes(#[trigger] ki[jj]);
        let key = ki[jj];
        assert(ki.contains(key));
        lemma_delete_keys_union(s, guilds, lists, counts, key);
        let j = choose|j: int| 0 <= j < keys.len() && keys[j] == key;
        assert(t == key_bytes(keys[j]));
    }
    // what is taken out of sets
    if removes(delete_guilds_finish_cmds(s, guilds, lists, counts)).contains(p) {
        if removes(a).contains(p) {
            let i = choose|i: int| 0 <= i < n && #[trigger] removes(finish_srems(s, kinds, lists_of_guild(lists, i, n, m), counts)).contains(p);
            assert(removes(delete_guild_finish_cmds(s, guilds[i], guild_answer(s, guilds, lists, i), counts)).contains(p));
        } else {
            let j = choose|j: int| 0 <= j < guilds.len() && p.1 == dec(#[trigger] guilds[j] as nat);
            assert(removes(delete_guild_finish_cmds(s, guilds[j], guild_answer(s, guilds, lists, j), counts)).contains(p));
        }
    }
    if exists|i: int| 0 <= i < n && #[trigger] removes(delete_guild_finish_cmds(s, guilds[i], guild_answer(s, guilds, lists, i), counts)).contains(p) {
        let i = choose|i: int| 0 <= i < n && #[trigger] removes(delete_guild_finish_cmds(s, guilds[i], guild_answer(s, guilds, lists, i), counts)).contains(p);
        if removes(finish_srems(s, kinds, guild_answer(s, guilds, lists, i), counts)).contains(p) {
            assert(removes(a).contains(p));
        } else {
            assert(p.1 == dec(guilds[i] as nat));
            assert(removes(b).contains(p));
        }
    }
}

/// Removing several guilds at once removes what removing each of them alone
/// removes, when users are not cached: every key that the last step for all
/// of them deletes, the last step for one of them deletes, and the other way
/// round; and the same of every member taken out of a set.
pub proof fn law_delete_guilds_is_union(
    s: CacheSettings,
    guilds: Seq<u64>,
    lists: Seq<Seq<u64>>,
    counts: Seq<usize>,
)
    requires
        !s.user.wanted,
        lists.len() == guild_lists(s).len() * guilds.len(),
    ensures
        forall|t: Seq<u8>| #[trigger]
            deletes(delete_guilds_finish_cmds(s, guilds, lists, counts)).contains(t) <==> exists|i: int|
                0 <= i < guilds.len() && #[trigger] deletes(
                    delete_guild_finish_cmds(s, guilds[i], guild_answer(s, guilds, lists, i), counts),
                ).contains(t),
        forall|p: SetMember| #[trigger]
            removes(delete_guilds_finish_cmds(s, guilds, lists, counts)).contains(p) <==> exists|i: int|
                0 <= i < guilds.len() && #[trigger] removes(
                    delete_guild_finish_cmds(s, guilds[i], guild_answer(s, guilds, lists, i), counts),
                ).contains(p),
{
    assert forall|t: Seq<u8>| #[trigger]
        deletes(delete_guilds_finish_cmds(s, guilds, lists, counts)).contains(t) <==> exists|i: int|
            0 <= i < guilds.len() && #[trigger] deletes(
                delete_guild_finish_cmds(s, guilds[i], guild_answer(s, guilds, lists, i), counts),
            ).contains(t) by {
        lemma_finish_union_one(s, guilds, lists, counts, t, (Seq::empty(), Seq::empty()));
    }
    assert forall|p: SetMember| #[trigger]
        removes(delete_guilds_finish_cmds(s, guilds, lists, counts)).contains(p) <==> exists|i: int|
            0 <= i < guilds.len() && #[trigger] removes(
                delete_guild_finish_cmds(s, guilds[i], guild_answer(s, guilds, lists, i), counts),
            ).contains(p) by {
        lemma_finish_union_one(s, guilds, lists, counts, Seq::empty(), p);
    }
}

} // verus!
