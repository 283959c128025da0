//! The sets of the guilds and of the unavailable guilds never share an id:
//! storing a guild takes it out of the unavailable guilds, and a guild is
//! only marked unavailable once it was removed.
use vstd::prelude::*;

use crate::cache::guild::{store_guild_entry_cmds, store_guild_parts_cmds};
use crate::cache::common::{store_keyed_cmds, EntryKind};
use crate::cache::role::store_roles_cmds;
use crate::config::CacheSettings;

use crate::key::{key_bytes, RedisKey};
use crate::key_laws::{
    avoids, channels_spared, command_avoids, key_position, keys_fit, lemma_concat_avoids, lemma_guild_parts_avoid, lemma_keyed_avoid, lemma_roles_avoid, lemma_set_avoids, lemma_set_ops_avoid, lemma_update_avoids,
};
use crate::pipe::{
    cmd_sadd, cmd_srem, id_args, name_del, name_mset, name_sadd, name_scard, name_smembers, name_srem, set_command,
};
use crate::segments::{key_of_text, lemma_key_of_text};
use crate::update::{update_cmds, CacheEvent};
use crate::cache::guild::{delete_guild_start_cmds, delete_guilds_start_cmds, guild_lists, GuildList};
use crate::cache::guild_delete::{
    delete_guild_finish_cmds, delete_guild_keys, finish_keys, finish_srems, user_guild_cmds,
};
use crate::cache::guilds_delete::{
    delete_guilds_finish_cmds, delete_guilds_keys, multi_keys, multi_srems, users_each_cmds,
};
use crate::cache::member::{delete_member_finish_cmds, delete_member_start_cmds};
use crate::cache::current_user::store_current_user_cmds;
use crate::key_laws::{
    lemma_current_user_avoids, lemma_del_one_avoids, lemma_one_avoids, lemma_two_avoid,
};
use crate::pipe::{cmd_del, key_texts};
use crate::removal_keys::{
    lemma_del_spared, lemma_finish_keys_spare, lemma_finish_srems_spared, lemma_guild_keys_spare, lemma_guild_lists_roles, lemma_multi_keys_spare, lemma_multi_srems_spared, lemma_smembers_all_spared, lemma_smembers_cmds_spared, lemma_spares_concat, lemma_user_guild_spared, lemma_users_each_spared, spares,
};

verus! {

/// Whether command `c` names the key whose text is `t`.
pub open spec fn names_key(c: Seq<Seq<u8>>, t: Seq<u8>) -> bool {
    exists|j: int| #![trigger c[j]] key_position(c, j) && c[j] == t
}

/// The members of the set under the key whose text is `t` after command `c`,
/// `before` being those before it: `SADD` adds its members, `SREM` takes
/// its members out, `SCARD` and `SMEMBERS` only read, and any other command
/// that names the key (`DEL`, or one that writes another value there)
/// leaves no member.
pub open spec fn set_effect(c: Seq<Seq<u8>>, t: Seq<u8>, before: Set<Seq<u8>>) -> Set<Seq<u8>> {
    if !names_key(c, t) {
        before
    } else if c[0] == name_sadd() {
        before.union(c.subrange(2, c.len() as int).to_set())
    } else if c[0] == name_srem() {
        before.difference(c.subrange(2, c.len() as int).to_set())
    } else if c[0] == name_scard() || c[0] == name_smembers() {
        before
    } else {
        Set::empty()
    }
}

/// The members of the set under the key whose text is `t` after the
/// commands `cmds`, run in order from the members `before`.
pub open spec fn set_after(cmds: Seq<Seq<Seq<u8>>>, t: Seq<u8>, before: Set<Seq<u8>>) -> Set<Seq<u8>>
    decreases cmds.len(),
{
    if cmds.len() == 0 {
        before
    } else {
        set_effect(cmds.last(), t, set_after(cmds.drop_last(), t, before))
    }
}

/// Whether no member is in both sets.
pub open spec fn apart(a: Set<Seq<u8>>, b: Set<Seq<u8>>) -> bool {
    forall|x: Seq<u8>| !(#[trigger] a.contains(x) && b.contains(x))
}

/// The keys of the two sets of guilds.
pub open spec fn is_guild_set_key(k: RedisKey) -> bool {
    k is Guilds || k is UnavailableGuilds
}

/// Running `a` and then `b`.
pub proof fn lemma_after_concat(a: Seq<Seq<Seq<u8>>>, b: Seq<Seq<Seq<u8>>>, t: Seq<u8>, before: Set<Seq<u8>>)
    ensures
        set_after(a + b, t, before) == set_after(b, t, set_after(a, t, before)),
    decreases b.len(),
{
    if b.len() == 0 {
        assert(a + b =~= a);
    } else {
        lemma_after_concat(a, b.drop_last(), t, before);
        assert((a + b).drop_last() =~= a + b.drop_last());
        assert((a + b).last() == b.last());
    }
}

/// Commands that never name the key `k` leave its set as it was.
pub proof fn lemma_after_avoiding(
    bad: spec_fn(RedisKey) -> bool,
    cmds: Seq<Seq<Seq<u8>>>,
    k: RedisKey,
    before: Set<Seq<u8>>,
)
    requires
        avoids(bad, cmds),
        bad(k),
    ensures
        set_after(cmds, key_bytes(k), before) == before,
    decreases cmds.len(),
{
    if cmds.len() > 0 {
        let rest = cmds.drop_last();
        assert(avoids(bad, rest)) by {
            assert forall|i: int| 0 <= i < rest.len() implies command_avoids(bad, #[trigger] rest[i]) by {
                assert(rest[i] == cmds[i]);
            }
        }
        lemma_after_avoiding(bad, rest, k, before);
        let c = cmds.last();
        assert(command_avoids(bad, cmds[cmds.len() - 1]));
        lemma_key_of_text(k);
        if names_key(c, key_bytes(k)) {
            let j = choose|j: int| #![trigger c[j]] key_position(c, j) && c[j] == key_bytes(k);
            assert(!bad(key_of_text(c[j])));
        }
    }
}

/// The set of the decimal texts of one id.
proof fn lemma_one_text(id: u64)
    ensures
        id_args(seq![id]).to_set() == set![crate::decimal::dec(id as nat)],
{
    let d = crate::decimal::dec(id as nat);
    let sq = seq![d];
    assert(id_args(seq![id]) =~= sq);
    assert forall|x: Seq<u8>| sq.to_set().contains(x) <==> set![d].contains(x) by {
        if x == d {
            assert(sq[0] == d);
        }
    }
    assert(sq.to_set() =~= set![d]);
}

/// Running one command.
pub proof fn lemma_after_one(c: Seq<Seq<u8>>, t: Seq<u8>, before: Set<Seq<u8>>)
    ensures
        set_after(seq![c], t, before) == set_effect(c, t, before),
{
    assert(seq![c].drop_last() =~= Seq::<Seq<Seq<u8>>>::empty());
    assert(set_after(Seq::<Seq<Seq<u8>>>::empty(), t, before) == before);
    assert(seq![c].last() == c);
}

/// Adding to or taking out of the set `k` some ids, as that set sees it and
/// as any other key sees it.
pub proof fn lemma_effect_set_ops(k: RedisKey, other: RedisKey, ids: Seq<u64>, before: Set<Seq<u8>>)
    requires
        k != other,
    ensures
        set_effect(cmd_sadd(key_bytes(k), ids), key_bytes(k), before) == before.union(id_args(ids).to_set()),
        set_effect(cmd_srem(key_bytes(k), ids), key_bytes(k), before) == before.difference(id_args(ids).to_set()),
        set_effect(cmd_sadd(key_bytes(k), ids), key_bytes(other), before) == before,
        set_effect(cmd_srem(key_bytes(k), ids), key_bytes(other), before) == before,
{
    let a = cmd_sadd(key_bytes(k), ids);
    let r = cmd_srem(key_bytes(k), ids);
    assert(name_sadd() != name_del() && name_sadd() != name_mset() && name_srem() != name_del()
        && name_srem() != name_mset() && name_sadd() != name_srem()) by {
        assert(name_sadd().len() != name_del().len());
        assert(name_sadd()[0] != name_mset()[0]);
        assert(name_srem().len() != name_del().len());
        assert(name_srem()[0] != name_mset()[0]);
        assert(name_sadd()[1] != name_srem()[1]);
    }
    assert(a[1] == key_bytes(k));
    assert(r[1] == key_bytes(k));
    assert(names_key(a, key_bytes(k)));
    assert(names_key(r, key_bytes(k)));
    assert(a.subrange(2, a.len() as int) =~= id_args(ids));
    assert(r.subrange(2, r.len() as int) =~= id_args(ids));
    lemma_key_of_text(k);
    lemma_key_of_text(other);
    assert(!names_key(a, key_bytes(other)));
    assert(!names_key(r, key_bytes(other)));
}

/// Storing a guild's entry: its id joins the guilds and leaves the
/// unavailable guilds.
proof fn lemma_guild_entry_sets(s: CacheSettings, id: u64, bytes: Seq<u8>, g: Set<Seq<u8>>, u: Set<Seq<u8>>)
    requires
        s.guild.wanted,
    ensures
        set_after(store_guild_entry_cmds(s, id, bytes), key_bytes(RedisKey::Guilds), g) == g.insert(
            crate::decimal::dec(id as nat),
        ),
        set_after(store_guild_entry_cmds(s, id, bytes), key_bytes(RedisKey::UnavailableGuilds), u)
            == u.remove(crate::decimal::dec(id as nat)),
{
    let set = set_command(key_bytes(RedisKey::Guild { id }), bytes, s.guild.expire_seconds);
    let add = cmd_sadd(key_bytes(RedisKey::Guilds), seq![id]);
    let rem = cmd_srem(key_bytes(RedisKey::UnavailableGuilds), seq![id]);
    let cmds = store_guild_entry_cmds(s, id, bytes);
    let bad = |k: RedisKey| is_guild_set_key(k);
    lemma_set_avoids(bad, RedisKey::Guild { id }, bytes, s.guild.expire_seconds);
    lemma_after_avoiding(bad, seq![set], RedisKey::Guilds, g);
    lemma_after_avoiding(bad, seq![set], RedisKey::UnavailableGuilds, u);
    assert(cmds =~= seq![set] + seq![add] + seq![rem]);
    lemma_after_concat(seq![set], seq![add], key_bytes(RedisKey::Guilds), g);
    lemma_after_concat(seq![set] + seq![add], seq![rem], key_bytes(RedisKey::Guilds), g);
    lemma_after_concat(seq![set], seq![add], key_bytes(RedisKey::UnavailableGuilds), u);
    lemma_after_concat(seq![set] + seq![add], seq![rem], key_bytes(RedisKey::UnavailableGuilds), u);
    let d = crate::decimal::dec(id as nat);
    lemma_one_text(id);
    let tg = key_bytes(RedisKey::Guilds);
    let tu = key_bytes(RedisKey::UnavailableGuilds);
    lemma_after_one(add, tg, g);
    lemma_after_one(add, tu, u);
    lemma_after_one(rem, tg, g.insert(d));
    lemma_after_one(rem, tu, u);
    lemma_effect_set_ops(RedisKey::Guilds, RedisKey::UnavailableGuilds, seq![id], g);
    lemma_effect_set_ops(RedisKey::Guilds, RedisKey::UnavailableGuilds, seq![id], u);
    lemma_effect_set_ops(RedisKey::UnavailableGuilds, RedisKey::Guilds, seq![id], g.insert(d));
    lemma_effect_set_ops(RedisKey::UnavailableGuilds, RedisKey::Guilds, seq![id], u);
    assert(g.union(set![d]) =~= g.insert(d));
    assert(u.difference(set![d]) =~= u.remove(d));
    assert(set_after(seq![set], tg, g) == g);
    assert(set_after(seq![set] + seq![add], tg, g) == g.insert(d));
    assert(set_after(seq![set] + seq![add], tu, u) == u);
}

/// Marking a guild as available again after an update: its id joins the
/// guilds and leaves the unavailable guilds.
proof fn lemma_pair_sets(id: u64, g: Set<Seq<u8>>, u: Set<Seq<u8>>)
    ensures
        ({
            let cmds = seq![
                cmd_sadd(key_bytes(RedisKey::Guilds), seq![id]),
                cmd_srem(key_bytes(RedisKey::UnavailableGuilds), seq![id]),
            ];
            &&& set_after(cmds, key_bytes(RedisKey::Guilds), g) == g.insert(crate::decimal::dec(id as nat))
            &&& set_after(cmds, key_bytes(RedisKey::UnavailableGuilds), u) == u.remove(
                crate::decimal::dec(id as nat),
            )
        }),
{
    let add = cmd_sadd(key_bytes(RedisKey::Guilds), seq![id]);
    let rem = cmd_srem(key_bytes(RedisKey::UnavailableGuilds), seq![id]);
    let d = crate::decimal::dec(id as nat);
    let tg = key_bytes(RedisKey::Guilds);
    let tu = key_bytes(RedisKey::UnavailableGuilds);
    assert(seq![add, rem] =~= seq![add] + seq![rem]);
    lemma_after_concat(seq![add], seq![rem], tg, g);
    lemma_after_concat(seq![add], seq![rem], tu, u);
    lemma_one_text(id);
    lemma_after_one(add, tg, g);
    lemma_after_one(add, tu, u);
    lemma_after_one(rem, tg, g.insert(d));
    lemma_after_one(rem, tu, u);
    lemma_effect_set_ops(RedisKey::Guilds, RedisKey::UnavailableGuilds, seq![id], g);
    lemma_effect_set_ops(RedisKey::Guilds, RedisKey::UnavailableGuilds, seq![id], u);
    lemma_effect_set_ops(RedisKey::UnavailableGuilds, RedisKey::Guilds, seq![id], g.insert(d));
    lemma_effect_set_ops(RedisKey::UnavailableGuilds, RedisKey::Guilds, seq![id], u);
    assert(g.union(set![d]) =~= g.insert(d));
    assert(u.difference(set![d]) =~= u.remove(d));
}

/// The guilds and the unavailable guilds that share no id keep sharing none
/// when `d` joins the first and leaves the second.
proof fn lemma_apart_move(g: Set<Seq<u8>>, u: Set<Seq<u8>>, d: Seq<u8>)
    requires
        apart(g, u),
    ensures
        apart(g.insert(d), u.remove(d)),
{
    assert forall|x: Seq<u8>| !(#[trigger] g.insert(d).contains(x) && u.remove(d).contains(x)) by {
        if x != d {
            assert(!(g.contains(x) && u.contains(x)));
        }
    }
}

/// The guilds and the unavailable guilds share no id after an event's
/// commands where they shared none before: only storing a guild or its
/// update names either set, and it puts the guild's id in the first and
/// takes it out of the second.
pub proof fn law_update_keeps_guilds_apart(s: CacheSettings, e: CacheEvent, guilds: Set<Seq<u8>>, unavailable: Set<Seq<u8>>)
    requires
        apart(guilds, unavailable),
    ensures
        apart(
            set_after(update_cmds(s, e), key_bytes(RedisKey::Guilds), guilds),
            set_after(update_cmds(s, e), key_bytes(RedisKey::UnavailableGuilds), unavailable),
        ),
{
    let bad = |k: RedisKey| is_guild_set_key(k);
    assert(keys_fit(s, bad));
    assert(channels_spared(bad));
    let tg = key_bytes(RedisKey::Guilds);
    let tu = key_bytes(RedisKey::UnavailableGuilds);
    match e {
        CacheEvent::GuildCreate(g) => {
            lemma_guild_parts_avoid(bad, s, g);
            let entry = store_guild_entry_cmds(s, g.id, g.bytes@);
            let parts = store_guild_parts_cmds(s, g);
            lemma_after_concat(entry, parts, tg, guilds);
            lemma_after_concat(entry, parts, tu, unavailable);
            lemma_after_avoiding(bad, parts, RedisKey::Guilds, set_after(entry, tg, guilds));
            lemma_after_avoiding(bad, parts, RedisKey::UnavailableGuilds, set_after(entry, tu, unavailable));
            if s.guild.wanted {
                lemma_guild_entry_sets(s, g.id, g.bytes@, guilds, unavailable);
                lemma_apart_move(guilds, unavailable, crate::decimal::dec(g.id as nat));
            } else {
                assert(set_after(entry, tg, guilds) == guilds);
                assert(set_after(entry, tu, unavailable) == unavailable);
            }
        },
        CacheEvent::GuildUpdate { guild, emojis, roles } => {
            let head = store_keyed_cmds(s, EntryKind::Emoji, guild, emojis@) + store_roles_cmds(s, guild, roles@);
            lemma_keyed_avoid(bad, s, EntryKind::Emoji, guild, emojis@);
            lemma_roles_avoid(bad, s, guild, roles@);
            lemma_concat_avoids(bad, store_keyed_cmds(s, EntryKind::Emoji, guild, emojis@), store_roles_cmds(s, guild, roles@));
            lemma_after_avoiding(bad, head, RedisKey::Guilds, guilds);
            lemma_after_avoiding(bad, head, RedisKey::UnavailableGuilds, unavailable);
            let tail = if s.guild.wanted {
                seq![
                    cmd_sadd(key_bytes(RedisKey::Guilds), seq![guild]),
                    cmd_srem(key_bytes(RedisKey::UnavailableGuilds), seq![guild]),
                ]
            } else {
                Seq::empty()
            };
            lemma_after_concat(head, tail, tg, guilds);
            lemma_after_concat(head, tail, tu, unavailable);
            if s.guild.wanted {
                lemma_pair_sets(guild, guilds, unavailable);
                lemma_apart_move(guilds, unavailable, crate::decimal::dec(guild as nat));
            } else {
                assert(set_after(tail, tg, guilds) == guilds);
                assert(set_after(tail, tu, unavailable) == unavailable);
            }
        },
        _ => {
            lemma_update_avoids(bad, s, e);
            lemma_after_avoiding(bad, update_cmds(s, e), RedisKey::Guilds, guilds);
            lemma_after_avoiding(bad, update_cmds(s, e), RedisKey::UnavailableGuilds, unavailable);
        },
    }
}

/// The keys of the two sets of guilds, as the keys that removal steps must
/// not name.
pub open spec fn guild_sets() -> spec_fn(RedisKey) -> bool {
    |k: RedisKey| is_guild_set_key(k)
}

/// The guilds and the unavailable guilds that share no id keep sharing none
/// when the ids `ds` leave the first and join the second.
proof fn lemma_apart_mark(g: Set<Seq<u8>>, u: Set<Seq<u8>>, ds: Set<Seq<u8>>)
    requires
        apart(g, u),
    ensures
        apart(g.difference(ds), u.union(ds)),
        apart(g.difference(ds), u),
{
}

/// Commands that name neither set of guilds leave both as they were.
proof fn lemma_both_kept(cmds: Seq<Seq<Seq<u8>>>, g: Set<Seq<u8>>, u: Set<Seq<u8>>)
    requires
        avoids(guild_sets(), cmds),
    ensures
        set_after(cmds, key_bytes(RedisKey::Guilds), g) == g,
        set_after(cmds, key_bytes(RedisKey::UnavailableGuilds), u) == u,
{
    lemma_after_avoiding(guild_sets(), cmds, RedisKey::Guilds, g);
    lemma_after_avoiding(guild_sets(), cmds, RedisKey::UnavailableGuilds, u);
}

/// Taking ids out of the guilds.
proof fn lemma_srem_guilds(ids: Seq<u64>, g: Set<Seq<u8>>, u: Set<Seq<u8>>)
    ensures
        set_after(seq![cmd_srem(key_bytes(RedisKey::Guilds), ids)], key_bytes(RedisKey::Guilds), g)
            == g.difference(id_args(ids).to_set()),
        set_after(seq![cmd_srem(key_bytes(RedisKey::Guilds), ids)], key_bytes(RedisKey::UnavailableGuilds), u)
            == u,
{
    let c = cmd_srem(key_bytes(RedisKey::Guilds), ids);
    lemma_after_one(c, key_bytes(RedisKey::Guilds), g);
    lemma_after_one(c, key_bytes(RedisKey::UnavailableGuilds), u);
    lemma_effect_set_ops(RedisKey::Guilds, RedisKey::UnavailableGuilds, ids, g);
    lemma_effect_set_ops(RedisKey::Guilds, RedisKey::UnavailableGuilds, ids, u);
}

/// Adding ids to the unavailable guilds.
proof fn lemma_sadd_unavailable(ids: Seq<u64>, g: Set<Seq<u8>>, u: Set<Seq<u8>>)
    ensures
        set_after(seq![cmd_sadd(key_bytes(RedisKey::UnavailableGuilds), ids)], key_bytes(RedisKey::Guilds), g)
            == g,
        set_after(seq![cmd_sadd(key_bytes(RedisKey::UnavailableGuilds), ids)], key_bytes(RedisKey::UnavailableGuilds), u)
            == u.union(id_args(ids).to_set()),
{
    let c = cmd_sadd(key_bytes(RedisKey::UnavailableGuilds), ids);
    lemma_after_one(c, key_bytes(RedisKey::Guilds), g);
    lemma_after_one(c, key_bytes(RedisKey::UnavailableGuilds), u);
    lemma_effect_set_ops(RedisKey::UnavailableGuilds, RedisKey::Guilds, ids, g);
    lemma_effect_set_ops(RedisKey::UnavailableGuilds, RedisKey::Guilds, ids, u);
}

/// What happens to both sets of guilds when `a`, then `b` run.
proof fn lemma_both_concat(
    a: Seq<Seq<Seq<u8>>>,
    b: Seq<Seq<Seq<u8>>>,
    g: Set<Seq<u8>>,
    u: Set<Seq<u8>>,
)
    ensures
        set_after(a + b, key_bytes(RedisKey::Guilds), g) == set_after(
            b,
            key_bytes(RedisKey::Guilds),
            set_after(a, key_bytes(RedisKey::Guilds), g),
        ),
        set_after(a + b, key_bytes(RedisKey::UnavailableGuilds), u) == set_after(
            b,
            key_bytes(RedisKey::UnavailableGuilds),
            set_after(a, key_bytes(RedisKey::UnavailableGuilds), u),
        ),
{
    lemma_after_concat(a, b, key_bytes(RedisKey::Guilds), g);
    lemma_after_concat(a, b, key_bytes(RedisKey::UnavailableGuilds), u);
}

/// The last step of removing a guild takes its id out of the guilds, and
/// names the unavailable guilds nowhere.
proof fn lemma_guild_finish_sets(s: CacheSettings, guild: u64, lists: Seq<Seq<u64>>, counts: Seq<usize>, g: Set<Seq<u8>>, u: Set<Seq<u8>>)
    ensures
        set_after(delete_guild_finish_cmds(s, guild, lists, counts), key_bytes(RedisKey::Guilds), g) == (if s.guild.wanted {
            g.difference(id_args(seq![guild]).to_set())
        } else {
            g
        }),
        set_after(delete_guild_finish_cmds(s, guild, lists, counts), key_bytes(RedisKey::UnavailableGuilds), u) == u,
{
    assert(keys_fit(s, guild_sets()));
    assert(channels_spared(guild_sets()));
    lemma_guild_lists_roles(s);
    let keys = delete_guild_keys(s, guild, lists, counts);
    let fs = finish_srems(s, guild_lists(s), lists, counts);
    let sg = if s.guild.wanted {
        seq![cmd_srem(key_bytes(RedisKey::Guilds), seq![guild])]
    } else {
        Seq::empty()
    };
    let dl = if keys.len() > 0 {
        seq![cmd_del(key_texts(keys))]
    } else {
        Seq::empty()
    };
    lemma_finish_srems_spared(guild_sets(), s, guild_lists(s), lists, counts);
    lemma_both_kept(fs, g, u);
    lemma_both_concat(fs, sg, g, u);
    if s.guild.wanted {
        lemma_srem_guilds(seq![guild], g, u);
    }
    let g1 = set_after(fs + sg, key_bytes(RedisKey::Guilds), g);
    lemma_finish_keys_spare(guild_sets(), s, guild, guild_lists(s), lists, counts);
    assert(spares(guild_sets(), seq![RedisKey::Guild { id: guild }]));
    lemma_spares_concat(guild_sets(), s, finish_keys(s, guild, guild_lists(s), lists, counts), seq![RedisKey::Guild { id: guild }]);
    lemma_spares_concat(guild_sets(), s, finish_keys(s, guild, guild_lists(s), lists, counts), Seq::empty());
    if keys.len() > 0 {
        lemma_del_spared(guild_sets(), s, keys);
    }
    lemma_both_kept(dl, g1, u);
    lemma_both_concat(fs + sg, dl, g, u);
}

/// The last step of removing several guilds takes their ids out of the
/// guilds, and names the unavailable guilds nowhere.
proof fn lemma_guilds_finish_sets(s: CacheSettings, guilds: Seq<u64>, lists: Seq<Seq<u64>>, counts: Seq<usize>, g: Set<Seq<u8>>, u: Set<Seq<u8>>)
    ensures
        set_after(delete_guilds_finish_cmds(s, guilds, lists, counts), key_bytes(RedisKey::Guilds), g) == (if s.guild.wanted {
            g.difference(id_args(guilds).to_set())
        } else {
            g
        }),
        set_after(delete_guilds_finish_cmds(s, guilds, lists, counts), key_bytes(RedisKey::UnavailableGuilds), u) == u,
{
    assert(keys_fit(s, guild_sets()));
    assert(channels_spared(guild_sets()));
    lemma_guild_lists_roles(s);
    let keys = delete_guilds_keys(s, guilds, lists, counts);
    let fs = multi_srems(s, guilds.len() as int, guild_lists(s), lists);
    let sg = if s.guild.wanted {
        seq![cmd_srem(key_bytes(RedisKey::Guilds), guilds)]
    } else {
        Seq::empty()
    };
    let dl = if keys.len() > 0 {
        seq![cmd_del(key_texts(keys))]
    } else {
        Seq::empty()
    };
    lemma_multi_srems_spared(guild_sets(), s, guilds.len() as int, guild_lists(s), lists);
    lemma_both_kept(fs, g, u);
    lemma_both_concat(fs, sg, g, u);
    if s.guild.wanted {
        lemma_srem_guilds(guilds, g, u);
    }
    let g1 = set_after(fs + sg, key_bytes(RedisKey::Guilds), g);
    lemma_multi_keys_spare(guild_sets(), s, guilds, guild_lists(s), lists, counts);
    lemma_guild_keys_spare(guild_sets(), s, GuildList::Members, guilds);
    lemma_spares_concat(guild_sets(), s, multi_keys(s, guilds, guild_lists(s), lists, counts), guilds.map_values(|x: u64| RedisKey::Guild { id: x }));
    lemma_spares_concat(guild_sets(), s, multi_keys(s, guilds, guild_lists(s), lists, counts), Seq::empty());
    if keys.len() > 0 {
        lemma_del_spared(guild_sets(), s, keys);
    }
    lemma_both_kept(dl, g1, u);
    lemma_both_concat(fs + sg, dl, g, u);
}

/// The commands of removing `guild`: the first step; where the guild's sets
/// are read, the step that drops it from the guilds of its users `users`
/// and the last step, the store having answered `lists` and `counts`; then
/// marking it unavailable where it became so.
pub open spec fn guild_removal_cmds(
    s: CacheSettings,
    guild: u64,
    users: Seq<u64>,
    lists: Seq<Seq<u64>>,
    counts: Seq<usize>,
    unavailable: bool,
) -> Seq<Seq<Seq<u8>>> {
    delete_guild_start_cmds(s, guild) + (if guild_lists(s).len() > 0 {
        user_guild_cmds(guild, users) + delete_guild_finish_cmds(s, guild, lists, counts)
    } else {
        Seq::empty()
    }) + (if unavailable && s.guild.wanted {
        seq![cmd_sadd(key_bytes(RedisKey::UnavailableGuilds), seq![guild])]
    } else {
        Seq::empty()
    })
}

/// The commands of removing the guilds of a ready event: the first step;
/// where their sets are read, the step that drops each from the guilds of
/// its users (`users[i]` those of `guilds[i]`) and the last step, the store
/// having answered `lists` and `counts`; then marking them unavailable and
/// storing the current user.
pub open spec fn ready_removal_cmds(
    s: CacheSettings,
    guilds: Seq<u64>,
    users: Seq<Seq<u64>>,
    lists: Seq<Seq<u64>>,
    counts: Seq<usize>,
    current_user: Seq<u8>,
) -> Seq<Seq<Seq<u8>>> {
    delete_guilds_start_cmds(s, guilds) + (if guild_lists(s).len() > 0 && guilds.len() > 0 {
        users_each_cmds(guilds, users) + delete_guilds_finish_cmds(s, guilds, lists, counts)
    } else {
        Seq::empty()
    }) + (if s.guild.wanted {
        seq![cmd_sadd(key_bytes(RedisKey::UnavailableGuilds), guilds)]
    } else {
        Seq::empty()
    }) + store_current_user_cmds(s, current_user)
}

/// Removing a guild takes its id out of the guilds before it may mark it
/// unavailable: the two sets share no id afterwards where they shared none
/// before, whatever the store answered.
pub proof fn law_guild_removal_keeps_guilds_apart(
    s: CacheSettings,
    guild: u64,
    users: Seq<u64>,
    lists: Seq<Seq<u64>>,
    counts: Seq<usize>,
    unavailable: bool,
    guilds: Set<Seq<u8>>,
    unavailable_guilds: Set<Seq<u8>>,
)
    requires
        apart(guilds, unavailable_guilds),
    ensures
        ({
            let cmds = guild_removal_cmds(s, guild, users, lists, counts, unavailable);
            apart(
                set_after(cmds, key_bytes(RedisKey::Guilds), guilds),
                set_after(cmds, key_bytes(RedisKey::UnavailableGuilds), unavailable_guilds),
            )
        }),
{
    assert(keys_fit(s, guild_sets()));
    assert(channels_spared(guild_sets()));
    lemma_guild_lists_roles(s);
    let g = guilds;
    let u = unavailable_guilds;
    let d = id_args(seq![guild]).to_set();
    let gm = if s.guild.wanted {
        g.difference(d)
    } else {
        g
    };
    let start = delete_guild_start_cmds(s, guild);
    let mid = if guild_lists(s).len() > 0 {
        user_guild_cmds(guild, users) + delete_guild_finish_cmds(s, guild, lists, counts)
    } else {
        Seq::empty()
    };
    let tail = if unavailable && s.guild.wanted {
        seq![cmd_sadd(key_bytes(RedisKey::UnavailableGuilds), seq![guild])]
    } else {
        Seq::empty()
    };
    lemma_both_concat(start, mid, g, u);
    if guild_lists(s).len() == 0 {
        if s.guild.wanted {
            let del = seq![cmd_del(seq![key_bytes(RedisKey::Guild { id: guild })])];
            let rem = seq![cmd_srem(key_bytes(RedisKey::Guilds), seq![guild])];
            assert(start =~= del + rem);
            lemma_del_one_avoids(guild_sets(), RedisKey::Guild { id: guild });
            lemma_one_avoids(guild_sets(), del[0]);
            lemma_both_kept(del, g, u);
            lemma_both_concat(del, rem, g, u);
            lemma_srem_guilds(seq![guild], g, u);
        }
        lemma_both_kept(mid, set_after(start, key_bytes(RedisKey::Guilds), g), set_after(start, key_bytes(RedisKey::UnavailableGuilds), u));
    } else {
        lemma_smembers_cmds_spared(guild_sets(), s, guild_lists(s), guild);
        lemma_both_kept(start, g, u);
        lemma_user_guild_spared(guild_sets(), s, guild, users);
        lemma_both_kept(user_guild_cmds(guild, users), g, u);
        lemma_both_concat(user_guild_cmds(guild, users), delete_guild_finish_cmds(s, guild, lists, counts), g, u);
        lemma_guild_finish_sets(s, guild, lists, counts, g, u);
    }
    assert(set_after(start + mid, key_bytes(RedisKey::Guilds), g) == gm);
    assert(set_after(start + mid, key_bytes(RedisKey::UnavailableGuilds), u) == u);
    lemma_both_concat(start + mid, tail, g, u);
    lemma_apart_mark(g, u, d);
    if unavailable && s.guild.wanted {
        lemma_sadd_unavailable(seq![guild], gm, u);
    }
}

/// Removing the guilds of a ready event takes their ids out of the guilds
/// before it marks them unavailable: the two sets share no id afterwards
/// where they shared none before, whatever the store answered.
pub proof fn law_ready_removal_keeps_guilds_apart(
    s: CacheSettings,
    ready_guilds: Seq<u64>,
    users: Seq<Seq<u64>>,
    lists: Seq<Seq<u64>>,
    counts: Seq<usize>,
    current_user: Seq<u8>,
    guilds: Set<Seq<u8>>,
    unavailable_guilds: Set<Seq<u8>>,
)
    requires
        apart(guilds, unavailable_guilds),
    ensures
        ({
            let cmds = ready_removal_cmds(s, ready_guilds, users, lists, counts, current_user);
            apart(
                set_after(cmds, key_bytes(RedisKey::Guilds), guilds),
                set_after(cmds, key_bytes(RedisKey::UnavailableGuilds), unavailable_guilds),
            )
        }),
{
    assert(keys_fit(s, guild_sets()));
    assert(channels_spared(guild_sets()));
    lemma_guild_lists_roles(s);
    let g = guilds;
    let u = unavailable_guilds;
    let gs = ready_guilds;
    let d = id_args(gs).to_set();
    let gm = if s.guild.wanted {
        g.difference(d)
    } else {
        g
    };
    let start = delete_guilds_start_cmds(s, gs);
    let mid = if guild_lists(s).len() > 0 && gs.len() > 0 {
        users_each_cmds(gs, users) + delete_guilds_finish_cmds(s, gs, lists, counts)
    } else {
        Seq::empty()
    };
    let mark = if s.guild.wanted {
        seq![cmd_sadd(key_bytes(RedisKey::UnavailableGuilds), gs)]
    } else {
        Seq::empty()
    };
    let cu = store_current_user_cmds(s, current_user);
    lemma_both_concat(start, mid, g, u);
    if guild_lists(s).len() == 0 || gs.len() == 0 {
        if s.guild.wanted {
            let rem = seq![cmd_srem(key_bytes(RedisKey::Guilds), gs)];
            let dl = if gs.len() > 0 {
                seq![cmd_del(key_texts(gs.map_values(|x: u64| RedisKey::Guild { id: x })))]
            } else {
                Seq::empty()
            };
            assert(start =~= rem + dl);
            lemma_srem_guilds(gs, g, u);
            lemma_guild_keys_spare(guild_sets(), s, GuildList::Members, gs);
            if gs.len() > 0 {
                lemma_del_spared(guild_sets(), s, gs.map_values(|x: u64| RedisKey::Guild { id: x }));
            }
            lemma_both_kept(dl, g.difference(d), u);
            lemma_both_concat(rem, dl, g, u);
        }
        lemma_both_kept(mid, set_after(start, key_bytes(RedisKey::Guilds), g), set_after(start, key_bytes(RedisKey::UnavailableGuilds), u));
    } else {
        lemma_smembers_all_spared(guild_sets(), s, guild_lists(s), gs);
        lemma_both_kept(start, g, u);
        lemma_users_each_spared(guild_sets(), s, gs, users);
        lemma_both_kept(users_each_cmds(gs, users), g, u);
        lemma_both_concat(users_each_cmds(gs, users), delete_guilds_finish_cmds(s, gs, lists, counts), g, u);
        lemma_guilds_finish_sets(s, gs, lists, counts, g, u);
    }
    assert(set_after(start + mid, key_bytes(RedisKey::Guilds), g) == gm);
    assert(set_after(start + mid, key_bytes(RedisKey::UnavailableGuilds), u) == u);
    lemma_both_concat(start + mid, mark, g, u);
    let um = if s.guild.wanted {
        u.union(d)
    } else {
        u
    };
    if s.guild.wanted {
        lemma_sadd_unavailable(gs, gm, u);
    }
    lemma_current_user_avoids(guild_sets(), s, current_user);
    lemma_both_kept(cu, gm, um);
    lemma_both_concat(start + mid + mark, cu, g, u);
    lemma_apart_mark(g, u, d);
}

/// Removing a member names neither set of guilds, so they keep sharing no
/// id.
pub proof fn law_member_removal_keeps_guilds_apart(
    s: CacheSettings,
    guild: u64,
    user: u64,
    common_guilds: usize,
    guilds: Set<Seq<u8>>,
    unavailable_guilds: Set<Seq<u8>>,
)
    requires
        apart(guilds, unavailable_guilds),
    ensures
        ({
            let cmds = delete_member_start_cmds(s, guild, user) + delete_member_finish_cmds(s, guild, user, common_guilds);
            apart(
                set_after(cmds, key_bytes(RedisKey::Guilds), guilds),
                set_after(cmds, key_bytes(RedisKey::UnavailableGuilds), unavailable_guilds),
            )
        }),
{
    let bad = guild_sets();
    let a = delete_member_start_cmds(s, guild, user);
    if s.user.wanted {
        lemma_set_ops_avoid(bad, RedisKey::UserGuilds { id: user }, seq![guild], 0, 0, 0);
        lemma_two_avoid(bad, a[0], a[1]);
        assert(a =~= seq![a[0], a[1]]);
    }
    let b1 = if s.user.wanted && common_guilds == 0 {
        seq![
            cmd_del(seq![key_bytes(RedisKey::User { id: user })]),
            cmd_srem(key_bytes(RedisKey::Users), seq![user]),
        ]
    } else {
        Seq::empty()
    };
    let b2 = if s.member.wanted {
        seq![
            cmd_del(seq![key_bytes(RedisKey::Member { guild, user })]),
            cmd_srem(key_bytes(RedisKey::GuildMembers { id: guild }), seq![user]),
        ]
    } else {
        Seq::empty()
    };
    if s.user.wanted && common_guilds == 0 {
        lemma_del_one_avoids(bad, RedisKey::User { id: user });
        lemma_set_ops_avoid(bad, RedisKey::Users, seq![user], 0, 0, 0);
        lemma_two_avoid(bad, b1[0], b1[1]);
        assert(b1 =~= seq![b1[0], b1[1]]);
    }
    if s.member.wanted {
        lemma_del_one_avoids(bad, RedisKey::Member { guild, user });
        lemma_set_ops_avoid(bad, RedisKey::GuildMembers { id: guild }, seq![user], 0, 0, 0);
        lemma_two_avoid(bad, b2[0], b2[1]);
        assert(b2 =~= seq![b2[0], b2[1]]);
    }
    lemma_concat_avoids(bad, b1, b2);
    lemma_concat_avoids(bad, a, b1 + b2);
    lemma_both_kept(a + (b1 + b2), guilds, unavailable_guilds);
}

} // verus!
