//! Which keys the steps of removing guilds and members name: none that
//! the settings keep out of the cache, and neither set of guilds but where a
//! step says so.
use vstd::prelude::*;

use crate::cache::common::EntryKind;
use crate::cache::guild::{
    guild_list_key, guild_lists, if_wanted, smembers_all_cmds, smembers_cmds, smembers_each_cmds, GuildList,
};
use crate::cache::guild_delete::{
    finish_keys, finish_srems, id_key, id_keys, list_keys, list_srems, user_guild_cmds, IdKey,
};
use crate::cache::guilds_delete::{
    guild_keys, multi_keys, multi_list_keys, multi_list_srems, multi_srems, pair_keys, users_each_cmds,
};
use crate::config::CacheSettings;
use crate::key::{key_bytes, RedisKey};
use crate::key_laws::{
    avoids, command_avoids, keys_fit, lemma_concat_avoids, lemma_del_avoids, lemma_keyed_command, lemma_names_distinct, lemma_one_avoids, lemma_set_ops_avoid, lemma_two_avoid,
};
use crate::pipe::{cmd_del, cmd_sadd, cmd_scard, cmd_smembers, cmd_srem, key_texts};
use crate::cache::guild::{
    delete_guild_entries_cmds, delete_guild_entry_cmds, delete_guild_start_cmds, delete_guilds_start_cmds,
};
use crate::cache::guild_delete::{delete_guild_finish_cmds, delete_guild_keys};
use crate::cache::guilds_delete::{delete_guilds_finish_cmds, delete_guilds_keys};
use crate::cache::member::{delete_member_finish_cmds, delete_member_start_cmds};
use crate::cache::current_user::store_current_user_cmds;
use crate::guild_laws::{guild_removal_cmds, ready_removal_cmds};
use crate::key_laws::{
    channels_spared, is_role_key, lemma_current_user_avoids, lemma_del_one_avoids, names_no_role_key, lemma_no_role_key,
};

verus! {

/// None of `keys` is a key that `bad` holds.
pub open spec fn spares(bad: spec_fn(RedisKey) -> bool, keys: Seq<RedisKey>) -> bool {
    forall|m: int| 0 <= m < keys.len() ==> !bad(#[trigger] keys[m])
}

/// The role set is among `kinds` only where roles are cached.
pub open spec fn roles_listed_ok(s: CacheSettings, kinds: Seq<GuildList>) -> bool {
    forall|m: int| 0 <= m < kinds.len() ==> (#[trigger] kinds[m] == GuildList::Roles ==> s.role.wanted)
}

/// Keys of shape `shape` are role keys only where roles are cached.
pub open spec fn shape_ok(s: CacheSettings, shape: IdKey) -> bool {
    match shape {
        IdKey::Entry(kind) => kind == EntryKind::Role ==> s.role.wanted,
        IdKey::Meta(kind) => kind == EntryKind::Role ==> s.role.wanted,
        _ => true,
    }
}

/// The kinds before the last keep the role set only where roles are cached.
pub proof fn lemma_roles_listed_drop(s: CacheSettings, kinds: Seq<GuildList>)
    requires
        roles_listed_ok(s, kinds),
        kinds.len() > 0,
    ensures
        roles_listed_ok(s, kinds.drop_last()),
        kinds.last() == GuildList::Roles ==> s.role.wanted,
{
    assert forall|m: int| 0 <= m < kinds.drop_last().len() implies (#[trigger] kinds.drop_last()[m] == GuildList::Roles
        ==> s.role.wanted) by {
        assert(kinds.drop_last()[m] == kinds[m]);
    }
    assert(kinds[kinds.len() - 1] == kinds.last());
}

/// Two lists of kinds that hold the role set only where roles are cached,
/// joined.
proof fn lemma_roles_listed_concat(s: CacheSettings, a: Seq<GuildList>, b: Seq<GuildList>)
    requires
        roles_listed_ok(s, a),
        roles_listed_ok(s, b),
    ensures
        roles_listed_ok(s, a + b),
{
    assert forall|m: int| 0 <= m < (a + b).len() implies (#[trigger] (a + b)[m] == GuildList::Roles ==> s.role.wanted) by {
        if m < a.len() {
            assert((a + b)[m] == a[m]);
        } else {
            assert((a + b)[m] == b[m - a.len()]);
        }
    }
}

/// The sets of a guild that are read hold the role set only where roles
/// are cached.
pub proof fn lemma_guild_lists_roles(s: CacheSettings)
    ensures
        roles_listed_ok(s, guild_lists(s)),
{
    let l0 = if_wanted(s, GuildList::Members);
    let l1 = if_wanted(s, GuildList::Channels);
    let l2 = if_wanted(s, GuildList::Emojis);
    let l3 = if_wanted(s, GuildList::Integrations);
    let l4 = if_wanted(s, GuildList::Presences);
    let l5 = if_wanted(s, GuildList::Roles);
    let l6 = if_wanted(s, GuildList::StageInstances);
    let l7 = if_wanted(s, GuildList::Stickers);
    let l8 = if_wanted(s, GuildList::VoiceStates);
    assert(roles_listed_ok(s, l0));
    assert(roles_listed_ok(s, l1));
    assert(roles_listed_ok(s, l2));
    assert(roles_listed_ok(s, l3));
    assert(roles_listed_ok(s, l4));
    assert(roles_listed_ok(s, l5));
    assert(roles_listed_ok(s, l6));
    assert(roles_listed_ok(s, l7));
    assert(roles_listed_ok(s, l8));
    lemma_roles_listed_concat(s, l0, l1);
    lemma_roles_listed_concat(s, l0 + l1, l2);
    lemma_roles_listed_concat(s, l0 + l1 + l2, l3);
    lemma_roles_listed_concat(s, l0 + l1 + l2 + l3, l4);
    lemma_roles_listed_concat(s, l0 + l1 + l2 + l3 + l4, l5);
    lemma_roles_listed_concat(s, l0 + l1 + l2 + l3 + l4 + l5, l6);
    lemma_roles_listed_concat(s, l0 + l1 + l2 + l3 + l4 + l5 + l6, l7);
    lemma_roles_listed_concat(s, l0 + l1 + l2 + l3 + l4 + l5 + l6 + l7, l8);
}

/// Two lists of keys free of those `bad` holds, joined.
pub proof fn lemma_spares_concat(bad: spec_fn(RedisKey) -> bool, s: CacheSettings, a: Seq<RedisKey>, b: Seq<RedisKey>)
    requires
        spares(bad, a),
        spares(bad, b),
    ensures
        spares(bad, a + b),
{
    assert forall|m: int| 0 <= m < (a + b).len() implies !bad(#[trigger] (a + b)[m]) by {
        if m < a.len() {
            assert((a + b)[m] == a[m]);
        } else {
            assert((a + b)[m] == b[m - a.len()]);
        }
    }
}

/// The keys of one shape for some ids.
pub proof fn lemma_id_keys_spare(bad: spec_fn(RedisKey) -> bool, s: CacheSettings, shape: IdKey, guild: u64, ids: Seq<u64>)
    requires
        keys_fit(s, bad),
        channels_spared(bad),
        shape_ok(s, shape),
    ensures
        spares(bad, id_keys(shape, guild, ids)),
{
    let keys = id_keys(shape, guild, ids);
    assert forall|m: int| 0 <= m < keys.len() implies !bad(#[trigger] keys[m]) by {
        assert(keys[m] == id_key(shape, guild, ids[m]));
        match shape {
            IdKey::Entry(kind) => {},
            IdKey::Meta(kind) => {},
            _ => {},
        }
    }
}

/// The keys deleted for one set of a guild.
pub proof fn lemma_list_keys_spare(bad: spec_fn(RedisKey) -> bool, s: CacheSettings, guild: u64, k: GuildList, ids: Seq<u64>, counts: Seq<usize>)
    requires
        keys_fit(s, bad),
        channels_spared(bad),
        k == GuildList::Roles ==> s.role.wanted,
    ensures
        spares(bad, list_keys(s, guild, k, ids, counts)),
{
    lemma_id_keys_spare(bad, s, IdKey::User, guild, crate::cache::guild_delete::estranged(ids, counts));
    lemma_id_keys_spare(bad, s, IdKey::Member, guild, ids);
    let e = crate::cache::guild_delete::list_entry_kind(k);
    lemma_id_keys_spare(bad, s, IdKey::Meta(e), guild, ids);
    lemma_id_keys_spare(bad, s, IdKey::Entry(e), guild, ids);
    lemma_id_keys_spare(bad, s, crate::cache::guild_delete::list_pair_shape(k), guild, ids);
    let empty = Seq::<RedisKey>::empty();
    let lk = seq![guild_list_key(k, guild)];
    let gm = seq![RedisKey::GuildMembers { id: guild }];
    assert(spares(bad, lk));
    assert(spares(bad, gm));
    assert(spares(bad, empty));
    lemma_spares_concat(bad, s, gm, id_keys(IdKey::Member, guild, ids));
    lemma_spares_concat(bad, s, id_keys(IdKey::User, guild, crate::cache::guild_delete::estranged(ids, counts)), empty);
    lemma_spares_concat(bad, s, id_keys(IdKey::User, guild, crate::cache::guild_delete::estranged(ids, counts)), gm + id_keys(IdKey::Member, guild, ids));
    lemma_spares_concat(bad, s, empty, empty);
    lemma_spares_concat(bad, s, empty, gm + id_keys(IdKey::Member, guild, ids));
    lemma_spares_concat(bad, s, lk, id_keys(IdKey::Meta(e), guild, ids));
    lemma_spares_concat(bad, s, lk, empty);
    lemma_spares_concat(bad, s, lk + id_keys(IdKey::Meta(e), guild, ids), id_keys(IdKey::Entry(e), guild, ids));
    lemma_spares_concat(bad, s, lk + empty, id_keys(IdKey::Entry(e), guild, ids));
    lemma_spares_concat(bad, s, lk, id_keys(crate::cache::guild_delete::list_pair_shape(k), guild, ids));
}

/// The keys deleted for the sets of a guild.
pub proof fn lemma_finish_keys_spare(bad: spec_fn(RedisKey) -> bool, s: CacheSettings, guild: u64, kinds: Seq<GuildList>, lists: Seq<Seq<u64>>, counts: Seq<usize>)
    requires
        keys_fit(s, bad),
        channels_spared(bad),
        roles_listed_ok(s, kinds),
    ensures
        spares(bad, finish_keys(s, guild, kinds, lists, counts)),
    decreases kinds.len(),
{
    if kinds.len() > 0 {
        lemma_roles_listed_drop(s, kinds);
        lemma_finish_keys_spare(bad, s, guild, kinds.drop_last(), lists, counts);
        lemma_list_keys_spare(bad, s, guild, kinds.last(), lists[kinds.len() - 1], counts);
        lemma_spares_concat(bad, s, 
            finish_keys(s, guild, kinds.drop_last(), lists, counts),
            list_keys(s, guild, kinds.last(), lists[kinds.len() - 1], counts),
        );
    }
}

/// The keys of one set of each guild, and the keys of the guilds.
pub proof fn lemma_guild_keys_spare(bad: spec_fn(RedisKey) -> bool, s: CacheSettings, k: GuildList, guilds: Seq<u64>)
    requires
        keys_fit(s, bad),
        k == GuildList::Roles ==> s.role.wanted,
    ensures
        spares(bad, guild_keys(k, guilds)),
        spares(bad, guilds.map_values(|g: u64| RedisKey::Guild { id: g })),
{
    let keys = guild_keys(k, guilds);
    assert forall|m: int| 0 <= m < keys.len() implies !bad(#[trigger] keys[m]) by {
        assert(keys[m] == guild_list_key(k, guilds[m]));
    }
}

/// The keys of one shape for the ids of each guild.
pub proof fn lemma_pair_keys_spare(bad: spec_fn(RedisKey) -> bool, s: CacheSettings, shape: IdKey, guilds: Seq<u64>, block: Seq<Seq<u64>>)
    requires
        keys_fit(s, bad),
        channels_spared(bad),
        shape_ok(s, shape),
    ensures
        spares(bad, pair_keys(shape, guilds, block)),
    decreases guilds.len(),
{
    if guilds.len() > 0 {
        lemma_pair_keys_spare(bad, s, shape, guilds.drop_last(), block);
        lemma_id_keys_spare(bad, s, shape, guilds.last(), block[guilds.len() - 1]);
        lemma_spares_concat(bad, s, 
            pair_keys(shape, guilds.drop_last(), block),
            id_keys(shape, guilds.last(), block[guilds.len() - 1]),
        );
    }
}

/// The keys deleted for one set of several guilds.
pub proof fn lemma_multi_list_keys_spare(bad: spec_fn(RedisKey) -> bool, s: CacheSettings, guilds: Seq<u64>, k: GuildList, block: Seq<Seq<u64>>, counts: Seq<usize>)
    requires
        keys_fit(s, bad),
        channels_spared(bad),
        k == GuildList::Roles ==> s.role.wanted,
    ensures
        spares(bad, multi_list_keys(s, guilds, k, block, counts)),
{
    let flat = crate::cache::guilds_delete::flat(block);
    let e = crate::cache::guild_delete::list_entry_kind(k);
    let est = id_keys(IdKey::User, 0, crate::cache::guild_delete::estranged(flat, counts));
    lemma_id_keys_spare(bad, s, IdKey::User, 0, crate::cache::guild_delete::estranged(flat, counts));
    lemma_id_keys_spare(bad, s, IdKey::Meta(e), 0, flat);
    lemma_id_keys_spare(bad, s, IdKey::Entry(e), 0, flat);
    lemma_guild_keys_spare(bad, s, k, guilds);
    lemma_pair_keys_spare(bad, s, IdKey::Member, guilds, block);
    lemma_pair_keys_spare(bad, s, crate::cache::guild_delete::list_pair_shape(k), guilds, block);
    let empty = Seq::<RedisKey>::empty();
    assert(spares(bad, empty));
    let gm = guild_keys(k, guilds) + pair_keys(IdKey::Member, guilds, block);
    lemma_spares_concat(bad, s, guild_keys(k, guilds), pair_keys(IdKey::Member, guilds, block));
    lemma_spares_concat(bad, s, est, gm);
    lemma_spares_concat(bad, s, est, empty);
    lemma_spares_concat(bad, s, empty, gm);
    lemma_spares_concat(bad, s, empty, empty);
    let metas = id_keys(IdKey::Meta(e), 0, flat);
    let ents = id_keys(IdKey::Entry(e), 0, flat);
    lemma_spares_concat(bad, s, metas, ents);
    lemma_spares_concat(bad, s, empty, ents);
    lemma_spares_concat(bad, s, metas + ents, guild_keys(k, guilds));
    lemma_spares_concat(bad, s, empty + ents, guild_keys(k, guilds));
    lemma_spares_concat(bad, s, 
        pair_keys(crate::cache::guild_delete::list_pair_shape(k), guilds, block),
        guild_keys(k, guilds),
    );
}

/// The keys deleted for the sets of several guilds.
pub proof fn lemma_multi_keys_spare(bad: spec_fn(RedisKey) -> bool, s: CacheSettings, guilds: Seq<u64>, kinds: Seq<GuildList>, lists: Seq<Seq<u64>>, counts: Seq<usize>)
    requires
        keys_fit(s, bad),
        channels_spared(bad),
        roles_listed_ok(s, kinds),
    ensures
        spares(bad, multi_keys(s, guilds, kinds, lists, counts)),
    decreases kinds.len(),
{
    if kinds.len() > 0 {
        lemma_roles_listed_drop(s, kinds);
        let block = crate::cache::guilds_delete::block_of(lists, kinds.len() - 1, guilds.len() as int);
        lemma_multi_keys_spare(bad, s, guilds, kinds.drop_last(), lists, counts);
        lemma_multi_list_keys_spare(bad, s, guilds, kinds.last(), block, counts);
        lemma_spares_concat(bad, s, 
            multi_keys(s, guilds, kinds.drop_last(), lists, counts),
            multi_list_keys(s, guilds, kinds.last(), block, counts),
        );
    }
}

/// Deleting keys none of which `bad` holds.
pub proof fn lemma_del_spared(bad: spec_fn(RedisKey) -> bool, s: CacheSettings, keys: Seq<RedisKey>)
    requires
        spares(bad, keys),
    ensures
        avoids(bad, seq![cmd_del(key_texts(keys))]),
{
    lemma_del_avoids(bad, keys);
    lemma_one_avoids(bad, cmd_del(key_texts(keys)));
}

/// Taking ids out of a set that `bad` does not hold.
pub proof fn lemma_srem_spared(bad: spec_fn(RedisKey) -> bool, s: CacheSettings, k: RedisKey, ids: Seq<u64>)
    requires
        !bad(k),
    ensures
        avoids(bad, seq![cmd_srem(key_bytes(k), ids)]),
{
    lemma_set_ops_avoid(bad, k, ids, 0, 0, 0);
    lemma_one_avoids(bad, cmd_srem(key_bytes(k), ids));
}

/// The removals from the set of all ids for one set of a guild.
pub proof fn lemma_list_srems_spared(bad: spec_fn(RedisKey) -> bool, s: CacheSettings, k: GuildList, ids: Seq<u64>, counts: Seq<usize>)
    requires
        keys_fit(s, bad),
        channels_spared(bad),
        k == GuildList::Roles ==> s.role.wanted,
    ensures
        avoids(bad, list_srems(s, k, ids, counts)),
{
    lemma_srem_spared(bad, s, RedisKey::Users, crate::cache::guild_delete::estranged(ids, counts));
    lemma_srem_spared(bad, s, crate::cache::common::all_ids_key(crate::cache::guild_delete::list_entry_kind(k)), ids);
}

/// The removals from the sets of all ids for the sets of a guild.
pub proof fn lemma_finish_srems_spared(bad: spec_fn(RedisKey) -> bool, s: CacheSettings, kinds: Seq<GuildList>, lists: Seq<Seq<u64>>, counts: Seq<usize>)
    requires
        keys_fit(s, bad),
        channels_spared(bad),
        roles_listed_ok(s, kinds),
    ensures
        avoids(bad, finish_srems(s, kinds, lists, counts)),
    decreases kinds.len(),
{
    if kinds.len() > 0 {
        lemma_roles_listed_drop(s, kinds);
        lemma_finish_srems_spared(bad, s, kinds.drop_last(), lists, counts);
        lemma_list_srems_spared(bad, s, kinds.last(), lists[kinds.len() - 1], counts);
        lemma_concat_avoids(
            bad,
            finish_srems(s, kinds.drop_last(), lists, counts),
            list_srems(s, kinds.last(), lists[kinds.len() - 1], counts),
        );
    }
}

/// The removals from the sets of all ids for the sets of several guilds.
pub proof fn lemma_multi_srems_spared(bad: spec_fn(RedisKey) -> bool, s: CacheSettings, n: int, kinds: Seq<GuildList>, lists: Seq<Seq<u64>>)
    requires
        keys_fit(s, bad),
        channels_spared(bad),
        roles_listed_ok(s, kinds),
    ensures
        avoids(bad, multi_srems(s, n, kinds, lists)),
    decreases kinds.len(),
{
    if kinds.len() > 0 {
        lemma_roles_listed_drop(s, kinds);
        let block = crate::cache::guilds_delete::block_of(lists, kinds.len() - 1, n);
        lemma_multi_srems_spared(bad, s, n, kinds.drop_last(), lists);
        let k = kinds.last();
        lemma_srem_spared(bad, s, RedisKey::Users, crate::cache::guilds_delete::flat(block));
        lemma_srem_spared(bad, s, 
            crate::cache::common::all_ids_key(crate::cache::guild_delete::list_entry_kind(k)),
            crate::cache::guilds_delete::flat(block),
        );
        lemma_concat_avoids(bad, multi_srems(s, n, kinds.drop_last(), lists), multi_list_srems(s, k, block));
    }
}

/// Dropping a guild from the guilds of its users.
pub proof fn lemma_user_guild_spared(bad: spec_fn(RedisKey) -> bool, s: CacheSettings, guild: u64, users: Seq<u64>)
    requires
        keys_fit(s, bad),
    ensures
        avoids(bad, user_guild_cmds(guild, users)),
    decreases users.len(),
{
    if users.len() > 0 {
        let u = users.last();
        lemma_user_guild_spared(bad, s, guild, users.drop_last());
        lemma_set_ops_avoid(bad, RedisKey::UserGuilds { id: u }, seq![guild], 0, 0, 0);
        lemma_two_avoid(
            bad,
            cmd_srem(key_bytes(RedisKey::UserGuilds { id: u }), seq![guild]),
            cmd_scard(key_bytes(RedisKey::UserGuilds { id: u })),
        );
        lemma_concat_avoids(
            bad,
            user_guild_cmds(guild, users.drop_last()),
            seq![
                cmd_srem(key_bytes(RedisKey::UserGuilds { id: u }), seq![guild]),
                cmd_scard(key_bytes(RedisKey::UserGuilds { id: u })),
            ],
        );
    }
}

/// Dropping each of several guilds from the guilds of its users.
pub proof fn lemma_users_each_spared(bad: spec_fn(RedisKey) -> bool, s: CacheSettings, guilds: Seq<u64>, lists: Seq<Seq<u64>>)
    requires
        keys_fit(s, bad),
    ensures
        avoids(bad, users_each_cmds(guilds, lists)),
    decreases guilds.len(),
{
    if guilds.len() > 0 {
        lemma_users_each_spared(bad, s, guilds.drop_last(), lists);
        lemma_user_guild_spared(bad, s, guilds.last(), lists[guilds.len() - 1]);
        lemma_concat_avoids(
            bad,
            users_each_cmds(guilds.drop_last(), lists),
            user_guild_cmds(guilds.last(), lists[guilds.len() - 1]),
        );
    }
}

/// Reading a set of a guild.
pub proof fn lemma_smembers_spared(bad: spec_fn(RedisKey) -> bool, s: CacheSettings, k: GuildList, guild: u64)
    requires
        keys_fit(s, bad),
        k == GuildList::Roles ==> s.role.wanted,
    ensures
        command_avoids(bad, cmd_smembers(key_bytes(guild_list_key(k, guild)))),
{
    lemma_names_distinct();
    lemma_keyed_command(bad, cmd_smembers(key_bytes(guild_list_key(k, guild))), guild_list_key(k, guild));
}

/// Reading the sets of a guild.
pub proof fn lemma_smembers_cmds_spared(bad: spec_fn(RedisKey) -> bool, s: CacheSettings, kinds: Seq<GuildList>, guild: u64)
    requires
        keys_fit(s, bad),
        roles_listed_ok(s, kinds),
    ensures
        avoids(bad, smembers_cmds(kinds, guild)),
{
    let cmds = smembers_cmds(kinds, guild);
    assert forall|i: int| 0 <= i < cmds.len() implies command_avoids(bad, #[trigger] cmds[i]) by {
        lemma_smembers_spared(bad, s, kinds[i], guild);
    }
}

/// Reading the sets of several guilds.
pub proof fn lemma_smembers_all_spared(bad: spec_fn(RedisKey) -> bool, s: CacheSettings, kinds: Seq<GuildList>, guilds: Seq<u64>)
    requires
        keys_fit(s, bad),
        roles_listed_ok(s, kinds),
    ensures
        avoids(bad, smembers_all_cmds(kinds, guilds)),
    decreases kinds.len(),
{
    if kinds.len() > 0 {
        lemma_roles_listed_drop(s, kinds);
        lemma_smembers_all_spared(bad, s, kinds.drop_last(), guilds);
        let each = smembers_each_cmds(kinds.last(), guilds);
        assert forall|i: int| 0 <= i < each.len() implies command_avoids(bad, #[trigger] each[i]) by {
            lemma_smembers_spared(bad, s, kinds.last(), guilds[i]);
        }
        lemma_concat_avoids(bad, smembers_all_cmds(kinds.drop_last(), guilds), each);
    }
}


/// Taking ids out of or adding ids to a set that `bad` does not hold, as the
/// only command.
proof fn lemma_set_cmd_list(bad: spec_fn(RedisKey) -> bool, k: RedisKey, ids: Seq<u64>)
    requires
        !bad(k),
    ensures
        avoids(bad, seq![cmd_srem(key_bytes(k), ids)]),
        avoids(bad, seq![cmd_sadd(key_bytes(k), ids)]),
{
    lemma_set_ops_avoid(bad, k, ids, 0, 0, 0);
    lemma_one_avoids(bad, cmd_srem(key_bytes(k), ids));
    lemma_one_avoids(bad, cmd_sadd(key_bytes(k), ids));
}

/// The first step of removing a guild.
pub proof fn lemma_guild_start_avoids(bad: spec_fn(RedisKey) -> bool, s: CacheSettings, guild: u64)
    requires
        keys_fit(s, bad),
        !bad(RedisKey::Guilds),
    ensures
        avoids(bad, delete_guild_start_cmds(s, guild)),
{
    lemma_guild_lists_roles(s);
    if guild_lists(s).len() == 0 {
        if s.guild.wanted {
            let c = delete_guild_entry_cmds(s, guild);
            lemma_del_one_avoids(bad, RedisKey::Guild { id: guild });
            lemma_set_ops_avoid(bad, RedisKey::Guilds, seq![guild], 0, 0, 0);
            lemma_two_avoid(bad, c[0], c[1]);
            assert(c =~= seq![c[0], c[1]]);
        }
    } else {
        lemma_smembers_cmds_spared(bad, s, guild_lists(s), guild);
    }
}

/// The last step of removing a guild.
pub proof fn lemma_guild_finish_avoids(bad: spec_fn(RedisKey) -> bool, s: CacheSettings, guild: u64, lists: Seq<Seq<u64>>, counts: Seq<usize>)
    requires
        keys_fit(s, bad),
        channels_spared(bad),
        !bad(RedisKey::Guilds),
    ensures
        avoids(bad, delete_guild_finish_cmds(s, guild, lists, counts)),
{
    lemma_guild_lists_roles(s);
    let keys = delete_guild_keys(s, guild, lists, counts);
    let fs = finish_srems(s, guild_lists(s), lists, counts);
    let sg = if s.guild.wanted {
        seq![cmd_srem(key_bytes(RedisKey::Guilds), seq![guild])]
    } else {
        Seq::empty()
    };
    let dl = if keys.len() > 0 {
        seq![cmd_del(key_texts(keys))]
    } else {
        Seq::empty()
    };
    lemma_finish_srems_spared(bad, s, guild_lists(s), lists, counts);
    lemma_set_cmd_list(bad, RedisKey::Guilds, seq![guild]);
    lemma_finish_keys_spare(bad, s, guild, guild_lists(s), lists, counts);
    assert(spares(bad, seq![RedisKey::Guild { id: guild }]));
    lemma_spares_concat(bad, s, finish_keys(s, guild, guild_lists(s), lists, counts), seq![RedisKey::Guild { id: guild }]);
    lemma_spares_concat(bad, s, finish_keys(s, guild, guild_lists(s), lists, counts), Seq::empty());
    if keys.len() > 0 {
        lemma_del_spared(bad, s, keys);
    }
    lemma_concat_avoids(bad, fs, sg);
    lemma_concat_avoids(bad, fs + sg, dl);
}

/// The first step of removing several guilds.
pub proof fn lemma_guilds_start_avoids(bad: spec_fn(RedisKey) -> bool, s: CacheSettings, guilds: Seq<u64>)
    requires
        keys_fit(s, bad),
        !bad(RedisKey::Guilds),
    ensures
        avoids(bad, delete_guilds_start_cmds(s, guilds)),
{
    lemma_guild_lists_roles(s);
    if guild_lists(s).len() == 0 || guilds.len() == 0 {
        if s.guild.wanted {
            let rem = seq![cmd_srem(key_bytes(RedisKey::Guilds), guilds)];
            let dl = if guilds.len() > 0 {
                seq![cmd_del(key_texts(guilds.map_values(|x: u64| RedisKey::Guild { id: x })))]
            } else {
                Seq::empty()
            };
            lemma_set_cmd_list(bad, RedisKey::Guilds, guilds);
            lemma_guild_keys_spare(bad, s, GuildList::Members, guilds);
            if guilds.len() > 0 {
                lemma_del_spared(bad, s, guilds.map_values(|x: u64| RedisKey::Guild { id: x }));
            }
            lemma_concat_avoids(bad, rem, dl);
            assert(delete_guild_entries_cmds(s, guilds) =~= rem + dl);
        }
    } else {
        lemma_smembers_all_spared(bad, s, guild_lists(s), guilds);
    }
}

/// The last step of removing several guilds.
pub proof fn lemma_guilds_finish_avoids(bad: spec_fn(RedisKey) -> bool, s: CacheSettings, guilds: Seq<u64>, lists: Seq<Seq<u64>>, counts: Seq<usize>)
    requires
        keys_fit(s, bad),
        channels_spared(bad),
        !bad(RedisKey::Guilds),
    ensures
        avoids(bad, delete_guilds_finish_cmds(s, guilds, lists, counts)),
{
    lemma_guild_lists_roles(s);
    let keys = delete_guilds_keys(s, guilds, lists, counts);
    let fs = multi_srems(s, guilds.len() as int, guild_lists(s), lists);
    let sg = if s.guild.wanted {
        seq![cmd_srem(key_bytes(RedisKey::Guilds), guilds)]
    } else {
        Seq::empty()
    };
    let dl = if keys.len() > 0 {
        seq![cmd_del(key_texts(keys))]
    } else {
        Seq::empty()
    };
    lemma_multi_srems_spared(bad, s, guilds.len() as int, guild_lists(s), lists);
    lemma_set_cmd_list(bad, RedisKey::Guilds, guilds);
    lemma_multi_keys_spare(bad, s, guilds, guild_lists(s), lists, counts);
    lemma_guild_keys_spare(bad, s, GuildList::Members, guilds);
    lemma_spares_concat(bad, s, multi_keys(s, guilds, guild_lists(s), lists, counts), guilds.map_values(|x: u64| RedisKey::Guild { id: x }));
    lemma_spares_concat(bad, s, multi_keys(s, guilds, guild_lists(s), lists, counts), Seq::empty());
    if keys.len() > 0 {
        lemma_del_spared(bad, s, keys);
    }
    lemma_concat_avoids(bad, fs, sg);
    lemma_concat_avoids(bad, fs + sg, dl);
}

/// The steps of removing a member.
pub proof fn lemma_member_removal_avoids(bad: spec_fn(RedisKey) -> bool, s: CacheSettings, guild: u64, user: u64, common_guilds: usize)
    requires
        keys_fit(s, bad),
    ensures
        avoids(bad, delete_member_start_cmds(s, guild, user) + delete_member_finish_cmds(s, guild, user, common_guilds)),
{
    let a = delete_member_start_cmds(s, guild, user);
    if s.user.wanted {
        lemma_set_ops_avoid(bad, RedisKey::UserGuilds { id: user }, seq![guild], 0, 0, 0);
        lemma_two_avoid(bad, a[0], a[1]);
        assert(a =~= seq![a[0], a[1]]);
    }
    let b1 = if s.user.wanted && common_guilds == 0 {
        seq![
            cmd_del(seq![key_bytes(RedisKey::User { id: user })]),
            cmd_srem(key_bytes(RedisKey::Users), seq![user]),
        ]
    } else {
        Seq::empty()
    };
    let b2 = if s.member.wanted {
        seq![
            cmd_del(seq![key_bytes(RedisKey::Member { guild, user })]),
            cmd_srem(key_bytes(RedisKey::GuildMembers { id: guild }), seq![user]),
        ]
    } else {
        Seq::empty()
    };
    if s.user.wanted && common_guilds == 0 {
        lemma_del_one_avoids(bad, RedisKey::User { id: user });
        lemma_set_ops_avoid(bad, RedisKey::Users, seq![user], 0, 0, 0);
        lemma_two_avoid(bad, b1[0], b1[1]);
        assert(b1 =~= seq![b1[0], b1[1]]);
    }
    if s.member.wanted {
        lemma_del_one_avoids(bad, RedisKey::Member { guild, user });
        lemma_set_ops_avoid(bad, RedisKey::GuildMembers { id: guild }, seq![user], 0, 0, 0);
        lemma_two_avoid(bad, b2[0], b2[1]);
        assert(b2 =~= seq![b2[0], b2[1]]);
    }
    lemma_concat_avoids(bad, b1, b2);
    lemma_concat_avoids(bad, a, b1 + b2);
}

/// A type not cached is not touched by removing a guild either: with roles
/// not cached, no command of removing a guild names a role key, whatever
/// the store answered.
pub proof fn law_ignored_roles_untouched_by_guild_removal(
    s: CacheSettings,
    guild: u64,
    users: Seq<u64>,
    lists: Seq<Seq<u64>>,
    counts: Seq<usize>,
    unavailable: bool,
)
    requires
        !s.role.wanted,
    ensures
        names_no_role_key(guild_removal_cmds(s, guild, users, lists, counts, unavailable)),
{
    let bad = |k: RedisKey| is_role_key(k);
    assert(keys_fit(s, bad));
    assert(channels_spared(bad));
    lemma_guild_start_avoids(bad, s, guild);
    let mid = if guild_lists(s).len() > 0 {
        user_guild_cmds(guild, users) + delete_guild_finish_cmds(s, guild, lists, counts)
    } else {
        Seq::empty()
    };
    if guild_lists(s).len() > 0 {
        lemma_user_guild_spared(bad, s, guild, users);
        lemma_guild_finish_avoids(bad, s, guild, lists, counts);
        lemma_concat_avoids(bad, user_guild_cmds(guild, users), delete_guild_finish_cmds(s, guild, lists, counts));
    }
    let tail = if unavailable && s.guild.wanted {
        seq![cmd_sadd(key_bytes(RedisKey::UnavailableGuilds), seq![guild])]
    } else {
        Seq::empty()
    };
    lemma_set_cmd_list(bad, RedisKey::UnavailableGuilds, seq![guild]);
    lemma_concat_avoids(bad, delete_guild_start_cmds(s, guild), mid);
    lemma_concat_avoids(bad, delete_guild_start_cmds(s, guild) + mid, tail);
    lemma_no_role_key(guild_removal_cmds(s, guild, users, lists, counts, unavailable));
}

/// A type not cached is not touched by removing the guilds of a ready
/// event either: with roles not cached, none of its commands names a role
/// key, whatever the store answered.
pub proof fn law_ignored_roles_untouched_by_ready_removal(
    s: CacheSettings,
    guilds: Seq<u64>,
    users: Seq<Seq<u64>>,
    lists: Seq<Seq<u64>>,
    counts: Seq<usize>,
    current_user: Seq<u8>,
)
    requires
        !s.role.wanted,
    ensures
        names_no_role_key(ready_removal_cmds(s, guilds, users, lists, counts, current_user)),
{
    let bad = |k: RedisKey| is_role_key(k);
    assert(keys_fit(s, bad));
    assert(channels_spared(bad));
    lemma_guilds_start_avoids(bad, s, guilds);
    let mid = if guild_lists(s).len() > 0 && guilds.len() > 0 {
        users_each_cmds(guilds, users) + delete_guilds_finish_cmds(s, guilds, lists, counts)
    } else {
        Seq::empty()
    };
    if guild_lists(s).len() > 0 && guilds.len() > 0 {
        lemma_users_each_spared(bad, s, guilds, users);
        lemma_guilds_finish_avoids(bad, s, guilds, lists, counts);
        lemma_concat_avoids(bad, users_each_cmds(guilds, users), delete_guilds_finish_cmds(s, guilds, lists, counts));
    }
    let mark = if s.guild.wanted {
        seq![cmd_sadd(key_bytes(RedisKey::UnavailableGuilds), guilds)]
    } else {
        Seq::empty()
    };
    lemma_set_cmd_list(bad, RedisKey::UnavailableGuilds, guilds);
    lemma_current_user_avoids(bad, s, current_user);
    let start = delete_guilds_start_cmds(s, guilds);
    lemma_concat_avoids(bad, start, mid);
    lemma_concat_avoids(bad, start + mid, mark);
    lemma_concat_avoids(bad, start + mid + mark, store_current_user_cmds(s, current_user));
    lemma_no_role_key(ready_removal_cmds(s, guilds, users, lists, counts, current_user));
}

/// A type not cached is not touched by removing a member either: with
/// roles not cached, none of its commands names a role key.
pub proof fn law_ignored_roles_untouched_by_member_removal(s: CacheSettings, guild: u64, user: u64, common_guilds: usize)
    requires
        !s.role.wanted,
    ensures
        names_no_role_key(delete_member_start_cmds(s, guild, user) + delete_member_finish_cmds(s, guild, user, common_guilds)),
{
    let bad = |k: RedisKey| is_role_key(k);
    assert(keys_fit(s, bad));
    assert(channels_spared(bad));
    lemma_member_removal_avoids(bad, s, guild, user, common_guilds);
    lemma_no_role_key(delete_member_start_cmds(s, guild, user) + delete_member_finish_cmds(s, guild, user, common_guilds));
}

} // verus!
