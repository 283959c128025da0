//! Which keys the commands of an event name: with roles not cached, no role
//! key; and only storing a guild names the sets of the guilds and of the
//! unavailable guilds.
use vstd::prelude::*;

use crate::key::{key_bytes, RedisKey};
use crate::pipe::{
    cmd_del, cmd_expire, cmd_mset, cmd_sadd, cmd_scard, cmd_set, cmd_setex, cmd_srem, cmd_zadd, cmd_zrem, item_pairs, key_texts, mset_commands, name_del, name_expire, name_mset, name_sadd, name_scard, name_set, name_setex, name_smembers, name_srem, name_zadd, name_zrem, pair_args, set_command,
};
use crate::segments::{key_of_text, lemma_key_of_text};
use crate::cache::channel::{
    channel_meta_command, channel_meta_commands, delete_channel_cmds, recipients_of, store_channel_cmds, store_channel_entry_cmds, store_channels_cmds, store_thread_member_cmds,
};
use crate::cache::common::{
    all_ids_key, delete_keyed_cmds, entry_key, guild_ids_key, keyed_ids, keyed_items, kind_settings, meta_command, meta_commands, meta_key, store_keyed_cmds, store_keyed_one_cmds, EntryKind,
};
use crate::cache::current_user::store_current_user_cmds;
use crate::cache::integration::{delete_integration_cmds, store_integration_cmds};
use crate::cache::member::{
    member_items, member_user_ids, member_users, store_member_cmds, store_member_link_cmds, store_member_update_cmds, store_members_cmds, store_partial_member_cmds, user_guild_adds,
};
use crate::cache::presence::{
    presence_items, presence_user_ids, presence_users, store_presence_cmds, store_presences_cmds,
};
use crate::cache::user::{store_partial_user_cmds, store_user_cmds, store_users_cmds, user_ids, user_items};
use crate::cache::voice_state::{
    connected, delete_voice_state_cmds, store_voice_state_cmds, store_voice_states_cmds, voice_state_items, voice_state_user_ids,
};
use crate::cache::message::{
    delete_message_cmds, delete_messages_cmds, message_delete_keys, message_meta_command, message_partial_members, message_score, partial_members_cmds, store_message_cmds, store_message_entry_cmds, store_message_members_cmds, store_thread_cmds,
};
use crate::archive::{archived_u64, opt_id};
use crate::cache::guild::{
    store_guild_cmds, store_guild_entry_cmds, store_guild_parts_a_cmds, store_guild_parts_b_cmds, store_guild_parts_c_cmds, store_guild_parts_cmds, store_guild_update_cmds,
};
use crate::cache::interaction::{
    interaction_member_cmds, opt_channel_cmds, opt_message_cmds, opt_user_cmds, store_interaction_cmds, store_resolved_cmds, InteractionEntry,
};
use crate::cache::role::store_roles_cmds;
use crate::entries::{EmojiEntry, GuildEntry, MessageEntry, RoleEntry};
use crate::update::{update_cmds, CacheEvent};
use crate::config::CacheSettings;
use crate::entries::{
    ChannelEntry, IntegrationEntry, Keyed, MemberEntry, PartialMemberEntry, PresenceEntry, ThreadMemberEntry, UserEntry, VoiceStateEntry,
};

verus! {

/// A key that belongs to roles: a role entry, its bookkeeping, a guild's
/// set of role ids, or the set of all role ids.
pub open spec fn is_role_key(k: RedisKey) -> bool {
    ||| k is Role
    ||| k is RoleMeta
    ||| k is GuildRoles
    ||| k is Roles
}

/// Whether argument `j` of command `c` is a key: every argument after `DEL`,
/// every other one after `MSET` starting with the first, and the first
/// argument of any other command.
pub open spec fn key_position(c: Seq<Seq<u8>>, j: int) -> bool {
    if c.len() > 0 && c[0] == name_del() {
        1 <= j < c.len()
    } else if c.len() > 0 && c[0] == name_mset() {
        1 <= j < c.len() && j % 2 == 1
    } else {
        j == 1 && c.len() > 1
    }
}

/// The keys that some commands must not name, as they fit settings `s`:
/// role keys, where roles are not cached, the sets of the guilds and of the
/// unavailable guilds, and the channel entries and the set of all channel
/// ids.
pub open spec fn keys_fit(s: CacheSettings, bad: spec_fn(RedisKey) -> bool) -> bool {
    forall|k: RedisKey|
        #[trigger] bad(k) ==> (is_role_key(k) && !s.role.wanted) || k is Guilds || k is UnavailableGuilds
            || k is Channel || k is Channels
}

/// `bad` holds neither a channel entry nor the set of all channel ids.
pub open spec fn channels_spared(bad: spec_fn(RedisKey) -> bool) -> bool {
    &&& forall|id: u64| !#[trigger] bad(RedisKey::Channel { id })
    &&& !bad(RedisKey::Channels)
}

/// No key argument of `c` reads as a key that `bad` holds.
pub open spec fn command_avoids(bad: spec_fn(RedisKey) -> bool, c: Seq<Seq<u8>>) -> bool {
    forall|j: int| key_position(c, j) ==> !bad(key_of_text(#[trigger] c[j]))
}

/// No key argument of any of `cmds` reads as a key that `bad` holds.
pub open spec fn avoids(bad: spec_fn(RedisKey) -> bool, cmds: Seq<Seq<Seq<u8>>>) -> bool {
    forall|i: int| 0 <= i < cmds.len() ==> command_avoids(bad, #[trigger] cmds[i])
}

/// The command names other than `DEL` and `MSET`, which take their keys at
/// other positions.
pub proof fn lemma_names_distinct()
    ensures
        name_set() != name_del(),
        name_set() != name_mset(),
        name_setex() != name_del(),
        name_setex() != name_mset(),
        name_expire() != name_del(),
        name_expire() != name_mset(),
        name_sadd() != name_del(),
        name_sadd() != name_mset(),
        name_srem() != name_del(),
        name_srem() != name_mset(),
        name_scard() != name_del(),
        name_scard() != name_mset(),
        name_zadd() != name_del(),
        name_zadd() != name_mset(),
        name_zrem() != name_del(),
        name_zrem() != name_mset(),
        name_smembers() != name_del(),
        name_smembers() != name_mset(),
        name_del() != name_mset(),
{
    assert(name_smembers().len() != name_del().len());
    assert(name_smembers().len() != name_mset().len());
    assert(name_set()[0] != name_del()[0]);
    assert(name_set().len() != name_mset().len());
    assert(name_setex().len() != name_del().len());
    assert(name_setex().len() != name_mset().len());
    assert(name_expire().len() != name_del().len());
    assert(name_expire().len() != name_mset().len());
    assert(name_sadd().len() != name_del().len());
    assert(name_sadd()[0] != name_mset()[0]);
    assert(name_srem().len() != name_del().len());
    assert(name_srem()[0] != name_mset()[0]);
    assert(name_scard().len() != name_del().len());
    assert(name_scard().len() != name_mset().len());
    assert(name_zadd().len() != name_del().len());
    assert(name_zadd()[0] != name_mset()[0]);
    assert(name_zrem().len() != name_del().len());
    assert(name_zrem()[0] != name_mset()[0]);
    assert(name_del().len() != name_mset().len());
}

/// A command whose only key is its first argument, the text of a key that
/// `bad` does not hold.
pub proof fn lemma_keyed_command(bad: spec_fn(RedisKey) -> bool, c: Seq<Seq<u8>>, k: RedisKey)
    requires
        c.len() >= 2,
        c[0] != name_del(),
        c[0] != name_mset(),
        c[1] == key_bytes(k),
        !bad(k),
    ensures
        command_avoids(bad, c),
{
    lemma_key_of_text(k);
}

/// Storing one entry under a key that `bad` does not hold.
pub proof fn lemma_set_avoids(bad: spec_fn(RedisKey) -> bool, k: RedisKey, value: Seq<u8>, expire: Option<u64>)
    requires
        !bad(k),
    ensures
        command_avoids(bad, set_command(key_bytes(k), value, expire)),
        command_avoids(bad, cmd_set(key_bytes(k), value)),
{
    lemma_names_distinct();
    lemma_keyed_command(bad, cmd_set(key_bytes(k), value), k);
    match expire {
        Some(s) => lemma_keyed_command(bad, cmd_setex(key_bytes(k), value, s), k),
        None => {},
    }
}

/// Adding to, removing from, counting or timing out a set that is not a
/// role key.
pub proof fn lemma_set_ops_avoid(bad: spec_fn(RedisKey) -> bool, k: RedisKey, ids: Seq<u64>, id: u64, score: i64, seconds: i64)
    requires
        !bad(k),
    ensures
        command_avoids(bad, cmd_sadd(key_bytes(k), ids)),
        command_avoids(bad, cmd_srem(key_bytes(k), ids)),
        command_avoids(bad, cmd_scard(key_bytes(k))),
        command_avoids(bad, cmd_zadd(key_bytes(k), id, score)),
        command_avoids(bad, cmd_zrem(key_bytes(k), ids)),
        command_avoids(bad, cmd_expire(key_bytes(k), seconds)),
{
    lemma_names_distinct();
    lemma_keyed_command(bad, cmd_sadd(key_bytes(k), ids), k);
    lemma_keyed_command(bad, cmd_srem(key_bytes(k), ids), k);
    lemma_keyed_command(bad, cmd_scard(key_bytes(k)), k);
    lemma_keyed_command(bad, cmd_zadd(key_bytes(k), id, score), k);
    lemma_keyed_command(bad, cmd_zrem(key_bytes(k), ids), k);
    lemma_keyed_command(bad, cmd_expire(key_bytes(k), seconds), k);
}

/// Removing keys none of which `bad` holds.
pub proof fn lemma_del_avoids(bad: spec_fn(RedisKey) -> bool, keys: Seq<RedisKey>)
    requires
        forall|m: int| 0 <= m < keys.len() ==> !bad(#[trigger] keys[m]),
    ensures
        command_avoids(bad, cmd_del(key_texts(keys))),
{
    lemma_names_distinct();
    let c = cmd_del(key_texts(keys));
    assert forall|j: int| key_position(c, j) implies !bad(key_of_text(#[trigger] c[j])) by {
        assert(c[j] == key_bytes(keys[j - 1]));
        lemma_key_of_text(keys[j - 1]);
    }
}

/// Removing one key that `bad` does not hold.
pub proof fn lemma_del_one_avoids(bad: spec_fn(RedisKey) -> bool, k: RedisKey)
    requires
        !bad(k),
    ensures
        command_avoids(bad, cmd_del(seq![key_bytes(k)])),
{
    assert(key_texts(seq![k]) =~= seq![key_bytes(k)]);
    lemma_del_avoids(bad, seq![k]);
}

/// The arguments of `pair_args`: twice as many as pairs, each key at an even
/// position.
pub proof fn lemma_pair_args(ps: Seq<(Seq<u8>, Seq<u8>)>)
    ensures
        pair_args(ps).len() == 2 * ps.len(),
        forall|m: int| 0 <= m < ps.len() ==> #[trigger] pair_args(ps)[2 * m] == ps[m].0,
    decreases ps.len(),
{
    if ps.len() > 0 {
        lemma_pair_args(ps.drop_last());
        let rest = ps.drop_last();
        assert forall|m: int| 0 <= m < ps.len() implies #[trigger] pair_args(ps)[2 * m] == ps[m].0 by {
            if m < rest.len() {
                assert(pair_args(ps)[2 * m] == pair_args(rest)[2 * m]);
            }
        }
    }
}

/// Storing several entries at once, none under a key that `bad` holds.
pub proof fn lemma_mset_avoids(bad: spec_fn(RedisKey) -> bool, items: Seq<(RedisKey, Seq<u8>)>, expire: Option<u64>)
    requires
        forall|m: int| 0 <= m < items.len() ==> !bad(#[trigger] items[m].0),
    ensures
        avoids(bad, mset_commands(items, expire)),
{
    lemma_names_distinct();
    let ps = item_pairs(items);
    lemma_pair_args(ps);
    let c = cmd_mset(ps);
    assert forall|j: int| key_position(c, j) implies !bad(key_of_text(#[trigger] c[j])) by {
        let m = (j - 1) / 2;
        assert(2 * m == j - 1);
        assert(c[j] == pair_args(ps)[2 * m]);
        assert(ps[m].0 == key_bytes(items[m].0));
        lemma_key_of_text(items[m].0);
    }
    let cmds = mset_commands(items, expire);
    assert forall|i: int| 0 <= i < cmds.len() implies command_avoids(bad, #[trigger] cmds[i]) by {
        if i > 0 {
            match expire {
                Some(s) => {
                    let x = items[i - 1];
                    assert(cmds[i] == cmd_expire(key_bytes(x.0), s as i64));
                    lemma_set_ops_avoid(bad, x.0, Seq::empty(), 0, 0, s as i64);
                },
                None => {},
            }
        }
    }
}

/// Two lists of commands, each free of the keys `bad` holds, joined.
pub proof fn lemma_concat_avoids(bad: spec_fn(RedisKey) -> bool, a: Seq<Seq<Seq<u8>>>, b: Seq<Seq<Seq<u8>>>)
    requires
        avoids(bad, a),
        avoids(bad, b),
    ensures
        avoids(bad, a + b),
{
    assert forall|i: int| 0 <= i < (a + b).len() implies command_avoids(bad, #[trigger] (a + b)[i]) by {
        if i < a.len() {
            assert((a + b)[i] == a[i]);
        } else {
            assert((a + b)[i] == b[i - a.len()]);
        }
    }
}

/// A list of one command free of the keys `bad` holds.
pub proof fn lemma_one_avoids(bad: spec_fn(RedisKey) -> bool, a: Seq<Seq<u8>>)
    requires
        command_avoids(bad, a),
    ensures
        avoids(bad, seq![a]),
{
}

/// A list of two commands free of the keys `bad` holds.
pub proof fn lemma_two_avoid(bad: spec_fn(RedisKey) -> bool, a: Seq<Seq<u8>>, b: Seq<Seq<u8>>)
    requires
        command_avoids(bad, a),
        command_avoids(bad, b),
    ensures
        avoids(bad, seq![a, b]),
{
    let l = seq![a, b];
    assert forall|i: int| 0 <= i < 2 implies command_avoids(bad, #[trigger] l[i]) by {
        if i == 0 {
            assert(l[i] == a);
        } else {
            assert(l[i] == b);
        }
    }
}

/// A list of three commands free of the keys `bad` holds.
pub proof fn lemma_three_avoid(bad: spec_fn(RedisKey) -> bool, a: Seq<Seq<u8>>, b: Seq<Seq<u8>>, c: Seq<Seq<u8>>)
    requires
        command_avoids(bad, a),
        command_avoids(bad, b),
        command_avoids(bad, c),
    ensures
        avoids(bad, seq![a, b, c]),
{
    let l = seq![a, b, c];
    assert forall|i: int| 0 <= i < 3 implies command_avoids(bad, #[trigger] l[i]) by {
        if i == 0 {
            assert(l[i] == a);
        } else if i == 1 {
            assert(l[i] == b);
        } else {
            assert(l[i] == c);
        }
    }
}

/// The empty list of commands.
pub proof fn lemma_empty_avoids(bad: spec_fn(RedisKey) -> bool)
    ensures
        avoids(bad, Seq::<Seq<Seq<u8>>>::empty()),
{
}

/// A list of commands free of the keys `bad` holds, then one more.
pub proof fn lemma_push_avoids(bad: spec_fn(RedisKey) -> bool, a: Seq<Seq<Seq<u8>>>, c: Seq<Seq<u8>>)
    requires
        avoids(bad, a),
        command_avoids(bad, c),
    ensures
        avoids(bad, a + seq![c]),
{
    lemma_one_avoids(bad, c);
    lemma_concat_avoids(bad, a, seq![c]);
}

/// Adding ids to a set that `bad` does not hold, as the only command.
proof fn lemma_sadd_list(bad: spec_fn(RedisKey) -> bool, k: RedisKey, ids: Seq<u64>)
    requires
        !bad(k),
    ensures
        avoids(bad, seq![cmd_sadd(key_bytes(k), ids)]),
{
    lemma_set_ops_avoid(bad, k, ids, 0, 0, 0);
    lemma_one_avoids(bad, cmd_sadd(key_bytes(k), ids));
}

/// Storing a user.
pub proof fn lemma_user_avoids(bad: spec_fn(RedisKey) -> bool, s: CacheSettings, user: UserEntry)
    requires
        keys_fit(s, bad),
    ensures
        avoids(bad, store_user_cmds(s, user)),
{
    if s.user.wanted {
        lemma_set_avoids(bad, RedisKey::User { id: user.id }, user.bytes@, s.user.expire_seconds);
        lemma_set_ops_avoid(bad, RedisKey::Users, seq![user.id], 0, 0, 0);
        lemma_two_avoid(bad, 
            set_command(key_bytes(RedisKey::User { id: user.id }), user.bytes@, s.user.expire_seconds),
            cmd_sadd(key_bytes(RedisKey::Users), seq![user.id]),
        );
    }
}

/// Storing several users.
pub proof fn lemma_users_avoid(bad: spec_fn(RedisKey) -> bool, s: CacheSettings, users: Seq<UserEntry>)
    requires
        keys_fit(s, bad),
    ensures
        avoids(bad, store_users_cmds(s, users)),
{
    if s.user.wanted && users.len() > 0 {
        lemma_mset_avoids(bad, user_items(users), s.user.expire_seconds);
        lemma_sadd_list(bad, RedisKey::Users, user_ids(users));
        lemma_concat_avoids(bad, 
            mset_commands(user_items(users), s.user.expire_seconds),
            seq![cmd_sadd(key_bytes(RedisKey::Users), user_ids(users))],
        );
    }
}

/// Storing the id of a user alone.
pub proof fn lemma_partial_user_avoids(bad: spec_fn(RedisKey) -> bool, s: CacheSettings, id: u64)
    requires
        keys_fit(s, bad),
    ensures
        avoids(bad, store_partial_user_cmds(s, id)),
{
    if s.user.wanted {
        lemma_sadd_list(bad, RedisKey::Users, seq![id]);
    }
}

/// Storing the current user.
pub proof fn lemma_current_user_avoids(bad: spec_fn(RedisKey) -> bool, s: CacheSettings, bytes: Seq<u8>)
    requires
        keys_fit(s, bad),
    ensures
        avoids(bad, store_current_user_cmds(s, bytes)),
{
    if s.current_user.wanted {
        lemma_set_avoids(bad, RedisKey::CurrentUser, bytes, s.current_user.expire_seconds);
        lemma_one_avoids(bad, set_command(key_bytes(RedisKey::CurrentUser), bytes, s.current_user.expire_seconds));
    }
}

/// The keys of an entry kind, roles only where they are cached.
proof fn lemma_kind_keys(bad: spec_fn(RedisKey) -> bool, s: CacheSettings, kind: EntryKind, id: u64, guild: u64)
    requires
        keys_fit(s, bad),
        kind == EntryKind::Channel ==> channels_spared(bad),
        kind == EntryKind::Role ==> s.role.wanted,
    ensures
        !bad(entry_key(kind, id)),
        !bad(meta_key(kind, id)),
        !bad(all_ids_key(kind)),
        !bad(guild_ids_key(kind, guild)),
{
}

/// The bookkeeping of entries of a kind, roles only where they are cached.
proof fn lemma_meta_avoid<T: Keyed>(bad: spec_fn(RedisKey) -> bool, s: CacheSettings, kind: EntryKind, entries: Seq<T>, value: u64)
    requires
        keys_fit(s, bad),
        kind == EntryKind::Channel ==> channels_spared(bad),
        kind == EntryKind::Role ==> s.role.wanted,
    ensures
        avoids(bad, meta_commands(kind, entries, value)),
{
    let cmds = meta_commands(kind, entries, value);
    assert forall|i: int| 0 <= i < cmds.len() implies command_avoids(bad, #[trigger] cmds[i]) by {
        let id = entries[i].spec_id();
        assert(cmds[i] == meta_command(kind, id, value));
        lemma_kind_keys(bad, s, kind, id, 0);
        lemma_set_avoids(bad, meta_key(kind, id), archived_u64(value), None);
    }
}

/// Storing entries of one kind under a guild.
pub proof fn lemma_keyed_avoid<T: Keyed>(bad: spec_fn(RedisKey) -> bool, s: CacheSettings, kind: EntryKind, guild: u64, entries: Seq<T>)
    requires
        keys_fit(s, bad),
        kind == EntryKind::Channel ==> channels_spared(bad),
    ensures
        avoids(bad, store_keyed_cmds(s, kind, guild, entries)),
{
    let k = kind_settings(s, kind);
    if k.wanted && entries.len() > 0 {
        let items = keyed_items(kind, entries);
        assert forall|m: int| 0 <= m < items.len() implies !bad(#[trigger] items[m].0) by {
            lemma_kind_keys(bad, s, kind, entries[m].spec_id(), guild);
        }
        lemma_mset_avoids(bad, items, k.expire_seconds);
        lemma_kind_keys(bad, s, kind, 0, guild);
        lemma_set_ops_avoid(bad, guild_ids_key(kind, guild), keyed_ids(entries), 0, 0, 0);
        lemma_set_ops_avoid(bad, all_ids_key(kind), keyed_ids(entries), 0, 0, 0);
        lemma_two_avoid(bad, 
            cmd_sadd(key_bytes(guild_ids_key(kind, guild)), keyed_ids(entries)),
            cmd_sadd(key_bytes(all_ids_key(kind)), keyed_ids(entries)),
        );
        lemma_concat_avoids(bad, 
            mset_commands(items, k.expire_seconds),
            seq![
                cmd_sadd(key_bytes(guild_ids_key(kind, guild)), keyed_ids(entries)),
                cmd_sadd(key_bytes(all_ids_key(kind)), keyed_ids(entries)),
            ],
        );
        let head = mset_commands(items, k.expire_seconds) + seq![
            cmd_sadd(key_bytes(guild_ids_key(kind, guild)), keyed_ids(entries)),
            cmd_sadd(key_bytes(all_ids_key(kind)), keyed_ids(entries)),
        ];
        if k.expires() {
            lemma_meta_avoid(bad, s, kind, entries, guild);
            lemma_concat_avoids(bad, head, meta_commands(kind, entries, guild));
        } else {
            lemma_concat_avoids(bad, head, Seq::empty());
        }
    }
}

/// Storing one entry of a kind under a guild.
pub proof fn lemma_keyed_one_avoids(bad: spec_fn(RedisKey) -> bool, s: CacheSettings, kind: EntryKind, guild: u64, id: u64, bytes: Seq<u8>)
    requires
        keys_fit(s, bad),
        kind == EntryKind::Channel ==> channels_spared(bad),
    ensures
        avoids(bad, store_keyed_one_cmds(s, kind, guild, id, bytes)),
{
    let k = kind_settings(s, kind);
    if k.wanted {
        lemma_kind_keys(bad, s, kind, id, guild);
        lemma_set_avoids(bad, entry_key(kind, id), bytes, k.expire_seconds);
        lemma_set_ops_avoid(bad, guild_ids_key(kind, guild), seq![id], 0, 0, 0);
        lemma_set_ops_avoid(bad, all_ids_key(kind), seq![id], 0, 0, 0);
        let head = seq![
            set_command(key_bytes(entry_key(kind, id)), bytes, k.expire_seconds),
            cmd_sadd(key_bytes(guild_ids_key(kind, guild)), seq![id]),
            cmd_sadd(key_bytes(all_ids_key(kind)), seq![id]),
        ];
        lemma_three_avoid(bad, head[0], head[1], head[2]);
        assert(head =~= seq![head[0], head[1], head[2]]);
        if k.expires() {
            lemma_set_avoids(bad, meta_key(kind, id), archived_u64(guild), None);
            lemma_push_avoids(bad, head, meta_command(kind, id, guild));
        } else {
            lemma_concat_avoids(bad, head, Seq::empty());
        }
    }
}

/// Removing one entry of a kind under a guild.
pub proof fn lemma_delete_keyed_avoids(bad: spec_fn(RedisKey) -> bool, s: CacheSettings, kind: EntryKind, guild: u64, id: u64)
    requires
        keys_fit(s, bad),
        kind == EntryKind::Channel ==> channels_spared(bad),
    ensures
        avoids(bad, delete_keyed_cmds(s, kind, guild, id)),
{
    let k = kind_settings(s, kind);
    if k.wanted {
        lemma_kind_keys(bad, s, kind, id, guild);
        lemma_del_one_avoids(bad, entry_key(kind, id));
        lemma_set_ops_avoid(bad, guild_ids_key(kind, guild), seq![id], 0, 0, 0);
        lemma_set_ops_avoid(bad, all_ids_key(kind), seq![id], 0, 0, 0);
        let head = seq![
            cmd_del(seq![key_bytes(entry_key(kind, id))]),
            cmd_srem(key_bytes(guild_ids_key(kind, guild)), seq![id]),
            cmd_srem(key_bytes(all_ids_key(kind)), seq![id]),
        ];
        lemma_three_avoid(bad, head[0], head[1], head[2]);
        assert(head =~= seq![head[0], head[1], head[2]]);
        if k.expires() {
            lemma_del_one_avoids(bad, meta_key(kind, id));
            lemma_push_avoids(bad, head, cmd_del(seq![key_bytes(meta_key(kind, id))]));
        } else {
            lemma_concat_avoids(bad, head, Seq::empty());
        }
    }
}

/// Storing a member and its user.
pub proof fn lemma_member_avoids(bad: spec_fn(RedisKey) -> bool, s: CacheSettings, guild: u64, member: MemberEntry)
    requires
        keys_fit(s, bad),
    ensures
        avoids(bad, store_member_cmds(s, guild, member)),
{
    let user = member.user.id;
    let a = if s.member.wanted {
        seq![
            set_command(key_bytes(RedisKey::Member { guild, user }), member.bytes@, s.member.expire_seconds),
            cmd_sadd(key_bytes(RedisKey::GuildMembers { id: guild }), seq![user]),
        ]
    } else {
        Seq::empty()
    };
    let b = if s.user.wanted {
        seq![cmd_sadd(key_bytes(RedisKey::UserGuilds { id: user }), seq![guild])]
    } else {
        Seq::empty()
    };
    if s.member.wanted {
        lemma_set_avoids(bad, RedisKey::Member { guild, user }, member.bytes@, s.member.expire_seconds);
        lemma_set_ops_avoid(bad, RedisKey::GuildMembers { id: guild }, seq![user], 0, 0, 0);
        lemma_two_avoid(bad, a[0], a[1]);
        assert(a =~= seq![a[0], a[1]]);
    }
    if s.user.wanted {
        lemma_sadd_list(bad, RedisKey::UserGuilds { id: user }, seq![guild]);
    }
    lemma_user_avoids(bad, s, member.user);
    lemma_concat_avoids(bad, a, b);
    lemma_concat_avoids(bad, a + b, store_user_cmds(s, member.user));
}

/// Storing several members and their users.
pub proof fn lemma_members_avoid(bad: spec_fn(RedisKey) -> bool, s: CacheSettings, guild: u64, members: Seq<MemberEntry>)
    requires
        keys_fit(s, bad),
    ensures
        avoids(bad, store_members_cmds(s, guild, members)),
{
    let a = if s.member.wanted && members.len() > 0 {
        mset_commands(member_items(guild, members), s.member.expire_seconds) + seq![
            cmd_sadd(key_bytes(RedisKey::GuildMembers { id: guild }), member_user_ids(members)),
        ]
    } else {
        Seq::empty()
    };
    let b = if s.user.wanted {
        user_guild_adds(guild, members)
    } else {
        Seq::empty()
    };
    if s.member.wanted && members.len() > 0 {
        lemma_mset_avoids(bad, member_items(guild, members), s.member.expire_seconds);
        lemma_set_ops_avoid(bad, RedisKey::GuildMembers { id: guild }, member_user_ids(members), 0, 0, 0);
        lemma_push_avoids(bad, 
            mset_commands(member_items(guild, members), s.member.expire_seconds),
            cmd_sadd(key_bytes(RedisKey::GuildMembers { id: guild }), member_user_ids(members)),
        );
    }
    if s.user.wanted {
        let adds = user_guild_adds(guild, members);
        assert forall|i: int| 0 <= i < adds.len() implies command_avoids(bad, #[trigger] adds[i]) by {
            lemma_set_ops_avoid(bad, RedisKey::UserGuilds { id: members[i].user.id }, seq![guild], 0, 0, 0);
        }
    }
    lemma_users_avoid(bad, s, member_users(members));
    lemma_concat_avoids(bad, a, b);
    lemma_concat_avoids(bad, a + b, store_users_cmds(s, member_users(members)));
}

/// Linking a user and a guild.
pub proof fn lemma_member_link_avoids(bad: spec_fn(RedisKey) -> bool, s: CacheSettings, guild: u64, user: u64)
    requires
        keys_fit(s, bad),
    ensures
        avoids(bad, store_member_link_cmds(s, guild, user)),
{
    let a = if s.user.wanted {
        seq![cmd_sadd(key_bytes(RedisKey::UserGuilds { id: user }), seq![guild])]
    } else {
        Seq::empty()
    };
    let b = if s.member.wanted {
        seq![cmd_sadd(key_bytes(RedisKey::GuildMembers { id: guild }), seq![user])]
    } else {
        Seq::empty()
    };
    if s.user.wanted {
        lemma_sadd_list(bad, RedisKey::UserGuilds { id: user }, seq![guild]);
    }
    if s.member.wanted {
        lemma_sadd_list(bad, RedisKey::GuildMembers { id: guild }, seq![user]);
    }
    lemma_concat_avoids(bad, a, b);
}

/// Storing the user of a member update.
pub proof fn lemma_member_update_avoids(bad: spec_fn(RedisKey) -> bool, s: CacheSettings, guild: u64, user: UserEntry)
    requires
        keys_fit(s, bad),
    ensures
        avoids(bad, store_member_update_cmds(s, guild, user)),
{
    lemma_user_avoids(bad, s, user);
    lemma_member_link_avoids(bad, s, guild, user.id);
    lemma_concat_avoids(bad, store_user_cmds(s, user), store_member_link_cmds(s, guild, user.id));
}

/// Storing a partial member.
pub proof fn lemma_partial_member_avoids(bad: spec_fn(RedisKey) -> bool, s: CacheSettings, guild: u64, member: PartialMemberEntry)
    requires
        keys_fit(s, bad),
    ensures
        avoids(bad, store_partial_member_cmds(s, guild, member)),
{
    match member.user {
        Some(user) => lemma_member_update_avoids(bad, s, guild, user),
        None => {},
    }
}

/// Storing a presence and its user.
pub proof fn lemma_presence_avoids(bad: spec_fn(RedisKey) -> bool, s: CacheSettings, p: PresenceEntry)
    requires
        keys_fit(s, bad),
    ensures
        avoids(bad, store_presence_cmds(s, p)),
{
    let a = if s.presence.wanted {
        seq![
            set_command(
                key_bytes(RedisKey::Presence { guild: p.guild_id, user: p.user_id }),
                p.bytes@,
                s.presence.expire_seconds,
            ),
            cmd_sadd(key_bytes(RedisKey::GuildPresences { id: p.guild_id }), seq![p.user_id]),
        ]
    } else {
        Seq::empty()
    };
    let b = match p.user {
        Some(user) => store_user_cmds(s, user),
        None => Seq::empty(),
    };
    if s.presence.wanted {
        lemma_set_avoids(bad, RedisKey::Presence { guild: p.guild_id, user: p.user_id }, p.bytes@, s.presence.expire_seconds);
        lemma_set_ops_avoid(bad, RedisKey::GuildPresences { id: p.guild_id }, seq![p.user_id], 0, 0, 0);
        lemma_two_avoid(bad, a[0], a[1]);
        assert(a =~= seq![a[0], a[1]]);
    }
    match p.user {
        Some(user) => lemma_user_avoids(bad, s, user),
        None => {},
    }
    lemma_concat_avoids(bad, a, b);
}

/// Storing several presences and their users.
pub proof fn lemma_presences_avoid(bad: spec_fn(RedisKey) -> bool, s: CacheSettings, guild: u64, presences: Seq<PresenceEntry>)
    requires
        keys_fit(s, bad),
    ensures
        avoids(bad, store_presences_cmds(s, guild, presences)),
{
    let a = if s.presence.wanted && presences.len() > 0 {
        mset_commands(presence_items(presences), s.presence.expire_seconds) + seq![
            cmd_sadd(key_bytes(RedisKey::GuildPresences { id: guild }), presence_user_ids(presences)),
        ]
    } else {
        Seq::empty()
    };
    if s.presence.wanted && presences.len() > 0 {
        lemma_mset_avoids(bad, presence_items(presences), s.presence.expire_seconds);
        lemma_set_ops_avoid(bad, RedisKey::GuildPresences { id: guild }, presence_user_ids(presences), 0, 0, 0);
        lemma_push_avoids(bad, 
            mset_commands(presence_items(presences), s.presence.expire_seconds),
            cmd_sadd(key_bytes(RedisKey::GuildPresences { id: guild }), presence_user_ids(presences)),
        );
    }
    lemma_users_avoid(bad, s, presence_users(presences));
    lemma_concat_avoids(bad, a, store_users_cmds(s, presence_users(presences)));
}

/// Storing a voice state and its member.
pub proof fn lemma_voice_state_avoids(bad: spec_fn(RedisKey) -> bool, s: CacheSettings, guild: u64, v: VoiceStateEntry)
    requires
        keys_fit(s, bad),
    ensures
        avoids(bad, store_voice_state_cmds(s, guild, v)),
{
    let a = if s.voice_state.wanted {
        seq![
            set_command(
                key_bytes(RedisKey::VoiceState { guild, user: v.user_id }),
                v.bytes@,
                s.voice_state.expire_seconds,
            ),
            cmd_sadd(key_bytes(RedisKey::GuildVoiceStates { id: guild }), seq![v.user_id]),
        ]
    } else {
        Seq::empty()
    };
    let b = match v.member {
        Some(member) => store_member_cmds(s, guild, member),
        None => Seq::empty(),
    };
    if s.voice_state.wanted {
        lemma_set_avoids(bad, RedisKey::VoiceState { guild, user: v.user_id }, v.bytes@, s.voice_state.expire_seconds);
        lemma_set_ops_avoid(bad, RedisKey::GuildVoiceStates { id: guild }, seq![v.user_id], 0, 0, 0);
        lemma_two_avoid(bad, a[0], a[1]);
        assert(a =~= seq![a[0], a[1]]);
    }
    match v.member {
        Some(member) => lemma_member_avoids(bad, s, guild, member),
        None => {},
    }
    lemma_concat_avoids(bad, a, b);
}

/// Storing the voice states of a guild that are connected.
pub proof fn lemma_voice_states_avoid(bad: spec_fn(RedisKey) -> bool, s: CacheSettings, guild: u64, states: Seq<VoiceStateEntry>)
    requires
        keys_fit(s, bad),
    ensures
        avoids(bad, store_voice_states_cmds(s, guild, states)),
{
    let c = connected(states);
    if s.voice_state.wanted && c.len() > 0 {
        lemma_mset_avoids(bad, voice_state_items(guild, c), s.voice_state.expire_seconds);
        lemma_set_ops_avoid(bad, RedisKey::GuildVoiceStates { id: guild }, voice_state_user_ids(c), 0, 0, 0);
        lemma_push_avoids(bad, 
            mset_commands(voice_state_items(guild, c), s.voice_state.expire_seconds),
            cmd_sadd(key_bytes(RedisKey::GuildVoiceStates { id: guild }), voice_state_user_ids(c)),
        );
    }
}

/// Removing a voice state.
pub proof fn lemma_delete_voice_state_avoids(bad: spec_fn(RedisKey) -> bool, s: CacheSettings, guild: u64, user: u64)
    requires
        keys_fit(s, bad),
    ensures
        avoids(bad, delete_voice_state_cmds(s, guild, user)),
{
    if s.voice_state.wanted {
        lemma_del_one_avoids(bad, RedisKey::VoiceState { guild, user });
        lemma_set_ops_avoid(bad, RedisKey::GuildVoiceStates { id: guild }, seq![user], 0, 0, 0);
        lemma_two_avoid(bad, 
            cmd_del(seq![key_bytes(RedisKey::VoiceState { guild, user })]),
            cmd_srem(key_bytes(RedisKey::GuildVoiceStates { id: guild }), seq![user]),
        );
    }
}

/// Storing an integration and its user.
pub proof fn lemma_integration_avoids(bad: spec_fn(RedisKey) -> bool, s: CacheSettings, guild: u64, i: IntegrationEntry)
    requires
        keys_fit(s, bad),
    ensures
        avoids(bad, store_integration_cmds(s, guild, i)),
{
    let a = if s.integration.wanted {
        seq![
            set_command(key_bytes(RedisKey::Integration { guild, id: i.id }), i.bytes@, s.integration.expire_seconds),
            cmd_sadd(key_bytes(RedisKey::GuildIntegrations { id: guild }), seq![i.id]),
        ]
    } else {
        Seq::empty()
    };
    let b = match i.user {
        Some(user) => store_user_cmds(s, user),
        None => Seq::empty(),
    };
    if s.integration.wanted {
        lemma_set_avoids(bad, RedisKey::Integration { guild, id: i.id }, i.bytes@, s.integration.expire_seconds);
        lemma_set_ops_avoid(bad, RedisKey::GuildIntegrations { id: guild }, seq![i.id], 0, 0, 0);
        lemma_two_avoid(bad, a[0], a[1]);
        assert(a =~= seq![a[0], a[1]]);
    }
    match i.user {
        Some(user) => lemma_user_avoids(bad, s, user),
        None => {},
    }
    lemma_concat_avoids(bad, a, b);
}

/// Removing an integration.
pub proof fn lemma_delete_integration_avoids(bad: spec_fn(RedisKey) -> bool, s: CacheSettings, guild: u64, id: u64)
    requires
        keys_fit(s, bad),
    ensures
        avoids(bad, delete_integration_cmds(s, guild, id)),
{
    if s.integration.wanted {
        lemma_del_one_avoids(bad, RedisKey::Integration { guild, id });
        lemma_set_ops_avoid(bad, RedisKey::GuildIntegrations { id: guild }, seq![id], 0, 0, 0);
        lemma_two_avoid(bad, 
            cmd_del(seq![key_bytes(RedisKey::Integration { guild, id })]),
            cmd_srem(key_bytes(RedisKey::GuildIntegrations { id: guild }), seq![id]),
        );
    }
}

/// Storing the member and presence of a thread member.
pub proof fn lemma_thread_member_avoids(bad: spec_fn(RedisKey) -> bool, s: CacheSettings, guild: Option<u64>, member: Option<ThreadMemberEntry>)
    requires
        keys_fit(s, bad),
    ensures
        avoids(bad, store_thread_member_cmds(s, guild, member)),
{
    match member {
        Some(tm) => {
            let a = match (guild, tm.member) {
                (Some(g), Some(m)) => store_member_cmds(s, g, m),
                _ => Seq::empty(),
            };
            let b = match tm.presence {
                Some(p) => store_presence_cmds(s, p),
                None => Seq::empty(),
            };
            match (guild, tm.member) {
                (Some(g), Some(m)) => lemma_member_avoids(bad, s, g, m),
                _ => {},
            }
            match tm.presence {
                Some(p) => lemma_presence_avoids(bad, s, p),
                None => {},
            }
            lemma_concat_avoids(bad, a, b);
        },
        None => {},
    }
}

/// Storing a channel entry.
pub proof fn lemma_channel_entry_avoids(bad: spec_fn(RedisKey) -> bool, s: CacheSettings, c: ChannelEntry)
    requires
        keys_fit(s, bad),
        channels_spared(bad),
    ensures
        avoids(bad, store_channel_entry_cmds(s, c)),
{
    if s.channel.wanted {
        let set = set_command(key_bytes(RedisKey::Channel { id: c.id }), c.bytes@, s.channel.expire_seconds);
        let meta = if s.channel.expires() {
            seq![channel_meta_command(c.id, c.guild_id)]
        } else {
            Seq::empty()
        };
        let link = match c.guild_id {
            Some(g) => seq![cmd_sadd(key_bytes(RedisKey::GuildChannels { id: g }), seq![c.id])],
            None => Seq::empty(),
        };
        lemma_set_avoids(bad, RedisKey::Channel { id: c.id }, c.bytes@, s.channel.expire_seconds);
        lemma_one_avoids(bad, set);
        if s.channel.expires() {
            lemma_set_avoids(bad, RedisKey::ChannelMeta { id: c.id }, archived_u64(opt_id(c.guild_id)), None);
            lemma_one_avoids(bad, channel_meta_command(c.id, c.guild_id));
        }
        match c.guild_id {
            Some(g) => lemma_sadd_list(bad, RedisKey::GuildChannels { id: g }, seq![c.id]),
            None => {},
        }
        lemma_sadd_list(bad, RedisKey::Channels, seq![c.id]);
        lemma_concat_avoids(bad, seq![set], meta);
        lemma_concat_avoids(bad, seq![set] + meta, link);
        lemma_concat_avoids(bad, seq![set] + meta + link, seq![cmd_sadd(key_bytes(RedisKey::Channels), seq![c.id])]);
    }
}

/// Storing a channel, its thread member and its recipients.
pub proof fn lemma_channel_avoids(bad: spec_fn(RedisKey) -> bool, s: CacheSettings, c: ChannelEntry)
    requires
        keys_fit(s, bad),
        channels_spared(bad),
    ensures
        avoids(bad, store_channel_cmds(s, c)),
{
    lemma_channel_entry_avoids(bad, s, c);
    lemma_thread_member_avoids(bad, s, c.guild_id, c.member);
    let r = match c.recipients {
        Some(users) => store_users_cmds(s, users@),
        None => Seq::empty(),
    };
    match c.recipients {
        Some(users) => lemma_users_avoid(bad, s, users@),
        None => {},
    }
    lemma_concat_avoids(bad, store_channel_entry_cmds(s, c), store_thread_member_cmds(s, c.guild_id, c.member));
    lemma_concat_avoids(bad, 
        store_channel_entry_cmds(s, c) + store_thread_member_cmds(s, c.guild_id, c.member),
        r,
    );
}

/// Storing the channels of a guild and their recipients.
pub proof fn lemma_channels_avoid(bad: spec_fn(RedisKey) -> bool, s: CacheSettings, guild: u64, channels: Seq<ChannelEntry>)
    requires
        keys_fit(s, bad),
        channels_spared(bad),
    ensures
        avoids(bad, store_channels_cmds(s, guild, channels)),
{
    let a = if s.channel.wanted && channels.len() > 0 {
        mset_commands(keyed_items(EntryKind::Channel, channels), s.channel.expire_seconds) + seq![
            cmd_sadd(key_bytes(RedisKey::GuildChannels { id: guild }), keyed_ids(channels)),
            cmd_sadd(key_bytes(RedisKey::Channels), keyed_ids(channels)),
        ] + (if s.channel.expires() {
            channel_meta_commands(channels)
        } else {
            Seq::empty()
        })
    } else {
        Seq::empty()
    };
    if s.channel.wanted && channels.len() > 0 {
        let items = keyed_items(EntryKind::Channel, channels);
        assert forall|m: int| 0 <= m < items.len() implies !bad(#[trigger] items[m].0) by {
            lemma_kind_keys(bad, s, EntryKind::Channel, channels[m].spec_id(), guild);
        }
        lemma_mset_avoids(bad, items, s.channel.expire_seconds);
        lemma_set_ops_avoid(bad, RedisKey::GuildChannels { id: guild }, keyed_ids(channels), 0, 0, 0);
        lemma_set_ops_avoid(bad, RedisKey::Channels, keyed_ids(channels), 0, 0, 0);
        let sets = seq![
            cmd_sadd(key_bytes(RedisKey::GuildChannels { id: guild }), keyed_ids(channels)),
            cmd_sadd(key_bytes(RedisKey::Channels), keyed_ids(channels)),
        ];
        lemma_two_avoid(bad, sets[0], sets[1]);
        assert(sets =~= seq![sets[0], sets[1]]);
        lemma_concat_avoids(bad, mset_commands(items, s.channel.expire_seconds), sets);
        let metas = if s.channel.expires() {
            channel_meta_commands(channels)
        } else {
            Seq::empty()
        };
        if s.channel.expires() {
            let cm = channel_meta_commands(channels);
            assert forall|i: int| 0 <= i < cm.len() implies command_avoids(bad, #[trigger] cm[i]) by {
                lemma_set_avoids(bad, 
                    RedisKey::ChannelMeta { id: channels[i].id },
                    archived_u64(opt_id(channels[i].guild_id)),
                    None,
                );
            }
        }
        lemma_concat_avoids(bad, mset_commands(items, s.channel.expire_seconds) + sets, metas);
    }
    lemma_users_avoid(bad, s, recipients_of(channels));
    lemma_concat_avoids(bad, a, store_users_cmds(s, recipients_of(channels)));
}

/// Removing a channel.
pub proof fn lemma_delete_channel_avoids(bad: spec_fn(RedisKey) -> bool, s: CacheSettings, guild: Option<u64>, channel: u64)
    requires
        keys_fit(s, bad),
        channels_spared(bad),
    ensures
        avoids(bad, delete_channel_cmds(s, guild, channel)),
{
    if s.channel.wanted {
        let del = seq![cmd_del(seq![key_bytes(RedisKey::Channel { id: channel })])];
        let unlink = match guild {
            Some(g) => seq![cmd_srem(key_bytes(RedisKey::GuildChannels { id: g }), seq![channel])],
            None => Seq::empty(),
        };
        let rem = seq![cmd_srem(key_bytes(RedisKey::Channels), seq![channel])];
        let meta = if s.channel.expires() {
            seq![cmd_del(seq![key_bytes(RedisKey::ChannelMeta { id: channel })])]
        } else {
            Seq::empty()
        };
        lemma_del_one_avoids(bad, RedisKey::Channel { id: channel });
        lemma_one_avoids(bad, del[0]);
        match guild {
            Some(g) => {
                lemma_set_ops_avoid(bad, RedisKey::GuildChannels { id: g }, seq![channel], 0, 0, 0);
                lemma_one_avoids(bad, unlink[0]);
            },
            None => {},
        }
        lemma_set_ops_avoid(bad, RedisKey::Channels, seq![channel], 0, 0, 0);
        lemma_one_avoids(bad, rem[0]);
        if s.channel.expires() {
            lemma_del_one_avoids(bad, RedisKey::ChannelMeta { id: channel });
            lemma_one_avoids(bad, meta[0]);
        }
        lemma_concat_avoids(bad, del, unlink);
        lemma_concat_avoids(bad, del + unlink, rem);
        lemma_concat_avoids(bad, del + unlink + rem, meta);
    }
}

/// Storing the partial members of a message, one after the other.
pub proof fn lemma_partial_members_avoid(bad: spec_fn(RedisKey) -> bool, s: CacheSettings, guild: u64, members: Seq<PartialMemberEntry>)
    requires
        keys_fit(s, bad),
    ensures
        avoids(bad, partial_members_cmds(s, guild, members)),
    decreases members.len(),
{
    if members.len() > 0 {
        lemma_partial_members_avoid(bad, s, guild, members.drop_last());
        lemma_partial_member_avoids(bad, s, guild, members.last());
        lemma_concat_avoids(bad, 
            partial_members_cmds(s, guild, members.drop_last()),
            store_partial_member_cmds(s, guild, members.last()),
        );
    }
}

/// Storing a message entry.
pub proof fn lemma_message_entry_avoids(bad: spec_fn(RedisKey) -> bool, s: CacheSettings, m: MessageEntry)
    requires
        keys_fit(s, bad),
    ensures
        avoids(bad, store_message_entry_cmds(s, m)),
{
    if s.message.wanted {
        let score = message_score(m.timestamp_micros) as i64;
        let head = seq![
            set_command(key_bytes(RedisKey::Message { id: m.id }), m.bytes@, s.message.expire_seconds),
            cmd_sadd(key_bytes(RedisKey::Messages), seq![m.id]),
            cmd_zadd(key_bytes(RedisKey::ChannelMessages { channel: m.channel_id }), m.id, score),
        ];
        lemma_set_avoids(bad, RedisKey::Message { id: m.id }, m.bytes@, s.message.expire_seconds);
        lemma_set_ops_avoid(bad, RedisKey::Messages, seq![m.id], 0, 0, 0);
        lemma_set_ops_avoid(bad, RedisKey::ChannelMessages { channel: m.channel_id }, Seq::empty(), m.id, score, 0);
        lemma_three_avoid(bad, head[0], head[1], head[2]);
        assert(head =~= seq![head[0], head[1], head[2]]);
        if s.message.expires() {
            lemma_set_avoids(bad, RedisKey::MessageMeta { id: m.id }, archived_u64(m.channel_id), None);
            lemma_push_avoids(bad, head, message_meta_command(m.id, m.channel_id));
        } else {
            lemma_concat_avoids(bad, head, Seq::empty());
        }
    }
}

/// Storing a message, its author, its members and its thread.
pub proof fn lemma_message_avoids(bad: spec_fn(RedisKey) -> bool, s: CacheSettings, m: MessageEntry)
    requires
        keys_fit(s, bad),
        channels_spared(bad),
    ensures
        avoids(bad, store_message_cmds(s, m)),
{
    lemma_message_entry_avoids(bad, s, m);
    lemma_user_avoids(bad, s, m.author);
    match m.guild_id {
        Some(g) => lemma_partial_members_avoid(bad, s, g, message_partial_members(m)),
        None => {},
    }
    match m.thread {
        Some(c) => lemma_channel_avoids(bad, s, c),
        None => {},
    }
    let a = store_message_entry_cmds(s, m);
    let b = store_user_cmds(s, m.author);
    let c = store_message_members_cmds(s, m);
    let d = store_thread_cmds(s, m.thread);
    lemma_concat_avoids(bad, a, b);
    lemma_concat_avoids(bad, a + b, c);
    lemma_concat_avoids(bad, a + b + c, d);
}

/// Removing a message.
pub proof fn lemma_delete_message_avoids(bad: spec_fn(RedisKey) -> bool, s: CacheSettings, msg: u64, channel: u64)
    requires
        keys_fit(s, bad),
    ensures
        avoids(bad, delete_message_cmds(s, msg, channel)),
{
    if s.message.wanted {
        let head = seq![
            cmd_del(seq![key_bytes(RedisKey::Message { id: msg })]),
            cmd_srem(key_bytes(RedisKey::Messages), seq![msg]),
            cmd_zrem(key_bytes(RedisKey::ChannelMessages { channel }), seq![msg]),
        ];
        lemma_del_one_avoids(bad, RedisKey::Message { id: msg });
        lemma_set_ops_avoid(bad, RedisKey::Messages, seq![msg], 0, 0, 0);
        lemma_set_ops_avoid(bad, RedisKey::ChannelMessages { channel }, seq![msg], 0, 0, 0);
        lemma_three_avoid(bad, head[0], head[1], head[2]);
        assert(head =~= seq![head[0], head[1], head[2]]);
        if s.message.expires() {
            lemma_del_one_avoids(bad, RedisKey::MessageMeta { id: msg });
            lemma_push_avoids(bad, head, cmd_del(seq![key_bytes(RedisKey::MessageMeta { id: msg })]));
        } else {
            lemma_concat_avoids(bad, head, Seq::empty());
        }
    }
}

/// The keys removed with messages are message keys.
proof fn lemma_message_delete_keys(msgs: Seq<u64>, with_records: bool)
    ensures
        forall|m: int|
            0 <= m < message_delete_keys(msgs, with_records).len() ==> (#[trigger] message_delete_keys(
                msgs,
                with_records,
            )[m] is Message || message_delete_keys(msgs, with_records)[m] is MessageMeta),
    decreases msgs.len(),
{
    if msgs.len() > 0 {
        let rest = message_delete_keys(msgs.drop_last(), with_records);
        let tail = if with_records {
            seq![RedisKey::Message { id: msgs.last() }, RedisKey::MessageMeta { id: msgs.last() }]
        } else {
            seq![RedisKey::Message { id: msgs.last() }]
        };
        lemma_message_delete_keys(msgs.drop_last(), with_records);
        let all = message_delete_keys(msgs, with_records);
        assert(all == rest + tail);
        assert forall|m: int| 0 <= m < all.len() implies (#[trigger] all[m] is Message || all[m] is MessageMeta) by {
            if m < rest.len() {
                assert(all[m] == rest[m]);
            } else {
                assert(all[m] == tail[m - rest.len()]);
            }
        }
    }
}

/// Removing several messages.
pub proof fn lemma_delete_messages_avoid(bad: spec_fn(RedisKey) -> bool, s: CacheSettings, msgs: Seq<u64>, channel: u64)
    requires
        keys_fit(s, bad),
    ensures
        avoids(bad, delete_messages_cmds(s, msgs, channel)),
{
    if s.message.wanted && msgs.len() > 0 {
        let keys = message_delete_keys(msgs, s.message.expires());
        lemma_message_delete_keys(msgs, s.message.expires());
        assert forall|m: int| 0 <= m < keys.len() implies !bad(#[trigger] keys[m]) by {
            assert(keys[m] is Message || keys[m] is MessageMeta);
        }
        lemma_del_avoids(bad, message_delete_keys(msgs, s.message.expires()));
        lemma_set_ops_avoid(bad, RedisKey::Messages, msgs, 0, 0, 0);
        lemma_set_ops_avoid(bad, RedisKey::ChannelMessages { channel }, msgs, 0, 0, 0);
        lemma_three_avoid(bad, 
            cmd_del(key_texts(message_delete_keys(msgs, s.message.expires()))),
            cmd_srem(key_bytes(RedisKey::Messages), msgs),
            cmd_zrem(key_bytes(RedisKey::ChannelMessages { channel }), msgs),
        );
    }
}

/// Storing roles.
pub proof fn lemma_roles_avoid(bad: spec_fn(RedisKey) -> bool, s: CacheSettings, guild: u64, roles: Seq<RoleEntry>)
    requires
        keys_fit(s, bad),
    ensures
        avoids(bad, store_roles_cmds(s, guild, roles)),
{
    if s.role.wanted {
        let a = if s.role.expires() {
            meta_commands(EntryKind::Role, roles, guild)
        } else {
            Seq::empty()
        };
        if s.role.expires() {
            lemma_meta_avoid(bad, s, EntryKind::Role, roles, guild);
        }
        let b = if roles.len() > 0 {
            mset_commands(keyed_items(EntryKind::Role, roles), s.role.expire_seconds) + seq![
                cmd_sadd(key_bytes(RedisKey::GuildRoles { id: guild }), keyed_ids(roles)),
                cmd_sadd(key_bytes(RedisKey::Roles), keyed_ids(roles)),
            ]
        } else {
            Seq::empty()
        };
        if roles.len() > 0 {
            let items = keyed_items(EntryKind::Role, roles);
            assert forall|m: int| 0 <= m < items.len() implies !bad(#[trigger] items[m].0) by {
                lemma_kind_keys(bad, s, EntryKind::Role, roles[m].spec_id(), guild);
            }
            lemma_mset_avoids(bad, items, s.role.expire_seconds);
            lemma_kind_keys(bad, s, EntryKind::Role, 0, guild);
            lemma_set_ops_avoid(bad, RedisKey::GuildRoles { id: guild }, keyed_ids(roles), 0, 0, 0);
            lemma_set_ops_avoid(bad, RedisKey::Roles, keyed_ids(roles), 0, 0, 0);
            lemma_two_avoid(
                bad,
                cmd_sadd(key_bytes(RedisKey::GuildRoles { id: guild }), keyed_ids(roles)),
                cmd_sadd(key_bytes(RedisKey::Roles), keyed_ids(roles)),
            );
            lemma_concat_avoids(
                bad,
                mset_commands(items, s.role.expire_seconds),
                seq![
                    cmd_sadd(key_bytes(RedisKey::GuildRoles { id: guild }), keyed_ids(roles)),
                    cmd_sadd(key_bytes(RedisKey::Roles), keyed_ids(roles)),
                ],
            );
        }
        lemma_concat_avoids(bad, a, b);
    }
}

/// Storing what an interaction carries.
pub proof fn lemma_interaction_avoids(bad: spec_fn(RedisKey) -> bool, s: CacheSettings, i: InteractionEntry)
    requires
        keys_fit(s, bad),
        channels_spared(bad),
    ensures
        avoids(bad, store_interaction_cmds(s, i)),
{
    let a = opt_channel_cmds(s, i.channel);
    let b = store_resolved_cmds(s, i.guild_id, i.resolved);
    let c = interaction_member_cmds(s, i.guild_id, i.member);
    let d = opt_message_cmds(s, i.message);
    let e = opt_user_cmds(s, i.user);
    match i.channel {
        Some(ch) => lemma_channel_avoids(bad, s, ch),
        None => {},
    }
    match i.resolved {
        Some(r) => {
            let rr = match i.guild_id {
                Some(g) => store_roles_cmds(s, g, r.roles@),
                None => Seq::empty(),
            };
            match i.guild_id {
                Some(g) => lemma_roles_avoid(bad, s, g, r.roles@),
                None => {},
            }
            lemma_users_avoid(bad, s, r.users@);
            lemma_concat_avoids(bad, rr, store_users_cmds(s, r.users@));
        },
        None => {},
    }
    match (i.guild_id, i.member) {
        (Some(g), Some(m)) => lemma_partial_member_avoids(bad, s, g, m),
        _ => {},
    }
    match i.message {
        Some(m) => lemma_message_avoids(bad, s, m),
        None => {},
    }
    match i.user {
        Some(u) => lemma_user_avoids(bad, s, u),
        None => {},
    }
    lemma_concat_avoids(bad, a, b);
    lemma_concat_avoids(bad, a + b, c);
    lemma_concat_avoids(bad, a + b + c, d);
    lemma_concat_avoids(bad, a + b + c + d, e);
}

/// Storing a guild entry.
pub proof fn lemma_guild_entry_avoids(bad: spec_fn(RedisKey) -> bool, s: CacheSettings, id: u64, bytes: Seq<u8>)
    requires
        keys_fit(s, bad),
        !bad(RedisKey::Guilds),
        !bad(RedisKey::UnavailableGuilds),
    ensures
        avoids(bad, store_guild_entry_cmds(s, id, bytes)),
{
    if s.guild.wanted {
        lemma_set_avoids(bad, RedisKey::Guild { id }, bytes, s.guild.expire_seconds);
        lemma_set_ops_avoid(bad, RedisKey::Guilds, seq![id], 0, 0, 0);
        lemma_set_ops_avoid(bad, RedisKey::UnavailableGuilds, seq![id], 0, 0, 0);
        lemma_three_avoid(bad, 
            set_command(key_bytes(RedisKey::Guild { id }), bytes, s.guild.expire_seconds),
            cmd_sadd(key_bytes(RedisKey::Guilds), seq![id]),
            cmd_srem(key_bytes(RedisKey::UnavailableGuilds), seq![id]),
        );
    }
}

/// Storing everything a guild comes with, but its own entry.
pub proof fn lemma_guild_parts_avoid(bad: spec_fn(RedisKey) -> bool, s: CacheSettings, g: GuildEntry)
    requires
        keys_fit(s, bad),
        channels_spared(bad),
    ensures
        avoids(bad, store_guild_parts_cmds(s, g)),
{
    lemma_channels_avoid(bad, s, g.id, g.channels@);
    lemma_keyed_avoid(bad, s, EntryKind::Emoji, g.id, g.emojis@);
    lemma_members_avoid(bad, s, g.id, g.members@);
    lemma_concat_avoids(bad, store_channels_cmds(s, g.id, g.channels@), store_keyed_cmds(s, EntryKind::Emoji, g.id, g.emojis@));
    lemma_concat_avoids(bad, 
        store_channels_cmds(s, g.id, g.channels@) + store_keyed_cmds(s, EntryKind::Emoji, g.id, g.emojis@),
        store_members_cmds(s, g.id, g.members@),
    );
    lemma_presences_avoid(bad, s, g.id, g.presences@);
    lemma_roles_avoid(bad, s, g.id, g.roles@);
    lemma_keyed_avoid(bad, s, EntryKind::Sticker, g.id, g.stickers@);
    lemma_concat_avoids(bad, store_presences_cmds(s, g.id, g.presences@), store_roles_cmds(s, g.id, g.roles@));
    lemma_concat_avoids(bad, 
        store_presences_cmds(s, g.id, g.presences@) + store_roles_cmds(s, g.id, g.roles@),
        store_keyed_cmds(s, EntryKind::Sticker, g.id, g.stickers@),
    );
    lemma_channels_avoid(bad, s, g.id, g.threads@);
    lemma_keyed_avoid(bad, s, EntryKind::StageInstance, g.id, g.stage_instances@);
    lemma_voice_states_avoid(bad, s, g.id, g.voice_states@);
    lemma_concat_avoids(bad, 
        store_channels_cmds(s, g.id, g.threads@),
        store_keyed_cmds(s, EntryKind::StageInstance, g.id, g.stage_instances@),
    );
    lemma_concat_avoids(bad, 
        store_channels_cmds(s, g.id, g.threads@) + store_keyed_cmds(s, EntryKind::StageInstance, g.id, g.stage_instances@),
        store_voice_states_cmds(s, g.id, g.voice_states@),
    );
    lemma_concat_avoids(bad, store_guild_parts_a_cmds(s, g), store_guild_parts_b_cmds(s, g));
    lemma_concat_avoids(bad, 
        store_guild_parts_a_cmds(s, g) + store_guild_parts_b_cmds(s, g),
        store_guild_parts_c_cmds(s, g),
    );
}

/// Storing a guild and everything it comes with.
pub proof fn lemma_guild_avoids(bad: spec_fn(RedisKey) -> bool, s: CacheSettings, g: GuildEntry)
    requires
        keys_fit(s, bad),
        channels_spared(bad),
        !bad(RedisKey::Guilds),
        !bad(RedisKey::UnavailableGuilds),
    ensures
        avoids(bad, store_guild_cmds(s, g)),
{
    lemma_guild_parts_avoid(bad, s, g);
    lemma_guild_entry_avoids(bad, s, g.id, g.bytes@);
    lemma_concat_avoids(bad, store_guild_entry_cmds(s, g.id, g.bytes@), store_guild_parts_cmds(s, g));
}

/// Storing a guild update.
pub proof fn lemma_guild_update_avoids(bad: spec_fn(RedisKey) -> bool, s: CacheSettings, guild: u64, emojis: Seq<EmojiEntry>, roles: Seq<RoleEntry>)
    requires
        keys_fit(s, bad),
        !bad(RedisKey::Guilds),
        !bad(RedisKey::UnavailableGuilds),
    ensures
        avoids(bad, store_guild_update_cmds(s, guild, emojis, roles)),
{
    lemma_keyed_avoid(bad, s, EntryKind::Emoji, guild, emojis);
    lemma_roles_avoid(bad, s, guild, roles);
    let c = if s.guild.wanted {
        seq![
            cmd_sadd(key_bytes(RedisKey::Guilds), seq![guild]),
            cmd_srem(key_bytes(RedisKey::UnavailableGuilds), seq![guild]),
        ]
    } else {
        Seq::empty()
    };
    if s.guild.wanted {
        lemma_set_ops_avoid(bad, RedisKey::Guilds, seq![guild], 0, 0, 0);
        lemma_set_ops_avoid(bad, RedisKey::UnavailableGuilds, seq![guild], 0, 0, 0);
        lemma_two_avoid(bad, c[0], c[1]);
        assert(c =~= seq![c[0], c[1]]);
    }
    lemma_concat_avoids(bad, store_keyed_cmds(s, EntryKind::Emoji, guild, emojis), store_roles_cmds(s, guild, roles));
    lemma_concat_avoids(bad, 
        store_keyed_cmds(s, EntryKind::Emoji, guild, emojis) + store_roles_cmds(s, guild, roles),
        c,
    );
}

/// The commands of each event; those of storing a guild or its update name
/// the sets of guilds.
pub proof fn lemma_update_avoids(bad: spec_fn(RedisKey) -> bool, s: CacheSettings, e: CacheEvent)
    requires
        keys_fit(s, bad),
        (e is Channel || e is ChannelDelete || e is GuildCreate || e is InteractionCreate || e is MessageCreate
            || e is ThreadListSync) ==> channels_spared(bad),
        (e is GuildCreate || e is GuildUpdate) ==> !bad(RedisKey::Guilds) && !bad(RedisKey::UnavailableGuilds),
    ensures
        avoids(bad, update_cmds(s, e)),
{
    match e {
        CacheEvent::User(u) => match u {
            Some(user) => lemma_user_avoids(bad, s, user),
            None => {},
        },
        CacheEvent::Channel(c) => lemma_channel_avoids(bad, s, c),
        CacheEvent::ChannelDelete { guild, channel } => lemma_delete_channel_avoids(bad, s, guild, channel),
        CacheEvent::GuildCreate(g) => lemma_guild_avoids(bad, s, g),
        CacheEvent::GuildEmojisUpdate { guild, emojis } => lemma_keyed_avoid(bad, s, EntryKind::Emoji, guild, emojis@),
        CacheEvent::GuildStickersUpdate { guild, stickers } => lemma_keyed_avoid(bad, 
            s,
            EntryKind::Sticker,
            guild,
            stickers@,
        ),
        CacheEvent::GuildUpdate { guild, emojis, roles } => lemma_guild_update_avoids(bad, s, guild, emojis@, roles@),
        CacheEvent::Integration { guild, integration } => match guild {
            Some(g) => lemma_integration_avoids(bad, s, g, integration),
            None => {},
        },
        CacheEvent::IntegrationDelete { guild, integration } => lemma_delete_integration_avoids(bad, 
            s,
            guild,
            integration,
        ),
        CacheEvent::InteractionCreate(i) => lemma_interaction_avoids(bad, s, i),
        CacheEvent::InviteCreate { inviter, target_user } => {
            match inviter {
                Some(user) => lemma_user_avoids(bad, s, user),
                None => {},
            }
            let t = match target_user {
                Some(id) => store_partial_user_cmds(s, id),
                None => Seq::empty(),
            };
            match target_user {
                Some(id) => lemma_partial_user_avoids(bad, s, id),
                None => {},
            }
            lemma_concat_avoids(bad, opt_user_cmds(s, inviter), t);
        },
        CacheEvent::MemberAdd { guild, member } => lemma_member_avoids(bad, s, guild, member),
        CacheEvent::MemberUpdate { guild, user } => lemma_member_update_avoids(bad, s, guild, user),
        CacheEvent::MemberChunk { guild, members, presences } => {
            lemma_members_avoid(bad, s, guild, members@);
            lemma_presences_avoid(bad, s, guild, presences@);
            lemma_concat_avoids(bad, store_members_cmds(s, guild, members@), store_presences_cmds(s, guild, presences@));
        },
        CacheEvent::MessageCreate(m) => lemma_message_avoids(bad, s, m),
        CacheEvent::MessageDelete { msg, channel } => lemma_delete_message_avoids(bad, s, msg, channel),
        CacheEvent::MessageDeleteBulk { msgs, channel } => lemma_delete_messages_avoid(bad, s, msgs@, channel),
        CacheEvent::MessageUpdate { author, .. } => match author {
            Some(user) => lemma_user_avoids(bad, s, user),
            None => {},
        },
        CacheEvent::PresenceUpdate(p) => lemma_presence_avoids(bad, s, p),
        CacheEvent::Reaction { guild, member, .. } => match (guild, member) {
            (Some(g), Some(m)) => lemma_member_avoids(bad, s, g, m),
            _ => {},
        },
        CacheEvent::Role { guild, role } => lemma_keyed_one_avoids(bad, s, EntryKind::Role, guild, role.id, role.bytes@),
        CacheEvent::RoleDelete { guild, role } => lemma_delete_keyed_avoids(bad, s, EntryKind::Role, guild, role),
        CacheEvent::StageInstance(st) => lemma_keyed_one_avoids(bad, 
            s,
            EntryKind::StageInstance,
            st.guild_id,
            st.id,
            st.bytes@,
        ),
        CacheEvent::StageInstanceDelete { guild, stage } => lemma_delete_keyed_avoids(bad, 
            s,
            EntryKind::StageInstance,
            guild,
            stage,
        ),
        CacheEvent::ThreadListSync { guild, threads } => lemma_channels_avoid(bad, s, guild, threads@),
        CacheEvent::ThreadMemberUpdate { presence, member } => match presence {
            Some(p) => {
                lemma_presence_avoids(bad, s, p);
                let m = match member {
                    Some(mm) => store_member_cmds(s, p.guild_id, mm),
                    None => Seq::empty(),
                };
                match member {
                    Some(mm) => lemma_member_avoids(bad, s, p.guild_id, mm),
                    None => {},
                }
                lemma_concat_avoids(bad, store_presence_cmds(s, p), m);
            },
            None => {},
        },
        CacheEvent::TypingStart { guild, member } => match (guild, member) {
            (Some(g), Some(m)) => lemma_member_avoids(bad, s, g, m),
            _ => {},
        },
        CacheEvent::CurrentUserUpdate(bytes) => lemma_current_user_avoids(bad, s, bytes@),
        CacheEvent::VoiceStateUpdate { guild, state } => match guild {
            Some(g) => if state.channel_id is Some {
                lemma_voice_state_avoids(bad, s, g, state);
            } else {
                lemma_delete_voice_state_avoids(bad, s, g, state.user_id);
            },
            None => {},
        },
        _ => {},
    }
}

/// No key argument of any of `cmds` is the key of a role entry, of its
/// bookkeeping, of a guild's set of role ids or of the set of all role ids.
pub open spec fn names_no_role_key(cmds: Seq<Seq<Seq<u8>>>) -> bool {
    forall|i: int, j: int, k: RedisKey|
        #![trigger cmds[i][j], key_bytes(k)]
        0 <= i < cmds.len() && key_position(cmds[i], j) && is_role_key(k) ==> cmds[i][j] != key_bytes(k)
}

/// Commands that avoid the role keys name none of them.
pub proof fn lemma_no_role_key(cmds: Seq<Seq<Seq<u8>>>)
    requires
        avoids(|k: RedisKey| is_role_key(k), cmds),
    ensures
        names_no_role_key(cmds),
{
    let bad = |k: RedisKey| is_role_key(k);
    assert forall|i: int, j: int, k: RedisKey|
        0 <= i < cmds.len() && key_position(cmds[i], j) && is_role_key(k) implies #[trigger] cmds[i][j]
        != #[trigger] key_bytes(k) by {
        assert(command_avoids(bad, cmds[i]));
        assert(!bad(key_of_text(cmds[i][j])));
        lemma_key_of_text(k);
    }
}

/// A type not cached is not touched: with roles not cached, no command that
/// an event queues has, as a key argument, the key of a role entry, of its
/// bookkeeping, of a guild's set of role ids or of the set of all role ids.
pub proof fn law_ignored_roles_untouched(s: CacheSettings, e: CacheEvent)
    requires
        !s.role.wanted,
    ensures
        names_no_role_key(update_cmds(s, e)),
{
    let bad = |k: RedisKey| is_role_key(k);
    assert(keys_fit(s, bad));
    assert(channels_spared(bad));
    lemma_update_avoids(bad, s, e);
    lemma_no_role_key(update_cmds(s, e));
}

} // verus!
