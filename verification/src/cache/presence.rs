//! Presences.
use vstd::prelude::*;

use crate::cache::user::{derefs, store_user_cmds, store_users_cmds};
use crate::config::CacheSettings;
use crate::entries::{PresenceEntry, UserEntry};
use crate::key::{key_bytes, RedisKey};
use crate::pipe::{cmd_sadd, entry_views, mset_commands, set_command, Pipe};

verus! {

/// The entries that storing `presences` writes, each under its own guild.
pub open spec fn presence_items(presences: Seq<PresenceEntry>) -> Seq<(RedisKey, Seq<u8>)> {
    presences.map_values(
        |p: PresenceEntry| (RedisKey::Presence { guild: p.guild_id, user: p.user_id }, p.bytes@),
    )
}

/// The user ids of `presences`.
pub open spec fn presence_user_ids(presences: Seq<PresenceEntry>) -> Seq<u64> {
    presences.map_values(|p: PresenceEntry| p.user_id)
}

/// The full users that `presences` come with, in order.
pub open spec fn presence_users(presences: Seq<PresenceEntry>) -> Seq<UserEntry>
    decreases presences.len(),
{
    if presences.len() == 0 {
        Seq::empty()
    } else {
        let rest = presence_users(presences.drop_last());
        match presences.last().user {
            Some(user) => rest.push(user),
            None => rest,
        }
    }
}

/// Storing a presence: its entry and its place in its guild, then its user.
pub open spec fn store_presence_cmds(s: CacheSettings, p: PresenceEntry) -> Seq<Seq<Seq<u8>>> {
    (if s.presence.wanted {
        seq![
            set_command(
                key_bytes(RedisKey::Presence { guild: p.guild_id, user: p.user_id }),
                p.bytes@,
                s.presence.expire_seconds,
            ),
            cmd_sadd(key_bytes(RedisKey::GuildPresences { id: p.guild_id }), seq![p.user_id]),
        ]
    } else {
        Seq::empty()
    }) + match p.user {
        Some(user) => store_user_cmds(s, user),
        None => Seq::empty(),
    }
}

/// Storing the presences of a guild at once, then their users.
pub open spec fn store_presences_cmds(
    s: CacheSettings,
    guild: u64,
    presences: Seq<PresenceEntry>,
) -> Seq<Seq<Seq<u8>>> {
    (if s.presence.wanted && presences.len() > 0 {
        mset_commands(presence_items(presences), s.presence.expire_seconds) + seq![
            cmd_sadd(
                key_bytes(RedisKey::GuildPresences { id: guild }),
                presence_user_ids(presences),
            ),
        ]
    } else {
        Seq::empty()
    }) + store_users_cmds(s, presence_users(presences))
}

/// Collects the entries and user ids of `presences`.
fn presence_items_of(presences: &[PresenceEntry]) -> (res: (Vec<(RedisKey, Vec<u8>)>, Vec<u64>))
    ensures
        entry_views(res.0@) == presence_items(presences@),
        res.1@ == presence_user_ids(presences@),
{
    let mut items: Vec<(RedisKey, Vec<u8>)> = Vec::new();
    let mut ids: Vec<u64> = Vec::new();
    let mut i: usize = 0;
    while i < presences.len()
        invariant
            i <= presences@.len(),
            entry_views(items@) == presence_items(presences@.take(i as int)),
            ids@ == presence_user_ids(presences@.take(i as int)),
        decreases presences@.len() - i,
    {
        let p = &presences[i];
        let key = RedisKey::Presence { guild: p.guild_id, user: p.user_id };
        let ghost before_items = items@;
        items.push((key, p.bytes.clone()));
        ids.push(p.user_id);
        assert(presences@.take(i + 1) =~= presences@.take(i as int).push(presences@[i as int]));
        assert(entry_views(items@) =~= entry_views(before_items).push((key, p.bytes@)));
        assert(presence_items(presences@.take(i + 1)) =~= presence_items(
            presences@.take(i as int),
        ).push((key, p.bytes@)));
        assert(presence_user_ids(presences@.take(i + 1)) =~= presence_user_ids(
            presences@.take(i as int),
        ).push(p.user_id));
        i = i + 1;
    }
    assert(presences@.take(i as int) =~= presences@);
    (items, ids)
}

/// The full users that `presences` come with.
fn presence_users_of(presences: &[PresenceEntry]) -> (res: Vec<&UserEntry>)
    ensures
        derefs(res@) == presence_users(presences@),
{
    let mut users: Vec<&UserEntry> = Vec::new();
    let mut i: usize = 0;
    while i < presences.len()
        invariant
            i <= presences@.len(),
            derefs(users@) == presence_users(presences@.take(i as int)),
        decreases presences@.len() - i,
    {
        let ghost before = users@;
        assert(presences@.take(i + 1).drop_last() =~= presences@.take(i as int));
        if let Some(user) = &presences[i].user {
            users.push(user);
            assert(derefs(users@) =~= derefs(before).push(*user));
        }
        i = i + 1;
    }
    assert(presences@.take(i as int) =~= presences@);
    users
}

impl Pipe {
    /// Stores a presence and the user it comes with, if any.
    pub fn store_presence(&mut self, presence: &PresenceEntry)
        ensures
            final(self).cmds() == old(self).cmds() + store_presence_cmds(
                old(self).settings(),
                *presence,
            ),
            final(self).settings() == old(self).settings(),
            old(self).ignores_only_expires() ==> final(self).ignores_only_expires(),
    {
        let ghost start = self.cmds();
        let s = *self.settings_ref();
        if s.presence.wanted {
            self.set(
                RedisKey::Presence { guild: presence.guild_id, user: presence.user_id },
                presence.bytes.as_slice(),
                s.presence.expire_seconds,
            );
            self.sadd_one(RedisKey::GuildPresences { id: presence.guild_id }, presence.user_id);
        }
        let ghost mid = self.cmds();
        if let Some(user) = &presence.user {
            self.store_user(user);
        }
        assert(self.cmds() =~= start + store_presence_cmds(s, *presence));
    }

    /// Stores the presences of `guild` at once, then their users.
    pub fn store_presences(&mut self, guild: u64, presences: &[PresenceEntry])
        requires
            old(self).settings().valid(),
        ensures
            final(self).cmds() == old(self).cmds() + store_presences_cmds(
                old(self).settings(),
                guild,
                presences@,
            ),
            final(self).settings() == old(self).settings(),
            old(self).ignores_only_expires() ==> final(self).ignores_only_expires(),
    {
        let ghost start = self.cmds();
        let s = *self.settings_ref();
        if s.presence.wanted {
            let (items, ids) = presence_items_of(presences);
            if items.len() > 0 {
                self.mset(items.as_slice(), s.presence.expire_seconds);
                self.sadd(RedisKey::GuildPresences { id: guild }, ids.as_slice());
            }
        }
        let ghost mid = self.cmds();
        let users = presence_users_of(presences);
        self.store_users(users.as_slice());
        assert(self.cmds() =~= start + store_presences_cmds(s, guild, presences@));
    }
}

} // verus!
