//! Users.
use vstd::prelude::*;

use crate::config::CacheSettings;
use crate::entries::UserEntry;
use crate::key::{key_bytes, RedisKey};
use crate::pipe::{
    cmd_del, cmd_sadd, cmd_scard, cmd_srem, entry_views, mset_commands, set_command, Pipe,
};

verus! {

/// The entries that storing `users` writes, keyed by user id.
pub open spec fn user_items(users: Seq<UserEntry>) -> Seq<(RedisKey, Seq<u8>)> {
    users.map_values(|u: UserEntry| (RedisKey::User { id: u.id }, u.bytes@))
}

/// The ids of `users`.
pub open spec fn user_ids(users: Seq<UserEntry>) -> Seq<u64> {
    users.map_values(|u: UserEntry| u.id)
}

/// The users that a list of references points to.
pub open spec fn derefs(users: Seq<&UserEntry>) -> Seq<UserEntry> {
    users.map_values(|u: &UserEntry| *u)
}

/// Storing one user: its entry, and its id in the set of users.
pub open spec fn store_user_cmds(s: CacheSettings, user: UserEntry) -> Seq<Seq<Seq<u8>>> {
    if s.user.wanted {
        seq![
            set_command(key_bytes(RedisKey::User { id: user.id }), user.bytes@, s.user.expire_seconds),
            cmd_sadd(key_bytes(RedisKey::Users), seq![user.id]),
        ]
    } else {
        Seq::empty()
    }
}

/// Storing several users at once; nothing if there are none.
pub open spec fn store_users_cmds(s: CacheSettings, users: Seq<UserEntry>) -> Seq<Seq<Seq<u8>>> {
    if s.user.wanted && users.len() > 0 {
        mset_commands(user_items(users), s.user.expire_seconds) + seq![
            cmd_sadd(key_bytes(RedisKey::Users), user_ids(users)),
        ]
    } else {
        Seq::empty()
    }
}

/// Storing a partial user only records its id; its entry is fetched for an
/// update if the configured user type updates from partial users.
pub open spec fn store_partial_user_cmds(s: CacheSettings, id: u64) -> Seq<Seq<Seq<u8>>> {
    if s.user.wanted {
        seq![cmd_sadd(key_bytes(RedisKey::Users), seq![id])]
    } else {
        Seq::empty()
    }
}

/// Removing a guild from a user's guilds, then asking how many remain.
pub open spec fn delete_user_start_cmds(s: CacheSettings, user: u64, guild: u64) -> Seq<
    Seq<Seq<u8>>,
> {
    if s.user.wanted {
        seq![
            cmd_srem(key_bytes(RedisKey::UserGuilds { id: user }), seq![guild]),
            cmd_scard(key_bytes(RedisKey::UserGuilds { id: user })),
        ]
    } else {
        Seq::empty()
    }
}

/// Removing a user that shares no guild anymore.
pub open spec fn delete_user_finish_cmds(s: CacheSettings, user: u64, common_guilds: usize) -> Seq<
    Seq<Seq<u8>>,
> {
    if s.user.wanted && common_guilds == 0 {
        seq![
            cmd_del(seq![key_bytes(RedisKey::User { id: user })]),
            cmd_srem(key_bytes(RedisKey::Users), seq![user]),
        ]
    } else {
        Seq::empty()
    }
}

/// Collects the entries and ids of `users`.
pub fn user_items_of(users: &[&UserEntry]) -> (res: (Vec<(RedisKey, Vec<u8>)>, Vec<u64>))
    ensures
        entry_views(res.0@) == user_items(derefs(users@)),
        res.1@ == user_ids(derefs(users@)),
{
    let mut items: Vec<(RedisKey, Vec<u8>)> = Vec::new();
    let mut ids: Vec<u64> = Vec::new();
    let mut i: usize = 0;
    while i < users.len()
        invariant
            i <= users@.len(),
            entry_views(items@) == user_items(derefs(users@.take(i as int))),
            ids@ == user_ids(derefs(users@.take(i as int))),
        decreases users@.len() - i,
    {
        let user = users[i];
        let ghost before_items = items@;
        let ghost before_ids = ids@;
        items.push((RedisKey::User { id: user.id }, user.bytes.clone()));
        ids.push(user.id);
        assert(users@.take(i + 1) =~= users@.take(i as int).push(users@[i as int]));
        assert(entry_views(items@) =~= entry_views(before_items).push(
            (RedisKey::User { id: user.id }, user.bytes@),
        ));
        assert(derefs(users@.take(i + 1)) =~= derefs(users@.take(i as int)).push(*user));
        assert(user_items(derefs(users@.take(i + 1))) =~= user_items(
            derefs(users@.take(i as int)),
        ).push((RedisKey::User { id: user.id }, user.bytes@)));
        assert(user_ids(derefs(users@.take(i + 1))) =~= user_ids(
            derefs(users@.take(i as int)),
        ).push(user.id));
        i = i + 1;
    }
    assert(users@.take(i as int) =~= users@);
    (items, ids)
}

impl Pipe {
    /// Stores a user.
    pub fn store_user(&mut self, user: &UserEntry)
        ensures
            final(self).cmds() == old(self).cmds() + store_user_cmds(old(self).settings(), *user),
            final(self).settings() == old(self).settings(),
            old(self).ignores_only_expires() ==> final(self).ignores_only_expires(),
    {
        let ghost start = self.cmds();
        let s = *self.settings_ref();
        if s.user.wanted {
            self.set(RedisKey::User { id: user.id }, user.bytes.as_slice(), s.user.expire_seconds);
            self.sadd_one(RedisKey::Users, user.id);
        }
        assert(self.cmds() =~= start + store_user_cmds(s, *user));
    }

    /// Stores several users at once.
    pub fn store_users(&mut self, users: &[&UserEntry])
        requires
            old(self).settings().valid(),
        ensures
            final(self).cmds() == old(self).cmds() + store_users_cmds(
                old(self).settings(),
                derefs(users@),
            ),
            final(self).settings() == old(self).settings(),
            old(self).ignores_only_expires() ==> final(self).ignores_only_expires(),
    {
        let ghost start = self.cmds();
        let s = *self.settings_ref();
        if !s.user.wanted {
            assert(self.cmds() =~= start + store_users_cmds(s, derefs(users@)));
            return;
        }
        let (items, ids) = user_items_of(users);
        if items.len() == 0 {
            assert(self.cmds() =~= start + store_users_cmds(s, derefs(users@)));
            return;
        }
        self.mset(items.as_slice(), s.user.expire_seconds);
        self.sadd(RedisKey::Users, ids.as_slice());
        assert(self.cmds() =~= start + store_users_cmds(s, derefs(users@)));
    }

    /// Records the id of a partial user. Returns the key of the user's entry
    /// when it is to be fetched and updated, which the configured user type
    /// asks for through `update_via_partial`.
    pub fn store_partial_user(&mut self, id: u64, updates_via_partial: bool) -> (res: Option<
        RedisKey,
    >)
        ensures
            final(self).cmds() == old(self).cmds() + store_partial_user_cmds(
                old(self).settings(),
                id,
            ),
            final(self).settings() == old(self).settings(),
            res == (if old(self).settings().user.wanted && updates_via_partial {
                Some(RedisKey::User { id })
            } else {
                None
            }),
            old(self).ignores_only_expires() ==> final(self).ignores_only_expires(),
    {
        let ghost start = self.cmds();
        let s = *self.settings_ref();
        if !s.user.wanted {
            assert(self.cmds() =~= start + store_partial_user_cmds(s, id));
            return None;
        }
        self.sadd_one(RedisKey::Users, id);
        assert(self.cmds() =~= start + store_partial_user_cmds(s, id));
        if updates_via_partial {
            Some(RedisKey::User { id })
        } else {
            None
        }
    }

    /// Stores a user entry that was updated from a partial user. The entry
    /// keeps the expire duration of guild entries.
    pub fn store_updated_user(&mut self, id: u64, bytes: &[u8])
        ensures
            final(self).cmds() == old(self).cmds().push(
                set_command(
                    key_bytes(RedisKey::User { id }),
                    bytes@,
                    old(self).settings().guild.expire_seconds,
                ),
            ),
            final(self).settings() == old(self).settings(),
            old(self).ignores_only_expires() ==> final(self).ignores_only_expires(),
    {
        let s = *self.settings_ref();
        self.set(RedisKey::User { id }, bytes, s.guild.expire_seconds);
    }

    /// First step of removing a user from a guild: drops the guild from the
    /// user's guilds and asks how many remain. Returns whether that count must
    /// be fetched before [`Pipe::delete_user_finish`].
    pub fn delete_user_start(&mut self, user: u64, guild: u64) -> (res: bool)
        ensures
            final(self).cmds() == old(self).cmds() + delete_user_start_cmds(
                old(self).settings(),
                user,
                guild,
            ),
            final(self).settings() == old(self).settings(),
            res == old(self).settings().user.wanted,
            final(self).ignored() == old(self).ignored(),
    {
        let ghost start = self.cmds();
        let s = *self.settings_ref();
        if !s.user.wanted {
            assert(self.cmds() =~= start + delete_user_start_cmds(s, user, guild));
            return false;
        }
        self.srem_one(RedisKey::UserGuilds { id: user }, guild);
        self.scard(RedisKey::UserGuilds { id: user });
        assert(self.cmds() =~= start + delete_user_start_cmds(s, user, guild));
        true
    }

    /// Last step of removing a user from a guild: the user is removed once it
    /// shares no guild anymore.
    pub fn delete_user_finish(&mut self, user: u64, common_guilds: usize)
        ensures
            final(self).cmds() == old(self).cmds() + delete_user_finish_cmds(
                old(self).settings(),
                user,
                common_guilds,
            ),
            final(self).settings() == old(self).settings(),
            old(self).ignores_only_expires() ==> final(self).ignores_only_expires(),
    {
        let ghost start = self.cmds();
        let s = *self.settings_ref();
        if s.user.wanted && common_guilds == 0 {
            self.del_one(RedisKey::User { id: user });
            self.srem_one(RedisKey::Users, user);
        }
        assert(self.cmds() =~= start + delete_user_finish_cmds(s, user, common_guilds));
    }
}

} // verus!
