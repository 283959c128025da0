//! Guild members.
use vstd::prelude::*;

use crate::cache::user::{derefs, store_user_cmds, store_users_cmds};
use crate::config::CacheSettings;
use crate::entries::{MemberEntry, PartialMemberEntry, UserEntry};
use crate::key::{key_bytes, RedisKey};
use crate::pipe::{
    cmd_del, cmd_sadd, cmd_scard, cmd_srem, entry_views, mset_commands, set_command, Pipe,
};

verus! {

/// The entries that storing `members` of `guild` writes.
pub open spec fn member_items(guild: u64, members: Seq<MemberEntry>) -> Seq<(RedisKey, Seq<u8>)> {
    members.map_values(
        |m: MemberEntry| (RedisKey::Member { guild, user: m.user.id }, m.bytes@),
    )
}

/// The user ids of `members`.
pub open spec fn member_user_ids(members: Seq<MemberEntry>) -> Seq<u64> {
    members.map_values(|m: MemberEntry| m.user.id)
}

/// The users of `members`.
pub open spec fn member_users(members: Seq<MemberEntry>) -> Seq<UserEntry> {
    members.map_values(|m: MemberEntry| m.user)
}

/// Adding `guild` to the guilds of each member's user.
pub open spec fn user_guild_adds(guild: u64, members: Seq<MemberEntry>) -> Seq<Seq<Seq<u8>>> {
    members.map_values(
        |m: MemberEntry| cmd_sadd(key_bytes(RedisKey::UserGuilds { id: m.user.id }), seq![guild]),
    )
}

/// Storing a member: its entry and its place in the guild, the guild among
/// the user's guilds, then the user.
pub open spec fn store_member_cmds(s: CacheSettings, guild: u64, member: MemberEntry) -> Seq<
    Seq<Seq<u8>>,
> {
    let user = member.user.id;
    (if s.member.wanted {
        seq![
            set_command(
                key_bytes(RedisKey::Member { guild, user }),
                member.bytes@,
                s.member.expire_seconds,
            ),
            cmd_sadd(key_bytes(RedisKey::GuildMembers { id: guild }), seq![user]),
        ]
    } else {
        Seq::empty()
    }) + (if s.user.wanted {
        seq![cmd_sadd(key_bytes(RedisKey::UserGuilds { id: user }), seq![guild])]
    } else {
        Seq::empty()
    }) + store_user_cmds(s, member.user)
}

/// Storing the members of a guild at once.
pub open spec fn store_members_cmds(s: CacheSettings, guild: u64, members: Seq<MemberEntry>) -> Seq<
    Seq<Seq<u8>>,
> {
    (if s.member.wanted && members.len() > 0 {
        mset_commands(member_items(guild, members), s.member.expire_seconds) + seq![
            cmd_sadd(key_bytes(RedisKey::GuildMembers { id: guild }), member_user_ids(members)),
        ]
    } else {
        Seq::empty()
    }) + (if s.user.wanted {
        user_guild_adds(guild, members)
    } else {
        Seq::empty()
    }) + store_users_cmds(s, member_users(members))
}

/// Recording a member whose entry may then be fetched and updated.
pub open spec fn store_member_link_cmds(s: CacheSettings, guild: u64, user: u64) -> Seq<
    Seq<Seq<u8>>,
> {
    (if s.user.wanted {
        seq![cmd_sadd(key_bytes(RedisKey::UserGuilds { id: user }), seq![guild])]
    } else {
        Seq::empty()
    }) + (if s.member.wanted {
        seq![cmd_sadd(key_bytes(RedisKey::GuildMembers { id: guild }), seq![user])]
    } else {
        Seq::empty()
    })
}

/// Handling a member update: the user, then the member's links.
pub open spec fn store_member_update_cmds(s: CacheSettings, guild: u64, user: UserEntry) -> Seq<
    Seq<Seq<u8>>,
> {
    store_user_cmds(s, user) + store_member_link_cmds(s, guild, user.id)
}

/// Handling a partial member: nothing without a user; otherwise the user,
/// then the member's links.
pub open spec fn store_partial_member_cmds(
    s: CacheSettings,
    guild: u64,
    member: PartialMemberEntry,
) -> Seq<Seq<Seq<u8>>> {
    match member.user {
        Some(user) => store_user_cmds(s, user) + store_member_link_cmds(s, guild, user.id),
        None => Seq::empty(),
    }
}

/// The member entry to fetch for an update, if there is one to fetch.
pub open spec fn member_to_update(s: CacheSettings, guild: u64, user: u64, updates: bool) -> Option<
    RedisKey,
> {
    if s.member.wanted && updates {
        Some(RedisKey::Member { guild, user })
    } else {
        None
    }
}

/// Removing a guild from a user's guilds, then asking how many remain.
pub open spec fn delete_member_start_cmds(s: CacheSettings, guild: u64, user: u64) -> Seq<
    Seq<Seq<u8>>,
> {
    if s.user.wanted {
        seq![
            cmd_srem(key_bytes(RedisKey::UserGuilds { id: user }), seq![guild]),
            cmd_scard(key_bytes(RedisKey::UserGuilds { id: user })),
        ]
    } else {
        Seq::empty()
    }
}

/// Removing the user if it shares no guild anymore, then the member.
pub open spec fn delete_member_finish_cmds(
    s: CacheSettings,
    guild: u64,
    user: u64,
    common_guilds: usize,
) -> Seq<Seq<Seq<u8>>> {
    (if s.user.wanted && common_guilds == 0 {
        seq![
            cmd_del(seq![key_bytes(RedisKey::User { id: user })]),
            cmd_srem(key_bytes(RedisKey::Users), seq![user]),
        ]
    } else {
        Seq::empty()
    }) + (if s.member.wanted {
        seq![
            cmd_del(seq![key_bytes(RedisKey::Member { guild, user })]),
            cmd_srem(key_bytes(RedisKey::GuildMembers { id: guild }), seq![user]),
        ]
    } else {
        Seq::empty()
    })
}

/// Collects the entries and user ids of `members`.
fn member_items_of(guild: u64, members: &[MemberEntry]) -> (res: (
    Vec<(RedisKey, Vec<u8>)>,
    Vec<u64>,
))
    ensures
        entry_views(res.0@) == member_items(guild, members@),
        res.1@ == member_user_ids(members@),
{
    let mut items: Vec<(RedisKey, Vec<u8>)> = Vec::new();
    let mut ids: Vec<u64> = Vec::new();
    let mut i: usize = 0;
    while i < members.len()
        invariant
            i <= members@.len(),
            entry_views(items@) == member_items(guild, members@.take(i as int)),
            ids@ == member_user_ids(members@.take(i as int)),
        decreases members@.len() - i,
    {
        let member = &members[i];
        let key = RedisKey::Member { guild, user: member.user.id };
        let ghost before_items = items@;
        let ghost before_ids = ids@;
        items.push((key, member.bytes.clone()));
        ids.push(member.user.id);
        assert(members@.take(i + 1) =~= members@.take(i as int).push(members@[i as int]));
        assert(entry_views(items@) =~= entry_views(before_items).push((key, member.bytes@)));
        assert(member_items(guild, members@.take(i + 1)) =~= member_items(
            guild,
            members@.take(i as int),
        ).push((key, member.bytes@)));
        assert(member_user_ids(members@.take(i + 1)) =~= member_user_ids(
            members@.take(i as int),
        ).push(member.user.id));
        i = i + 1;
    }
    assert(members@.take(i as int) =~= members@);
    (items, ids)
}

/// The users of `members`.
fn member_users_of(members: &[MemberEntry]) -> (res: Vec<&UserEntry>)
    ensures
        derefs(res@) == member_users(members@),
{
    let mut users: Vec<&UserEntry> = Vec::new();
    let mut i: usize = 0;
    while i < members.len()
        invariant
            i <= members@.len(),
            derefs(users@) == member_users(members@.take(i as int)),
        decreases members@.len() - i,
    {
        let ghost before = users@;
        users.push(&members[i].user);
        assert(derefs(users@) =~= derefs(before).push(members@[i as int].user));
        assert(members@.take(i + 1) =~= members@.take(i as int).push(members@[i as int]));
        assert(member_users(members@.take(i + 1)) =~= member_users(members@.take(i as int)).push(
            members@[i as int].user,
        ));
        i = i + 1;
    }
    assert(members@.take(i as int) =~= members@);
    users
}

impl Pipe {
    /// Stores a member of `guild`.
    pub fn store_member(&mut self, guild: u64, member: &MemberEntry)
        ensures
            final(self).cmds() == old(self).cmds() + store_member_cmds(
                old(self).settings(),
                guild,
                *member,
            ),
            final(self).settings() == old(self).settings(),
            old(self).ignores_only_expires() ==> final(self).ignores_only_expires(),
    {
        let ghost start = self.cmds();
        let s = *self.settings_ref();
        let user = member.user.id;
        if s.member.wanted {
            self.set(
                RedisKey::Member { guild, user },
                member.bytes.as_slice(),
                s.member.expire_seconds,
            );
            self.sadd_one(RedisKey::GuildMembers { id: guild }, user);
        }
        if s.user.wanted {
            self.sadd_one(RedisKey::UserGuilds { id: user }, guild);
        }
        let ghost mid = self.cmds();
        self.store_user(&member.user);
        assert(self.cmds() =~= start + store_member_cmds(s, guild, *member));
    }

    /// Stores the members of `guild` at once.
    pub fn store_members(&mut self, guild: u64, members: &[MemberEntry])
        requires
            old(self).settings().valid(),
        ensures
            final(self).cmds() == old(self).cmds() + store_members_cmds(
                old(self).settings(),
                guild,
                members@,
            ),
            final(self).settings() == old(self).settings(),
            old(self).ignores_only_expires() ==> final(self).ignores_only_expires(),
    {
        let ghost start = self.cmds();
        let s = *self.settings_ref();
        if s.member.wanted {
            let (items, ids) = member_items_of(guild, members);
            if items.len() > 0 {
                self.mset(items.as_slice(), s.member.expire_seconds);
                self.sadd(RedisKey::GuildMembers { id: guild }, ids.as_slice());
            }
        }
        let ghost mid = self.cmds();
        if s.user.wanted {
            let mut i: usize = 0;
            while i < members.len()
                invariant
                    old(self).ignores_only_expires() ==> self.ignores_only_expires(),
                    i <= members@.len(),
                    self.cmds() == mid + user_guild_adds(guild, members@.take(i as int)),
                    self.settings() == s,
                decreases members@.len() - i,
            {
                self.sadd_one(RedisKey::UserGuilds { id: members[i].user.id }, guild);
                assert(members@.take(i + 1) =~= members@.take(i as int).push(members@[i as int]));
                assert(user_guild_adds(guild, members@.take(i + 1)) =~= user_guild_adds(
                    guild,
                    members@.take(i as int),
                ).push(cmd_sadd(key_bytes(RedisKey::UserGuilds { id: members@[i as int].user.id }), seq![guild])));
                i = i + 1;
            }
            assert(members@.take(i as int) =~= members@);
        }
        let ghost mid2 = self.cmds();
        let users = member_users_of(members);
        self.store_users(users.as_slice());
        assert(self.cmds() =~= start + store_members_cmds(s, guild, members@));
    }

    /// Records the member's links, adds them to `guild`, and returns the key
    /// of the member entry to fetch and update through the configured
    /// member type, if any.
    fn store_member_link(&mut self, guild: u64, user: u64, updates: bool) -> (res: Option<
        RedisKey,
    >)
        ensures
            final(self).cmds() == old(self).cmds() + store_member_link_cmds(
                old(self).settings(),
                guild,
                user,
            ),
            final(self).settings() == old(self).settings(),
            res == member_to_update(old(self).settings(), guild, user, updates),
            old(self).ignores_only_expires() ==> final(self).ignores_only_expires(),
    {
        let ghost start = self.cmds();
        let s = *self.settings_ref();
        if s.user.wanted {
            self.sadd_one(RedisKey::UserGuilds { id: user }, guild);
        }
        if !s.member.wanted {
            assert(self.cmds() =~= start + store_member_link_cmds(s, guild, user));
            return None;
        }
        self.sadd_one(RedisKey::GuildMembers { id: guild }, user);
        assert(self.cmds() =~= start + store_member_link_cmds(s, guild, user));
        if updates {
            Some(RedisKey::Member { guild, user })
        } else {
            None
        }
    }

    /// First step of a member update: stores the user and the member's
    /// links. Returns the key of the member entry to fetch and update, if
    /// the configured member type handles member updates.
    pub fn store_member_update(&mut self, guild: u64, user: &UserEntry, updates: bool) -> (res:
        Option<RedisKey>)
        ensures
            final(self).cmds() == old(self).cmds() + store_member_update_cmds(
                old(self).settings(),
                guild,
                *user,
            ),
            final(self).settings() == old(self).settings(),
            res == member_to_update(old(self).settings(), guild, user.id, updates),
            old(self).ignores_only_expires() ==> final(self).ignores_only_expires(),
    {
        let ghost start = self.cmds();
        self.store_user(user);
        let res = self.store_member_link(guild, user.id, updates);
        assert(self.cmds() =~= start + store_member_update_cmds(self.settings(), guild, *user));
        res
    }

    /// First step of handling a partial member: stores its user and the
    /// member's links. Returns the key of the member entry to fetch and
    /// update, if the configured member type updates from partial members.
    pub fn store_partial_member(
        &mut self,
        guild: u64,
        member: &PartialMemberEntry,
        updates: bool,
    ) -> (res: Option<RedisKey>)
        ensures
            final(self).cmds() == old(self).cmds() + store_partial_member_cmds(
                old(self).settings(),
                guild,
                *member,
            ),
            final(self).settings() == old(self).settings(),
            res == (match member.user {
                Some(user) => member_to_update(old(self).settings(), guild, user.id, updates),
                None => None,
            }),
            old(self).ignores_only_expires() ==> final(self).ignores_only_expires(),
    {
        let ghost start = self.cmds();
        match &member.user {
            Some(user) => {
                self.store_user(user);
                let res = self.store_member_link(guild, user.id, updates);
                assert(self.cmds() =~= start + store_partial_member_cmds(
                    self.settings(),
                    guild,
                    *member,
                ));
                res
            },
            None => {
                assert(self.cmds() =~= start + store_partial_member_cmds(
                    self.settings(),
                    guild,
                    *member,
                ));
                None
            },
        }
    }

    /// Stores a member entry after its update.
    pub fn store_updated_member(&mut self, guild: u64, user: u64, bytes: &[u8])
        ensures
            final(self).cmds() == old(self).cmds().push(
                set_command(
                    key_bytes(RedisKey::Member { guild, user }),
                    bytes@,
                    old(self).settings().member.expire_seconds,
                ),
            ),
            final(self).settings() == old(self).settings(),
            old(self).ignores_only_expires() ==> final(self).ignores_only_expires(),
    {
        let s = *self.settings_ref();
        self.set(RedisKey::Member { guild, user }, bytes, s.member.expire_seconds);
    }

    /// First step of removing a member: drops the guild from the user's
    /// guilds and asks how many remain; the answer holds only that count. Returns whether that count must be
    /// fetched before [`Pipe::delete_member_finish`].
    pub fn delete_member_start(&mut self, guild: u64, user: u64) -> (res: bool)
        ensures
            final(self).cmds() == old(self).cmds() + delete_member_start_cmds(
                old(self).settings(),
                guild,
                user,
            ),
            final(self).settings() == old(self).settings(),
            final(self).ignored() == (if old(self).settings().user.wanted {
                old(self).ignored().insert(old(self).cmds().len() as int)
            } else {
                old(self).ignored()
            }),
            res == old(self).settings().user.wanted,
    {
        let ghost start = self.cmds();
        let s = *self.settings_ref();
        if !s.user.wanted {
            assert(self.cmds() =~= start + delete_member_start_cmds(s, guild, user));
            return false;
        }
        self.srem_one(RedisKey::UserGuilds { id: user }, guild);
        self.ignore();
        self.scard(RedisKey::UserGuilds { id: user });
        assert(self.cmds() =~= start + delete_member_start_cmds(s, guild, user));
        true
    }

    /// Last step of removing a member: the user goes once it shares no guild
    /// anymore, then the member entry and its place in the guild.
    pub fn delete_member_finish(&mut self, guild: u64, user: u64, common_guilds: usize)
        ensures
            final(self).cmds() == old(self).cmds() + delete_member_finish_cmds(
                old(self).settings(),
                guild,
                user,
                common_guilds,
            ),
            final(self).settings() == old(self).settings(),
            old(self).ignores_only_expires() ==> final(self).ignores_only_expires(),
    {
        let ghost start = self.cmds();
        let s = *self.settings_ref();
        if s.user.wanted && common_guilds == 0 {
            self.del_one(RedisKey::User { id: user });
            self.srem_one(RedisKey::Users, user);
        }
        if s.member.wanted {
            self.del_one(RedisKey::Member { guild, user });
            self.srem_one(RedisKey::GuildMembers { id: guild }, user);
        }
        assert(self.cmds() =~= start + delete_member_finish_cmds(s, guild, user, common_guilds));
    }
}

} // verus!
