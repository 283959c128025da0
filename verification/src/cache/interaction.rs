//! Interactions: the entries they come with.
use vstd::prelude::*;

use crate::cache::channel::{store_channel_cmds, user_refs};
use crate::cache::member::{member_to_update, store_partial_member_cmds};
use crate::cache::message::{message_members_to_update, store_message_cmds};
use crate::cache::role::store_roles_cmds;
use crate::cache::user::{store_user_cmds, store_users_cmds};
use crate::config::CacheSettings;
use crate::entries::{ChannelEntry, MessageEntry, PartialMemberEntry, RoleEntry, UserEntry};
use crate::key::RedisKey;
use crate::pipe::Pipe;

verus! {

/// What the data of an application command resolved.
pub struct ResolvedEntry {
    pub roles: Vec<RoleEntry>,
    pub users: Vec<UserEntry>,
}

/// An interaction.
pub struct InteractionEntry {
    pub guild_id: Option<u64>,
    pub channel: Option<ChannelEntry>,
    /// What the application command's data resolved, if it is one that
    /// resolved anything.
    pub resolved: Option<ResolvedEntry>,
    pub member: Option<PartialMemberEntry>,
    pub message: Option<MessageEntry>,
    pub user: Option<UserEntry>,
}

/// Storing what an application command resolved: its roles where the
/// interaction happened in a guild, then its users.
pub open spec fn store_resolved_cmds(
    s: CacheSettings,
    guild: Option<u64>,
    resolved: Option<ResolvedEntry>,
) -> Seq<Seq<Seq<u8>>> {
    match resolved {
        Some(r) => (match guild {
            Some(g) => store_roles_cmds(s, g, r.roles@),
            None => Seq::empty(),
        }) + store_users_cmds(s, r.users@),
        None => Seq::empty(),
    }
}

/// Handling the partial member of an interaction in a guild.
pub open spec fn interaction_member_cmds(
    s: CacheSettings,
    guild: Option<u64>,
    member: Option<PartialMemberEntry>,
) -> Seq<Seq<Seq<u8>>> {
    match (guild, member) {
        (Some(g), Some(m)) => store_partial_member_cmds(s, g, m),
        _ => Seq::empty(),
    }
}

/// Storing the channel an interaction comes with, if any.
pub open spec fn opt_channel_cmds(s: CacheSettings, c: Option<ChannelEntry>) -> Seq<Seq<Seq<u8>>> {
    match c {
        Some(c) => store_channel_cmds(s, c),
        None => Seq::empty(),
    }
}

/// Storing the message an interaction comes with, if any.
pub open spec fn opt_message_cmds(s: CacheSettings, m: Option<MessageEntry>) -> Seq<Seq<Seq<u8>>> {
    match m {
        Some(m) => store_message_cmds(s, m),
        None => Seq::empty(),
    }
}

/// Storing a user, if there is one.
pub open spec fn opt_user_cmds(s: CacheSettings, u: Option<UserEntry>) -> Seq<Seq<Seq<u8>>> {
    match u {
        Some(u) => store_user_cmds(s, u),
        None => Seq::empty(),
    }
}

/// Storing an interaction: its channel, what it resolved, its member, its
/// message and its user.
pub open spec fn store_interaction_cmds(s: CacheSettings, i: InteractionEntry) -> Seq<Seq<Seq<u8>>> {
    opt_channel_cmds(s, i.channel) + store_resolved_cmds(s, i.guild_id, i.resolved)
        + interaction_member_cmds(s, i.guild_id, i.member) + opt_message_cmds(s, i.message)
        + opt_user_cmds(s, i.user)
}

/// The member entry to fetch and update for the partial member of an
/// interaction in a guild, if any.
pub open spec fn interaction_member_to_update(
    s: CacheSettings,
    guild: Option<u64>,
    member: Option<PartialMemberEntry>,
    updates: bool,
) -> Seq<RedisKey> {
    match (guild, member) {
        (Some(g), Some(m)) => match m.user {
            Some(u) => match member_to_update(s, g, u.id, updates) {
                Some(k) => seq![k],
                None => Seq::empty(),
            },
            None => Seq::empty(),
        },
        _ => Seq::empty(),
    }
}

/// The member entries to fetch and update for the message of an
/// interaction, if any.
pub open spec fn opt_message_members(s: CacheSettings, m: Option<MessageEntry>, updates: bool) -> Seq<
    RedisKey,
> {
    match m {
        Some(m) => message_members_to_update(s, m, updates),
        None => Seq::empty(),
    }
}

/// The member entries to fetch and update after storing an interaction: its
/// member's, then those of its message.
pub open spec fn interaction_members_to_update(
    s: CacheSettings,
    i: InteractionEntry,
    updates: bool,
) -> Seq<RedisKey> {
    interaction_member_to_update(s, i.guild_id, i.member, updates) + opt_message_members(
        s,
        i.message,
        updates,
    )
}

/// Whether a message, if there is one, has a timestamp whose score can be
/// taken.
pub open spec fn message_storable(m: Option<MessageEntry>) -> bool {
    match m {
        Some(msg) => msg.timestamp_micros > i64::MIN,
        None => true,
    }
}

impl Pipe {
    /// Stores a channel, if there is one.
    fn store_opt_channel(&mut self, channel: &Option<ChannelEntry>)
        requires
            old(self).settings().valid(),
        ensures
            final(self).cmds() == old(self).cmds() + opt_channel_cmds(old(self).settings(), *channel),
            final(self).settings() == old(self).settings(),
            old(self).ignores_only_expires() ==> final(self).ignores_only_expires(),
    {
        if let Some(c) = channel {
            self.store_channel(c);
        } else {
            assert(self.cmds() =~= self.cmds() + Seq::<Seq<Seq<u8>>>::empty());
        }
    }

    /// Stores a user, if there is one.
    pub fn store_opt_user(&mut self, user: &Option<UserEntry>)
        ensures
            final(self).cmds() == old(self).cmds() + opt_user_cmds(old(self).settings(), *user),
            final(self).settings() == old(self).settings(),
            old(self).ignores_only_expires() ==> final(self).ignores_only_expires(),
    {
        if let Some(u) = user {
            self.store_user(u);
        } else {
            assert(self.cmds() =~= self.cmds() + Seq::<Seq<Seq<u8>>>::empty());
        }
    }

    /// Stores what an application command resolved.
    fn store_resolved(&mut self, guild: Option<u64>, resolved: &Option<ResolvedEntry>)
        requires
            old(self).settings().valid(),
        ensures
            final(self).cmds() == old(self).cmds() + store_resolved_cmds(
                old(self).settings(),
                guild,
                *resolved,
            ),
            final(self).settings() == old(self).settings(),
            old(self).ignores_only_expires() ==> final(self).ignores_only_expires(),
    {
        let ghost start = self.cmds();
        let ghost s = self.settings();
        if let Some(r) = resolved {
            if let Some(g) = guild {
                self.store_roles(g, r.roles.as_slice());
            }
            let ghost mid = self.cmds();
            let refs = user_refs(r.users.as_slice());
            self.store_users(refs.as_slice());
            assert(self.cmds() =~= start + store_resolved_cmds(s, guild, *resolved));
        } else {
            assert(self.cmds() =~= start + store_resolved_cmds(s, guild, *resolved));
        }
    }

    /// Handles the partial member of an interaction in a guild; returns the
    /// member entry to fetch and update, if any.
    fn store_interaction_member(
        &mut self,
        guild: Option<u64>,
        member: &Option<PartialMemberEntry>,
        updates: bool,
    ) -> (res: Vec<RedisKey>)
        ensures
            final(self).cmds() == old(self).cmds() + interaction_member_cmds(
                old(self).settings(),
                guild,
                *member,
            ),
            final(self).settings() == old(self).settings(),
            res@ == interaction_member_to_update(old(self).settings(), guild, *member, updates),
            old(self).ignores_only_expires() ==> final(self).ignores_only_expires(),
    {
        let ghost start = self.cmds();
        let mut keys: Vec<RedisKey> = Vec::new();
        match (guild, member) {
            (Some(g), Some(m)) => {
                if let Some(k) = self.store_partial_member(g, m, updates) {
                    keys.push(k);
                }
                assert(keys@ =~= match m.user {
                    Some(u) => match member_to_update(old(self).settings(), g, u.id, updates) {
                        Some(k) => seq![k],
                        None => Seq::empty(),
                    },
                    None => Seq::<RedisKey>::empty(),
                });
            },
            _ => {
                assert(self.cmds() =~= start + interaction_member_cmds(
                    self.settings(),
                    guild,
                    *member,
                ));
            },
        }
        keys
    }

    /// Stores the message of an interaction, if any; returns the member
    /// entries to fetch and update.
    fn store_interaction_message(&mut self, message: &Option<MessageEntry>, updates: bool) -> (res:
        Vec<RedisKey>)
        requires
            old(self).settings().valid(),
            message_storable(*message),
        ensures
            final(self).cmds() == old(self).cmds() + opt_message_cmds(old(self).settings(), *message),
            final(self).settings() == old(self).settings(),
            res@ == opt_message_members(old(self).settings(), *message, updates),
            old(self).ignores_only_expires() ==> final(self).ignores_only_expires(),
    {
        match message {
            Some(m) => self.store_message(m, updates),
            None => {
                assert(self.cmds() =~= self.cmds() + Seq::<Seq<Seq<u8>>>::empty());
                Vec::new()
            },
        }
    }

    /// Stores an interaction with everything it comes with. Returns the
    /// member entries to fetch and update, if the configured member type
    /// updates from partial members.
    pub fn store_interaction(&mut self, interaction: &InteractionEntry, member_updates: bool) -> (res:
        Vec<RedisKey>)
        requires
            old(self).settings().valid(),
            message_storable(interaction.message),
        ensures
            final(self).cmds() == old(self).cmds() + store_interaction_cmds(
                old(self).settings(),
                *interaction,
            ),
            final(self).settings() == old(self).settings(),
            res@ == interaction_members_to_update(old(self).settings(), *interaction, member_updates),
            old(self).ignores_only_expires() ==> final(self).ignores_only_expires(),
    {
        let ghost start = self.cmds();
        let ghost s = self.settings();
        self.store_opt_channel(&interaction.channel);
        self.store_resolved(interaction.guild_id, &interaction.resolved);
        let mut keys = self.store_interaction_member(
            interaction.guild_id,
            &interaction.member,
            member_updates,
        );
        let mut more = self.store_interaction_message(&interaction.message, member_updates);
        keys.append(&mut more);
        self.store_opt_user(&interaction.user);
        proof {
            let i = *interaction;
            let a = opt_channel_cmds(s, i.channel);
            let b = store_resolved_cmds(s, i.guild_id, i.resolved);
            let c = interaction_member_cmds(s, i.guild_id, i.member);
            let d = opt_message_cmds(s, i.message);
            let e = opt_user_cmds(s, i.user);
            lemma_concat5(start, a, b, c, d, e);
        }
        keys
    }
}

/// Appending five sequences in turn appends their concatenation.
pub proof fn lemma_concat5<A>(s0: Seq<A>, a: Seq<A>, b: Seq<A>, c: Seq<A>, d: Seq<A>, e: Seq<A>)
    ensures
        s0 + a + b + c + d + e == s0 + (a + b + c + d + e),
{
    assert(s0 + a + b + c + d + e =~= s0 + (a + b + c + d + e));
}

} // verus!
