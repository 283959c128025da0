//! Updating the cache with a gateway event: the commands each event queues,
//! the entries to fetch and update afterwards, and the removals that take
//! several round trips.
use vstd::prelude::*;

use crate::cache::channel::{
    channel_to_update, delete_channel_cmds, store_channel_cmds, store_channels_cmds,
};
use crate::cache::common::{delete_keyed_cmds, store_keyed_cmds, store_keyed_one_cmds, EntryKind};
use crate::cache::current_user::store_current_user_cmds;
use crate::cache::guild::{
    guild_to_update, store_guild_cmds, store_guild_update_cmds,
};
use crate::cache::integration::{delete_integration_cmds, store_integration_cmds};
use crate::cache::interaction::{
    interaction_members_to_update, message_storable, opt_user_cmds, store_interaction_cmds,
    InteractionEntry,
};
use crate::cache::member::{
    member_to_update, store_member_cmds, store_member_update_cmds, store_members_cmds,
};
use crate::cache::message::{
    delete_message_cmds, delete_messages_cmds, message_members_to_update, message_to_update,
    store_message_cmds,
};
use crate::cache::presence::{store_presence_cmds, store_presences_cmds};
use crate::cache::role::store_roles_cmds;
use crate::cache::user::store_partial_user_cmds;
use crate::cache::voice_state::{delete_voice_state_cmds, store_voice_state_cmds};
use crate::config::CacheSettings;
use crate::entries::{
    ChannelEntry, EmojiEntry, GuildEntry, IntegrationEntry, MemberEntry, MessageEntry,
    PresenceEntry, RoleEntry, StageInstanceEntry, StickerEntry, UserEntry, VoiceStateEntry,
};
use crate::key::RedisKey;
use crate::pipe::Pipe;

verus! {

/// A gateway event, as far as the cache reads it.
pub enum CacheEvent {
    /// A user to store, if there is one: bans and scheduled events.
    User(Option<UserEntry>),
    /// A channel or thread was created or updated.
    Channel(ChannelEntry),
    /// A channel or thread was deleted.
    ChannelDelete { guild: Option<u64>, channel: u64 },
    /// The pins of a channel changed.
    ChannelPinsUpdate { guild: Option<u64>, channel: u64 },
    /// A guild became available.
    GuildCreate(GuildEntry),
    /// A guild became unavailable.
    GuildUnavailable { guild: u64 },
    /// The current user left a guild.
    GuildDelete { guild: u64 },
    /// The emojis of a guild changed.
    GuildEmojisUpdate { guild: u64, emojis: Vec<EmojiEntry> },
    /// The stickers of a guild changed.
    GuildStickersUpdate { guild: u64, stickers: Vec<StickerEntry> },
    /// A guild was updated.
    GuildUpdate { guild: u64, emojis: Vec<EmojiEntry>, roles: Vec<RoleEntry> },
    /// An integration was created or updated.
    Integration { guild: Option<u64>, integration: IntegrationEntry },
    /// An integration was deleted.
    IntegrationDelete { guild: u64, integration: u64 },
    /// An interaction was created.
    InteractionCreate(InteractionEntry),
    /// An invite was created.
    InviteCreate { inviter: Option<UserEntry>, target_user: Option<u64> },
    /// A member joined a guild.
    MemberAdd { guild: u64, member: MemberEntry },
    /// A member left a guild.
    MemberRemove { guild: u64, user: u64 },
    /// A member was updated.
    MemberUpdate { guild: u64, user: UserEntry },
    /// A chunk of the members of a guild arrived.
    MemberChunk { guild: u64, members: Vec<MemberEntry>, presences: Vec<PresenceEntry> },
    /// A message was sent.
    MessageCreate(MessageEntry),
    /// A message was deleted.
    MessageDelete { msg: u64, channel: u64 },
    /// Several messages of a channel were deleted.
    MessageDeleteBulk { msgs: Vec<u64>, channel: u64 },
    /// A message was updated.
    MessageUpdate { msg: u64, channel: u64, author: Option<UserEntry> },
    /// A presence was updated.
    PresenceUpdate(PresenceEntry),
    /// A reaction was added or removed; the member of its user comes with
    /// additions and removals of one reaction in a guild.
    Reaction { guild: Option<u64>, member: Option<MemberEntry>, msg: u64, channel: u64 },
    /// The session is ready: the guilds are unavailable until they arrive.
    Ready { guilds: Vec<u64>, current_user: Vec<u8> },
    /// A role was created or updated.
    Role { guild: u64, role: RoleEntry },
    /// A role was deleted.
    RoleDelete { guild: u64, role: u64 },
    /// A stage instance was created or updated.
    StageInstance(StageInstanceEntry),
    /// A stage instance was deleted.
    StageInstanceDelete { guild: u64, stage: u64 },
    /// The active threads of a guild were synced.
    ThreadListSync { guild: u64, threads: Vec<ChannelEntry> },
    /// The current user's membership of a thread changed.
    ThreadMemberUpdate { presence: Option<PresenceEntry>, member: Option<MemberEntry> },
    /// A user started typing.
    TypingStart { guild: Option<u64>, member: Option<MemberEntry> },
    /// The current user was updated.
    CurrentUserUpdate(Vec<u8>),
    /// A voice state was updated.
    VoiceStateUpdate { guild: Option<u64>, state: VoiceStateEntry },
    /// Any event the cache does not read.
    Other,
}

/// Which configured types update their entries on which events.
#[derive(Clone, Copy, Debug, PartialEq, Eq, Structural)]
pub struct UpdateHooks {
    pub channel_pins: bool,
    pub guild_update: bool,
    pub member_update: bool,
    pub partial_member: bool,
    pub partial_user: bool,
    pub message_update: bool,
    pub reaction: bool,
}

/// An entry to fetch, update with the configured type's hook, and store back.
#[derive(Clone, Copy, Debug, PartialEq, Eq, Structural)]
pub enum Refresh {
    /// A channel whose pins changed; stored back with its guild.
    ChannelPins { channel: u64, guild: Option<u64> },
    /// A guild that was updated.
    Guild { guild: u64 },
    /// A member that was updated.
    Member { guild: u64, user: u64 },
    /// A member updated from a partial member.
    PartialMember { guild: u64, user: u64 },
    /// A user updated from a partial user.
    PartialUser { user: u64 },
    /// A message that was updated; stored back with its channel.
    Message { msg: u64, channel: u64 },
    /// A message whose reactions changed; stored back with its channel.
    Reaction { msg: u64, channel: u64 },
}

/// A removal that takes several round trips to the store.
#[derive(Clone, Copy, Debug, PartialEq, Eq, Structural)]
pub enum Removal {
    /// Nothing to remove.
    Nothing,
    /// Remove a member: [`Pipe::delete_member_start`], then
    /// [`Pipe::delete_member_finish`].
    Member { guild: u64, user: u64 },
    /// Remove a guild: [`Pipe::delete_guild_start`],
    /// [`Pipe::delete_guild_users`] and [`Pipe::delete_guild_finish`]; then,
    /// if it became unavailable, [`Pipe::store_unavailable_guild`].
    Guild { guild: u64, unavailable: bool },
    /// Remove the guilds of the ready event: [`Pipe::delete_guilds_start`],
    /// [`Pipe::delete_guilds_users`] and [`Pipe::delete_guilds_finish`];
    /// then [`Pipe::store_unavailable_guilds`] and
    /// [`Pipe::store_current_user`] with its current user.
    ReadyGuilds,
}

/// What follows the commands that an event queued.
pub struct FollowUp {
    pub refresh: Vec<Refresh>,
    pub removal: Removal,
}

/// Storing the member that comes with an event, where it has a guild.
pub open spec fn opt_member_cmds(s: CacheSettings, guild: Option<u64>, member: Option<MemberEntry>) -> Seq<
    Seq<Seq<u8>>,
> {
    match (guild, member) {
        (Some(g), Some(m)) => store_member_cmds(s, g, m),
        _ => Seq::empty(),
    }
}

/// Storing the presence of a thread member update, then its member under the
/// presence's guild.
pub open spec fn thread_member_update_cmds(
    s: CacheSettings,
    presence: Option<PresenceEntry>,
    member: Option<MemberEntry>,
) -> Seq<Seq<Seq<u8>>> {
    match presence {
        Some(p) => store_presence_cmds(s, p) + match member {
            Some(m) => store_member_cmds(s, p.guild_id, m),
            None => Seq::empty(),
        },
        None => Seq::empty(),
    }
}

/// Storing or removing a voice state: stored while connected to a channel,
/// removed otherwise; nothing outside a guild.
pub open spec fn voice_state_update_cmds(s: CacheSettings, guild: Option<u64>, v: VoiceStateEntry) -> Seq<
    Seq<Seq<u8>>,
> {
    match guild {
        Some(g) => if v.channel_id is Some {
            store_voice_state_cmds(s, g, v)
        } else {
            delete_voice_state_cmds(s, g, v.user_id)
        },
        None => Seq::empty(),
    }
}

/// The commands an event queues right away.
pub open spec fn update_cmds(s: CacheSettings, e: CacheEvent) -> Seq<Seq<Seq<u8>>> {
    match e {
        CacheEvent::User(u) => opt_user_cmds(s, u),
        CacheEvent::Channel(c) => store_channel_cmds(s, c),
        CacheEvent::ChannelDelete { guild, channel } => delete_channel_cmds(s, guild, channel),
        CacheEvent::ChannelPinsUpdate { .. } => Seq::empty(),
        CacheEvent::GuildCreate(g) => store_guild_cmds(s, g),
        CacheEvent::GuildUnavailable { .. } => Seq::empty(),
        CacheEvent::GuildDelete { .. } => Seq::empty(),
        CacheEvent::GuildEmojisUpdate { guild, emojis } => store_keyed_cmds(
            s,
            EntryKind::Emoji,
            guild,
            emojis@,
        ),
        CacheEvent::GuildStickersUpdate { guild, stickers } => store_keyed_cmds(
            s,
            EntryKind::Sticker,
            guild,
            stickers@,
        ),
        CacheEvent::GuildUpdate { guild, emojis, roles } => store_guild_update_cmds(
            s,
            guild,
            emojis@,
            roles@,
        ),
        CacheEvent::Integration { guild, integration } => match guild {
            Some(g) => store_integration_cmds(s, g, integration),
            None => Seq::empty(),
        },
        CacheEvent::IntegrationDelete { guild, integration } => delete_integration_cmds(
            s,
            guild,
            integration,
        ),
        CacheEvent::InteractionCreate(i) => store_interaction_cmds(s, i),
        CacheEvent::InviteCreate { inviter, target_user } => opt_user_cmds(s, inviter) + match target_user {
            Some(id) => store_partial_user_cmds(s, id),
            None => Seq::empty(),
        },
        CacheEvent::MemberAdd { guild, member } => store_member_cmds(s, guild, member),
        CacheEvent::MemberRemove { .. } => Seq::empty(),
        CacheEvent::MemberUpdate { guild, user } => store_member_update_cmds(s, guild, user),
        CacheEvent::MemberChunk { guild, members, presences } => store_members_cmds(
            s,
            guild,
            members@,
        ) + store_presences_cmds(s, guild, presences@),
        CacheEvent::MessageCreate(m) => store_message_cmds(s, m),
        CacheEvent::MessageDelete { msg, channel } => delete_message_cmds(s, msg, channel),
        CacheEvent::MessageDeleteBulk { msgs, channel } => delete_messages_cmds(s, msgs@, channel),
        CacheEvent::MessageUpdate { author, .. } => opt_user_cmds(s, author),
        CacheEvent::PresenceUpdate(p) => store_presence_cmds(s, p),
        CacheEvent::Reaction { guild, member, .. } => opt_member_cmds(s, guild, member),
        CacheEvent::Ready { .. } => Seq::empty(),
        CacheEvent::Role { guild, role } => store_keyed_one_cmds(
            s,
            EntryKind::Role,
            guild,
            role.id,
            role.bytes@,
        ),
        CacheEvent::RoleDelete { guild, role } => delete_keyed_cmds(s, EntryKind::Role, guild, role),
        CacheEvent::StageInstance(st) => store_keyed_one_cmds(
            s,
            EntryKind::StageInstance,
            st.guild_id,
            st.id,
            st.bytes@,
        ),
        CacheEvent::StageInstanceDelete { guild, stage } => delete_keyed_cmds(
            s,
            EntryKind::StageInstance,
            guild,
            stage,
        ),
        CacheEvent::ThreadListSync { guild, threads } => store_channels_cmds(s, guild, threads@),
        CacheEvent::ThreadMemberUpdate { presence, member } => thread_member_update_cmds(
            s,
            presence,
            member,
        ),
        CacheEvent::TypingStart { guild, member } => opt_member_cmds(s, guild, member),
        CacheEvent::CurrentUserUpdate(bytes) => store_current_user_cmds(s, bytes@),
        CacheEvent::VoiceStateUpdate { guild, state } => voice_state_update_cmds(s, guild, state),
        CacheEvent::Other => Seq::empty(),
    }
}

/// `r` as a one-element list if `key` names an entry to fetch.
pub open spec fn refresh_if(key: Option<RedisKey>, r: Refresh) -> Seq<Refresh> {
    if key is Some {
        seq![r]
    } else {
        Seq::empty()
    }
}

/// The refresh of each member entry to fetch, updated from a partial member.
pub open spec fn partial_member_refreshes(keys: Seq<RedisKey>) -> Seq<Refresh> {
    keys.map_values(
        |k: RedisKey| match k {
            RedisKey::Member { guild, user } => Refresh::PartialMember { guild, user },
            _ => Refresh::PartialUser { user: 0 },
        },
    )
}

/// The entries an event leaves to fetch and update, in order.
pub open spec fn update_refresh(s: CacheSettings, h: UpdateHooks, e: CacheEvent) -> Seq<Refresh> {
    match e {
        CacheEvent::ChannelPinsUpdate { guild, channel } => refresh_if(
            channel_to_update(s, channel, h.channel_pins),
            Refresh::ChannelPins { channel, guild },
        ),
        CacheEvent::GuildUpdate { guild, .. } => refresh_if(
            guild_to_update(s, guild, h.guild_update),
            Refresh::Guild { guild },
        ),
        CacheEvent::InteractionCreate(i) => partial_member_refreshes(
            interaction_members_to_update(s, i, h.partial_member),
        ),
        CacheEvent::InviteCreate { target_user, .. } => match target_user {
            Some(user) => if s.user.wanted && h.partial_user {
                seq![Refresh::PartialUser { user }]
            } else {
                Seq::empty()
            },
            None => Seq::empty(),
        },
        CacheEvent::MemberUpdate { guild, user } => refresh_if(
            member_to_update(s, guild, user.id, h.member_update),
            Refresh::Member { guild, user: user.id },
        ),
        CacheEvent::MessageCreate(m) => partial_member_refreshes(
            message_members_to_update(s, m, h.partial_member),
        ),
        CacheEvent::MessageUpdate { msg, channel, .. } => refresh_if(
            message_to_update(s, msg, h.message_update),
            Refresh::Message { msg, channel },
        ),
        CacheEvent::Reaction { msg, channel, .. } => refresh_if(
            message_to_update(s, msg, h.reaction),
            Refresh::Reaction { msg, channel },
        ),
        _ => Seq::empty(),
    }
}

/// The removal an event calls for.
pub open spec fn update_removal(e: CacheEvent) -> Removal {
    match e {
        CacheEvent::GuildUnavailable { guild } => Removal::Guild { guild, unavailable: true },
        CacheEvent::GuildDelete { guild } => Removal::Guild { guild, unavailable: false },
        CacheEvent::MemberRemove { guild, user } => Removal::Member { guild, user },
        CacheEvent::Ready { .. } => Removal::ReadyGuilds,
        _ => Removal::Nothing,
    }
}

/// Whether an event can be handled: the messages it comes with have a
/// timestamp whose score can be taken.
pub open spec fn event_storable(e: CacheEvent) -> bool {
    match e {
        CacheEvent::MessageCreate(m) => m.timestamp_micros > i64::MIN,
        CacheEvent::InteractionCreate(i) => message_storable(i.message),
        _ => true,
    }
}

/// The refreshes of the member entries to fetch.
fn partial_member_refreshes_of(keys: &[RedisKey]) -> (res: Vec<Refresh>)
    ensures
        res@ == partial_member_refreshes(keys@),
{
    let mut out: Vec<Refresh> = Vec::new();
    let mut i: usize = 0;
    while i < keys.len()
        invariant
            i <= keys@.len(),
            out@ == partial_member_refreshes(keys@.take(i as int)),
        decreases keys@.len() - i,
    {
        let r = match keys[i] {
            RedisKey::Member { guild, user } => Refresh::PartialMember { guild, user },
            _ => Refresh::PartialUser { user: 0 },
        };
        out.push(r);
        assert(keys@.take(i + 1) =~= keys@.take(i as int).push(keys@[i as int]));
        assert(out@ =~= partial_member_refreshes(keys@.take(i + 1)));
        i = i + 1;
    }
    assert(keys@.take(i as int) =~= keys@);
    out
}

/// `r` as a one-element list if `key` names an entry to fetch.
fn refresh_if_some(key: Option<RedisKey>, r: Refresh) -> (res: Vec<Refresh>)
    ensures
        res@ == refresh_if(key, r),
{
    let mut out: Vec<Refresh> = Vec::new();
    if key.is_some() {
        out.push(r);
    }
    assert(out@ =~= refresh_if(key, r));
    out
}

/// A follow-up with only a removal.
fn removal_only(removal: Removal) -> (res: FollowUp)
    ensures
        res.refresh@ == Seq::<Refresh>::empty(),
        res.removal == removal,
{
    FollowUp { refresh: Vec::new(), removal }
}

/// A follow-up with only refreshes.
fn refresh_only(refresh: Vec<Refresh>) -> (res: FollowUp)
    ensures
        res.refresh@ == refresh@,
        res.removal == Removal::Nothing,
{
    FollowUp { refresh, removal: Removal::Nothing }
}

impl Pipe {
    /// Stores the member that comes with an event, where it has a guild.
    fn store_opt_member(&mut self, guild: Option<u64>, member: &Option<MemberEntry>)
        ensures
            final(self).cmds() == old(self).cmds() + opt_member_cmds(
                old(self).settings(),
                guild,
                *member,
            ),
            final(self).settings() == old(self).settings(),
            old(self).ignores_only_expires() ==> final(self).ignores_only_expires(),
    {
        match (guild, member) {
            (Some(g), Some(m)) => self.store_member(g, m),
            _ => {
                assert(self.cmds() =~= self.cmds() + Seq::<Seq<Seq<u8>>>::empty());
            },
        }
    }

    /// Stores the presence of a thread member update, then its member.
    fn store_thread_member_update(
        &mut self,
        presence: &Option<PresenceEntry>,
        member: &Option<MemberEntry>,
    )
        ensures
            final(self).cmds() == old(self).cmds() + thread_member_update_cmds(
                old(self).settings(),
                *presence,
                *member,
            ),
            final(self).settings() == old(self).settings(),
            old(self).ignores_only_expires() ==> final(self).ignores_only_expires(),
    {
        let ghost start = self.cmds();
        let ghost s = self.settings();
        if let Some(p) = presence {
            self.store_presence(p);
            let ghost mid = self.cmds();
            if let Some(m) = member {
                self.store_member(p.guild_id, m);
            }
            assert(self.cmds() =~= start + thread_member_update_cmds(s, *presence, *member));
        } else {
            assert(self.cmds() =~= start + thread_member_update_cmds(s, *presence, *member));
        }
    }

    /// Stores or removes a voice state.
    fn voice_state_update(&mut self, guild: Option<u64>, state: &VoiceStateEntry)
        ensures
            final(self).cmds() == old(self).cmds() + voice_state_update_cmds(
                old(self).settings(),
                guild,
                *state,
            ),
            final(self).settings() == old(self).settings(),
            old(self).ignores_only_expires() ==> final(self).ignores_only_expires(),
    {
        match guild {
            Some(g) => {
                if state.channel_id.is_some() {
                    self.store_voice_state(g, state);
                } else {
                    self.delete_voice_state(g, state.user_id);
                }
            },
            None => {
                assert(self.cmds() =~= self.cmds() + Seq::<Seq<Seq<u8>>>::empty());
            },
        }
    }

    /// Handles an invite: stores its inviter, and records its target user.
    fn invite_create(&mut self, inviter: &Option<UserEntry>, target_user: Option<u64>, updates: bool) -> (res:
        Vec<Refresh>)
        ensures
            final(self).cmds() == old(self).cmds() + opt_user_cmds(old(self).settings(), *inviter)
                + match target_user {
                Some(id) => store_partial_user_cmds(old(self).settings(), id),
                None => Seq::empty(),
            },
            final(self).settings() == old(self).settings(),
            res@ == match target_user {
                Some(user) => if old(self).settings().user.wanted && updates {
                    seq![Refresh::PartialUser { user }]
                } else {
                    Seq::empty()
                },
                None => Seq::<Refresh>::empty(),
            },
            old(self).ignores_only_expires() ==> final(self).ignores_only_expires(),
    {
        let ghost start = self.cmds();
        self.store_opt_user(inviter);
        let ghost mid = self.cmds();
        let mut out: Vec<Refresh> = Vec::new();
        if let Some(user) = target_user {
            if let Some(_) = self.store_partial_user(user, updates) {
                out.push(Refresh::PartialUser { user });
            }
        } else {
            assert(self.cmds() =~= mid + Seq::<Seq<Seq<u8>>>::empty());
        }
        assert(out@ =~= match target_user {
            Some(user) => if old(self).settings().user.wanted && updates {
                seq![Refresh::PartialUser { user }]
            } else {
                Seq::empty()
            },
            None => Seq::<Refresh>::empty(),
        });
        out
    }

    /// Handles the integration events.
    fn integration(&mut self, guild: Option<u64>, integration: &IntegrationEntry)
        ensures
            final(self).cmds() == old(self).cmds() + match guild {
                Some(g) => store_integration_cmds(old(self).settings(), g, *integration),
                None => Seq::empty(),
            },
            final(self).settings() == old(self).settings(),
            old(self).ignores_only_expires() ==> final(self).ignores_only_expires(),
    {
        match guild {
            Some(g) => self.store_integration(g, integration),
            None => {
                assert(self.cmds() =~= self.cmds() + Seq::<Seq<Seq<u8>>>::empty());
            },
        }
    }

    /// Stores a chunk of members and their presences.
    fn member_chunk(&mut self, guild: u64, members: &[MemberEntry], presences: &[PresenceEntry])
        requires
            old(self).settings().valid(),
        ensures
            final(self).cmds() == old(self).cmds() + store_members_cmds(
                old(self).settings(),
                guild,
                members@,
            ) + store_presences_cmds(old(self).settings(), guild, presences@),
            final(self).settings() == old(self).settings(),
            old(self).ignores_only_expires() ==> final(self).ignores_only_expires(),
    {
        self.store_members(guild, members);
        self.store_presences(guild, presences);
    }

    /// Updates the cache with an event: queues the commands it calls for
    /// right away, and returns the entries to fetch and update and the
    /// removal that follow.
    pub fn update(&mut self, event: &CacheEvent, hooks: UpdateHooks) -> (res: FollowUp)
        requires
            old(self).settings().valid(),
            event_storable(*event),
        ensures
            final(self).cmds() == old(self).cmds() + update_cmds(old(self).settings(), *event),
            final(self).settings() == old(self).settings(),
            res.refresh@ == update_refresh(old(self).settings(), hooks, *event),
            res.removal == update_removal(*event),
            old(self).ignores_only_expires() ==> final(self).ignores_only_expires(),
    {
        match event {
            CacheEvent::User(u) => {
                self.store_opt_user(u);
                removal_only(Removal::Nothing)
            },
            CacheEvent::Channel(c) => {
                self.store_channel(c);
                removal_only(Removal::Nothing)
            },
            CacheEvent::ChannelDelete { guild, channel } => {
                self.delete_channel(*guild, *channel);
                removal_only(Removal::Nothing)
            },
            CacheEvent::ChannelPinsUpdate { guild, channel } => {
                let key = self.store_channel_pins_update(*channel, hooks.channel_pins);
                assert(self.cmds() =~= self.cmds() + Seq::<Seq<Seq<u8>>>::empty());
                refresh_only(
                    refresh_if_some(key, Refresh::ChannelPins { channel: *channel, guild: *guild }),
                )
            },
            CacheEvent::GuildCreate(g) => {
                self.store_guild(g);
                removal_only(Removal::Nothing)
            },
            CacheEvent::GuildUnavailable { guild } => {
                assert(self.cmds() =~= self.cmds() + Seq::<Seq<Seq<u8>>>::empty());
                removal_only(Removal::Guild { guild: *guild, unavailable: true })
            },
            CacheEvent::GuildDelete { guild } => {
                assert(self.cmds() =~= self.cmds() + Seq::<Seq<Seq<u8>>>::empty());
                removal_only(Removal::Guild { guild: *guild, unavailable: false })
            },
            CacheEvent::GuildEmojisUpdate { guild, emojis } => {
                self.store_emojis(*guild, emojis.as_slice());
                removal_only(Removal::Nothing)
            },
            CacheEvent::GuildStickersUpdate { guild, stickers } => {
                self.store_stickers(*guild, stickers.as_slice());
                removal_only(Removal::Nothing)
            },
            CacheEvent::GuildUpdate { guild, emojis, roles } => {
                let key = self.store_guild_update(
                    *guild,
                    emojis.as_slice(),
                    roles.as_slice(),
                    hooks.guild_update,
                );
                refresh_only(refresh_if_some(key, Refresh::Guild { guild: *guild }))
            },
            CacheEvent::Integration { guild, integration } => {
                self.integration(*guild, integration);
                removal_only(Removal::Nothing)
            },
            CacheEvent::IntegrationDelete { guild, integration } => {
                self.delete_integration(*guild, *integration);
                removal_only(Removal::Nothing)
            },
            CacheEvent::InteractionCreate(i) => {
                let keys = self.store_interaction(i, hooks.partial_member);
                refresh_only(partial_member_refreshes_of(keys.as_slice()))
            },
            CacheEvent::InviteCreate { inviter, target_user } => {
                refresh_only(self.invite_create(inviter, *target_user, hooks.partial_user))
            },
            CacheEvent::MemberAdd { guild, member } => {
                self.store_member(*guild, member);
                removal_only(Removal::Nothing)
            },
            CacheEvent::MemberRemove { guild, user } => {
                assert(self.cmds() =~= self.cmds() + Seq::<Seq<Seq<u8>>>::empty());
                removal_only(Removal::Member { guild: *guild, user: *user })
            },
            CacheEvent::MemberUpdate { guild, user } => {
                let key = self.store_member_update(*guild, user, hooks.member_update);
                refresh_only(refresh_if_some(key, Refresh::Member { guild: *guild, user: user.id }))
            },
            CacheEvent::MemberChunk { guild, members, presences } => {
                self.member_chunk(*guild, members.as_slice(), presences.as_slice());
                removal_only(Removal::Nothing)
            },
            CacheEvent::MessageCreate(m) => {
                let keys = self.store_message(m, hooks.partial_member);
                refresh_only(partial_member_refreshes_of(keys.as_slice()))
            },
            CacheEvent::MessageDelete { msg, channel } => {
                self.delete_message(*msg, *channel);
                removal_only(Removal::Nothing)
            },
            CacheEvent::MessageDeleteBulk { msgs, channel } => {
                self.delete_messages(msgs.as_slice(), *channel);
                removal_only(Removal::Nothing)
            },
            CacheEvent::MessageUpdate { msg, channel, author } => {
                let key = self.store_message_update(author, *msg, hooks.message_update);
                refresh_only(refresh_if_some(key, Refresh::Message { msg: *msg, channel: *channel }))
            },
            CacheEvent::PresenceUpdate(p) => {
                self.store_presence(p);
                removal_only(Removal::Nothing)
            },
            CacheEvent::Reaction { guild, member, msg, channel } => {
                self.store_opt_member(*guild, member);
                let key = self.handle_reaction(*msg, hooks.reaction);
                refresh_only(refresh_if_some(key, Refresh::Reaction { msg: *msg, channel: *channel }))
            },
            CacheEvent::Ready { .. } => {
                assert(self.cmds() =~= self.cmds() + Seq::<Seq<Seq<u8>>>::empty());
                removal_only(Removal::ReadyGuilds)
            },
            CacheEvent::Role { guild, role } => {
                self.store_role(*guild, role);
                removal_only(Removal::Nothing)
            },
            CacheEvent::RoleDelete { guild, role } => {
                self.delete_role(*guild, *role);
                removal_only(Removal::Nothing)
            },
            CacheEvent::StageInstance(st) => {
                self.store_stage_instance(st);
                removal_only(Removal::Nothing)
            },
            CacheEvent::StageInstanceDelete { guild, stage } => {
                self.delete_stage_instance(*guild, *stage);
                removal_only(Removal::Nothing)
            },
            CacheEvent::ThreadListSync { guild, threads } => {
                self.store_channels(*guild, threads.as_slice());
                removal_only(Removal::Nothing)
            },
            CacheEvent::ThreadMemberUpdate { presence, member } => {
                self.store_thread_member_update(presence, member);
                removal_only(Removal::Nothing)
            },
            CacheEvent::TypingStart { guild, member } => {
                self.store_opt_member(*guild, member);
                removal_only(Removal::Nothing)
            },
            CacheEvent::CurrentUserUpdate(bytes) => {
                self.store_current_user(bytes.as_slice());
                removal_only(Removal::Nothing)
            },
            CacheEvent::VoiceStateUpdate { guild, state } => {
                self.voice_state_update(*guild, state);
                removal_only(Removal::Nothing)
            },
            CacheEvent::Other => {
                assert(self.cmds() =~= self.cmds() + Seq::<Seq<Seq<u8>>>::empty());
                removal_only(Removal::Nothing)
            },
        }
    }
}

} // verus!
