//! The sizes of the cached collections that are reported as gauges.
use vstd::prelude::*;

use crate::config::CacheSettings;
use crate::key::{key_bytes, RedisKey};
use crate::pipe::{cmd_scard, Pipe};

verus! {

/// A reported gauge.
#[derive(Clone, Copy, Debug, PartialEq, Eq, Structural)]
pub enum Metric {
    ChannelCount,
    EmojiCount,
    GuildCount,
    UnavailableGuildCount,
    MessageCount,
    RoleCount,
    ScheduledEventCount,
    StageInstanceCount,
    StickerCount,
    UserCount,
}

/// Whether any gauge is reported: channels, emojis, guilds, messages, roles,
/// stage instances, stickers or users are cached.
pub open spec fn wants_metrics_spec(s: CacheSettings) -> bool {
    s.channel.wanted || s.emoji.wanted || s.guild.wanted || s.message.wanted || s.role.wanted
        || s.stage_instance.wanted || s.sticker.wanted || s.user.wanted
}

/// `pairs` if `wanted`, nothing otherwise.
pub open spec fn when(wanted: bool, pairs: Seq<(Metric, RedisKey)>) -> Seq<(Metric, RedisKey)> {
    if wanted {
        pairs
    } else {
        Seq::empty()
    }
}

/// The reported gauges, each with the set whose size it reports, in the
/// order they are read.
pub open spec fn metric_sets(s: CacheSettings) -> Seq<(Metric, RedisKey)> {
    when(s.channel.wanted, seq![(Metric::ChannelCount, RedisKey::Channels)]) + when(
        s.emoji.wanted,
        seq![(Metric::EmojiCount, RedisKey::Emojis)],
    ) + when(
        s.guild.wanted,
        seq![
            (Metric::GuildCount, RedisKey::Guilds),
            (Metric::UnavailableGuildCount, RedisKey::UnavailableGuilds),
        ],
    ) + when(s.message.wanted, seq![(Metric::MessageCount, RedisKey::Messages)]) + when(
        s.role.wanted,
        seq![(Metric::RoleCount, RedisKey::Roles)],
    ) + when(
        s.scheduled_event.wanted,
        seq![(Metric::ScheduledEventCount, RedisKey::ScheduledEvents)],
    ) + when(s.stage_instance.wanted, seq![(Metric::StageInstanceCount, RedisKey::StageInstances)])
        + when(s.sticker.wanted, seq![(Metric::StickerCount, RedisKey::Stickers)]) + when(
        s.user.wanted,
        seq![(Metric::UserCount, RedisKey::Users)],
    )
}

/// Asking for the size of each reported set.
pub open spec fn scard_cmds(sets: Seq<(Metric, RedisKey)>) -> Seq<Seq<Seq<u8>>> {
    sets.map_values(|p: (Metric, RedisKey)| cmd_scard(key_bytes(p.1)))
}

/// The value of each gauge: the `i`-th answered size, zero where the store
/// answered fewer.
pub open spec fn metric_values_spec(sets: Seq<(Metric, RedisKey)>, sizes: Seq<usize>) -> Seq<
    (Metric, usize),
> {
    Seq::new(
        sets.len(),
        |i: int| (sets[i].0, if i < sizes.len() {
            sizes[i]
        } else {
            0usize
        }),
    )
}

/// The name of a gauge.
pub open spec fn metric_name(m: Metric) -> Seq<char> {
    match m {
        Metric::ChannelCount => "channel_count"@,
        Metric::EmojiCount => "emoji_count"@,
        Metric::GuildCount => "guild_count"@,
        Metric::UnavailableGuildCount => "unavailable_guild_count"@,
        Metric::MessageCount => "message_count"@,
        Metric::RoleCount => "role_count"@,
        Metric::ScheduledEventCount => "scheduled_event_count"@,
        Metric::StageInstanceCount => "stage_instance_count"@,
        Metric::StickerCount => "sticker_count"@,
        Metric::UserCount => "user_count"@,
    }
}

/// The description of a gauge.
pub open spec fn metric_description(m: Metric) -> Seq<char> {
    match m {
        Metric::ChannelCount => "Amount of cached channels"@,
        Metric::EmojiCount => "Amount of cached emojis"@,
        Metric::GuildCount => "Amount of cached guilds"@,
        Metric::UnavailableGuildCount => "Amount of unavailable guilds"@,
        Metric::MessageCount => "Amount of cached messages"@,
        Metric::RoleCount => "Amount of cached roles"@,
        Metric::ScheduledEventCount => "Amount of cached scheduled events"@,
        Metric::StageInstanceCount => "Amount of cached stage instances"@,
        Metric::StickerCount => "Amount of cached stickers"@,
        Metric::UserCount => "Amount of cached users"@,
    }
}

impl Metric {
    /// The name of the gauge.
    pub fn name(&self) -> (res: &'static str)
        ensures
            res@ == metric_name(*self),
    {
        match self {
            Metric::ChannelCount => "channel_count",
            Metric::EmojiCount => "emoji_count",
            Metric::GuildCount => "guild_count",
            Metric::UnavailableGuildCount => "unavailable_guild_count",
            Metric::MessageCount => "message_count",
            Metric::RoleCount => "role_count",
            Metric::ScheduledEventCount => "scheduled_event_count",
            Metric::StageInstanceCount => "stage_instance_count",
            Metric::StickerCount => "sticker_count",
            Metric::UserCount => "user_count",
        }
    }

    /// The description of the gauge.
    pub fn description(&self) -> (res: &'static str)
        ensures
            res@ == metric_description(*self),
    {
        match self {
            Metric::ChannelCount => "Amount of cached channels",
            Metric::EmojiCount => "Amount of cached emojis",
            Metric::GuildCount => "Amount of cached guilds",
            Metric::UnavailableGuildCount => "Amount of unavailable guilds",
            Metric::MessageCount => "Amount of cached messages",
            Metric::RoleCount => "Amount of cached roles",
            Metric::ScheduledEventCount => "Amount of cached scheduled events",
            Metric::StageInstanceCount => "Amount of cached stage instances",
            Metric::StickerCount => "Amount of cached stickers",
            Metric::UserCount => "Amount of cached users",
        }
    }
}

/// Whether any gauge is reported.
pub fn wants_metrics(s: &CacheSettings) -> (res: bool)
    ensures
        res == wants_metrics_spec(*s),
{
    s.channel.wanted || s.emoji.wanted || s.guild.wanted || s.message.wanted || s.role.wanted
        || s.stage_instance.wanted || s.sticker.wanted || s.user.wanted
}

/// Appends `pairs` if `wanted`.
fn push_when(
    v: &mut Vec<(Metric, RedisKey)>,
    wanted: bool,
    first: (Metric, RedisKey),
    second: Option<(Metric, RedisKey)>,
)
    ensures
        final(v)@ == old(v)@ + when(
            wanted,
            match second {
                Some(p) => seq![first, p],
                None => seq![first],
            },
        ),
{
    if wanted {
        v.push(first);
        if let Some(p) = second {
            v.push(p);
        }
    }
    assert(final(v)@ =~= old(v)@ + when(
        wanted,
        match second {
            Some(p) => seq![first, p],
            None => seq![first],
        },
    ));
}

/// The reported gauges, each with the set whose size it reports.
pub fn metric_sets_of(s: &CacheSettings) -> (res: Vec<(Metric, RedisKey)>)
    ensures
        res@ == metric_sets(*s),
{
    let mut v: Vec<(Metric, RedisKey)> = Vec::new();
    push_when(&mut v, s.channel.wanted, (Metric::ChannelCount, RedisKey::Channels), None);
    push_when(&mut v, s.emoji.wanted, (Metric::EmojiCount, RedisKey::Emojis), None);
    push_when(
        &mut v,
        s.guild.wanted,
        (Metric::GuildCount, RedisKey::Guilds),
        Some((Metric::UnavailableGuildCount, RedisKey::UnavailableGuilds)),
    );
    push_when(&mut v, s.message.wanted, (Metric::MessageCount, RedisKey::Messages), None);
    push_when(&mut v, s.role.wanted, (Metric::RoleCount, RedisKey::Roles), None);
    push_when(
        &mut v,
        s.scheduled_event.wanted,
        (Metric::ScheduledEventCount, RedisKey::ScheduledEvents),
        None,
    );
    push_when(
        &mut v,
        s.stage_instance.wanted,
        (Metric::StageInstanceCount, RedisKey::StageInstances),
        None,
    );
    push_when(&mut v, s.sticker.wanted, (Metric::StickerCount, RedisKey::Stickers), None);
    push_when(&mut v, s.user.wanted, (Metric::UserCount, RedisKey::Users), None);
    assert(Seq::<(Metric, RedisKey)>::empty() + when(
        s.channel.wanted,
        seq![(Metric::ChannelCount, RedisKey::Channels)],
    ) =~= when(s.channel.wanted, seq![(Metric::ChannelCount, RedisKey::Channels)]));
    v
}

/// The value of each gauge, given the answered sizes in the order of
/// [`metric_sets`].
pub fn metric_values(sets: &[(Metric, RedisKey)], sizes: &[usize]) -> (res: Vec<(Metric, usize)>)
    ensures
        res@ == metric_values_spec(sets@, sizes@),
{
    let mut out: Vec<(Metric, usize)> = Vec::new();
    let mut i: usize = 0;
    while i < sets.len()
        invariant
            i <= sets@.len(),
            out@ == metric_values_spec(sets@.take(i as int), sizes@),
        decreases sets@.len() - i,
    {
        let size: usize = if i < sizes.len() {
            sizes[i]
        } else {
            0
        };
        out.push((sets[i].0, size));
        assert(out@ =~= metric_values_spec(sets@.take(i + 1), sizes@));
        i = i + 1;
    }
    assert(sets@.take(i as int) =~= sets@);
    out
}

impl Pipe {
    /// Asks for the size of each reported set, in the order of
    /// [`metric_sets`].
    pub fn add_scards(&mut self)
        ensures
            final(self).cmds() == old(self).cmds() + scard_cmds(metric_sets(old(self).settings())),
            final(self).settings() == old(self).settings(),
            final(self).ignored() == old(self).ignored(),
    {
        let ghost start = self.cmds();
        let s = *self.settings_ref();
        let sets = metric_sets_of(&s);
        let mut i: usize = 0;
        while i < sets.len()
            invariant
                self.ignored() == old(self).ignored(),
                i <= sets@.len(),
                sets@ == metric_sets(s),
                self.cmds() == start + scard_cmds(sets@.take(i as int)),
                self.settings() == s,
            decreases sets@.len() - i,
        {
            self.scard(sets[i].1);
            assert(sets@.take(i + 1) =~= sets@.take(i as int).push(sets@[i as int]));
            assert(scard_cmds(sets@.take(i + 1)) =~= scard_cmds(sets@.take(i as int)).push(
                cmd_scard(key_bytes(sets@[i as int].1)),
            ));
            i = i + 1;
        }
        assert(sets@.take(i as int) =~= sets@);
    }
}

} // verus!
