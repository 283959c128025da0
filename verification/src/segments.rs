//! Splitting key text at its `:` separators.
use vstd::prelude::*;

use crate::decimal::{all_digits, dec, digits_value, is_digit, lemma_dec};
use crate::key::{colon, key_bytes, name_guild_id, name_id, prefix, RedisKey};

verus! {

/// Whether `s` holds no `:`.
pub open spec fn colon_free(s: Seq<u8>) -> bool {
    forall|i: int| 0 <= i < s.len() ==> #[trigger] s[i] != colon()
}

/// Splitting `s` from the left: the segments that a `:` has closed, and the
/// segment still open at the end.
pub open spec fn split_acc(s: Seq<u8>) -> (Seq<Seq<u8>>, Seq<u8>)
    decreases s.len(),
{
    if s.len() == 0 {
        (Seq::empty(), Seq::empty())
    } else {
        let (done, open) = split_acc(s.drop_last());
        if s.last() == colon() {
            (done.push(open), Seq::empty())
        } else {
            (done, open.push(s.last()))
        }
    }
}

/// The parts of `s` between its `:` separators, in order. There is always at
/// least one part; `a::b` has an empty middle part.
pub open spec fn segments(s: Seq<u8>) -> Seq<Seq<u8>> {
    split_acc(s).0.push(split_acc(s).1)
}

/// Appending text without `:` only extends the open segment.
pub proof fn lemma_split_colon_free(a: Seq<u8>, b: Seq<u8>)
    requires
        colon_free(b),
    ensures
        split_acc(a + b) == (split_acc(a).0, split_acc(a).1 + b),
    decreases b.len(),
{
    if b.len() == 0 {
        assert(a + b =~= a);
        assert(split_acc(a).1 + b =~= split_acc(a).1);
    } else {
        let b0 = b.drop_last();
        assert(colon_free(b0)) by {
            assert forall|i: int| 0 <= i < b0.len() implies #[trigger] b0[i] != colon() by {
                assert(b0[i] == b[i]);
            }
        }
        lemma_split_colon_free(a, b0);
        assert((a + b).drop_last() =~= a + b0);
        assert((a + b).last() == b.last());
        assert(b[b.len() - 1] != colon());
        assert(split_acc(a).1 + b0.push(b.last()) =~= split_acc(a).1 + b);
        assert(b0.push(b.last()) =~= b);
    }
}

/// Appending a `:` closes the open segment.
pub proof fn lemma_split_colon(a: Seq<u8>)
    ensures
        split_acc(a.push(colon())) == (split_acc(a).0.push(split_acc(a).1), Seq::<u8>::empty()),
{
    assert(a.push(colon()).drop_last() =~= a);
}

/// Decimal text holds no `:`.
pub proof fn lemma_dec_colon_free(n: nat)
    ensures
        colon_free(dec(n)),
{
    lemma_dec(n);
    assert forall|i: int| 0 <= i < dec(n).len() implies #[trigger] dec(n)[i] != colon() by {
        assert(is_digit(dec(n)[i]));
    }
}

/// The prefix of every key holds no `:`.
pub proof fn lemma_prefix_colon_free(key: RedisKey)
    ensures
        colon_free(prefix(key)),
{
}

/// `prefix:id` splits into the prefix and the id's text.
pub proof fn lemma_segments_name_id(p: Seq<u8>, id: u64)
    requires
        colon_free(p),
    ensures
        segments(name_id(p, id)) == seq![p, dec(id as nat)],
{
    lemma_split_colon_free(Seq::empty(), p);
    assert(Seq::<u8>::empty() + p =~= p);
    assert(split_acc(Seq::<u8>::empty()) == (Seq::<Seq<u8>>::empty(), Seq::<u8>::empty()));
    assert(Seq::<u8>::empty() + p =~= p);
    lemma_split_colon(p);
    lemma_dec_colon_free(id as nat);
    lemma_split_colon_free(p.push(colon()), dec(id as nat));
    assert(Seq::<u8>::empty() + dec(id as nat) =~= dec(id as nat));
    assert(segments(name_id(p, id)) =~= seq![p, dec(id as nat)]);
}

/// `prefix:guild:id` splits into the prefix and the two ids' text.
pub proof fn lemma_segments_name_guild_id(p: Seq<u8>, guild: u64, id: u64)
    requires
        colon_free(p),
    ensures
        segments(name_guild_id(p, guild, id)) == seq![p, dec(guild as nat), dec(id as nat)],
{
    lemma_split_colon_free(Seq::empty(), p);
    assert(Seq::<u8>::empty() + p =~= p);
    assert(split_acc(Seq::<u8>::empty()) == (Seq::<Seq<u8>>::empty(), Seq::<u8>::empty()));
    lemma_split_colon(p);
    lemma_dec_colon_free(guild as nat);
    lemma_split_colon_free(p.push(colon()), dec(guild as nat));
    assert(Seq::<u8>::empty() + dec(guild as nat) =~= dec(guild as nat));
    let mid = p.push(colon()) + dec(guild as nat);
    lemma_split_colon(mid);
    lemma_dec_colon_free(id as nat);
    lemma_split_colon_free(mid.push(colon()), dec(id as nat));
    assert(Seq::<u8>::empty() + dec(id as nat) =~= dec(id as nat));
    assert(seq![p].push(dec(guild as nat)) =~= seq![p, dec(guild as nat)]);
    assert(segments(name_guild_id(p, guild, id)) =~= seq![p, dec(guild as nat), dec(id as nat)]);
}

/// A key without ids is a single segment.
pub proof fn lemma_segments_plain(p: Seq<u8>)
    requires
        colon_free(p),
    ensures
        segments(p) == seq![p],
{
    lemma_split_colon_free(Seq::empty(), p);
    assert(Seq::<u8>::empty() + p =~= p);
    assert(split_acc(Seq::<u8>::empty()) == (Seq::<Seq<u8>>::empty(), Seq::<u8>::empty()));
    assert(segments(p) =~= seq![p]);
}

/// The contents of a list of byte buffers.
pub open spec fn views(v: Seq<Vec<u8>>) -> Seq<Seq<u8>> {
    v.map_values(|x: Vec<u8>| x@)
}

/// Splits `bytes` at each `:`.
pub fn split_colon(bytes: &[u8]) -> (res: Vec<Vec<u8>>)
    ensures
        views(res@) == segments(bytes@),
{
    let mut done: Vec<Vec<u8>> = Vec::new();
    let mut open: Vec<u8> = Vec::new();
    let mut i: usize = 0;
    while i < bytes.len()
        invariant
            i <= bytes@.len(),
            (views(done@), open@) == split_acc(bytes@.take(i as int)),
        decreases bytes@.len() - i,
    {
        let ghost s = bytes@.take(i + 1);
        assert(s.drop_last() =~= bytes@.take(i as int));
        assert(s.last() == bytes@[i as int]);
        let ghost old_done = views(done@);
        if bytes[i] == 58u8 {
            let closed = open;
            let ghost closed_view = closed@;
            done.push(closed);
            assert(views(done@) =~= old_done.push(closed_view));
            open = Vec::new();
            assert(open@ =~= Seq::<u8>::empty());
        } else {
            open.push(bytes[i]);
        }
        i = i + 1;
    }
    assert(bytes@.take(i as int) =~= bytes@);
    let ghost old_done = views(done@);
    let ghost open_view = open@;
    done.push(open);
    assert(views(done@) =~= old_done.push(open_view));
    done
}

/// Whether two byte strings are equal.
pub fn bytes_eq(a: &[u8], b: &[u8]) -> (res: bool)
    ensures
        res == (a@ == b@),
{
    if a.len() != b.len() {
        return false;
    }
    let mut i: usize = 0;
    while i < a.len()
        invariant
            i <= a@.len(),
            a@.len() == b@.len(),
            forall|j: int| 0 <= j < i ==> a@[j] == b@[j],
        decreases a@.len() - i,
    {
        if a[i] != b[i] {
            assert(a@[i as int] != b@[i as int]);
            return false;
        }
        i = i + 1;
    }
    assert(a@ =~= b@);
    true
}


/// The number that a segment of key text denotes.
pub open spec fn segment_value(segs: Seq<Seq<u8>>, i: int) -> u64 {
    if i < segs.len() {
        digits_value(segs[i]) as u64
    } else {
        0
    }
}

/// The key whose text is `s`: its first segment names the kind of key, the
/// following segments its ids. Text that no key writes may read as anything.
pub open spec fn key_of_text(s: Seq<u8>) -> RedisKey {
    let segs = segments(s);
    let first = segs[0];
    let a = segment_value(segs, 1);
    let b = segment_value(segs, 2);
    if first == prefix(RedisKey::Channel { id: 0 }) {
        RedisKey::Channel { id: a }
    } else if first == prefix(RedisKey::ChannelMessages { channel: 0 }) {
        RedisKey::ChannelMessages { channel: a }
    } else if first == prefix(RedisKey::ChannelMeta { id: 0 }) {
        RedisKey::ChannelMeta { id: a }
    } else if first == prefix(RedisKey::Channels) {
        RedisKey::Channels
    } else if first == prefix(RedisKey::CurrentUser) {
        RedisKey::CurrentUser
    } else if first == prefix(RedisKey::Emoji { id: 0 }) {
        RedisKey::Emoji { id: a }
    } else if first == prefix(RedisKey::EmojiMeta { id: 0 }) {
        RedisKey::EmojiMeta { id: a }
    } else if first == prefix(RedisKey::Emojis) {
        RedisKey::Emojis
    } else if first == prefix(RedisKey::Guild { id: 0 }) {
        RedisKey::Guild { id: a }
    } else if first == prefix(RedisKey::GuildChannels { id: 0 }) {
        RedisKey::GuildChannels { id: a }
    } else if first == prefix(RedisKey::GuildEmojis { id: 0 }) {
        RedisKey::GuildEmojis { id: a }
    } else if first == prefix(RedisKey::GuildIntegrations { id: 0 }) {
        RedisKey::GuildIntegrations { id: a }
    } else if first == prefix(RedisKey::GuildMembers { id: 0 }) {
        RedisKey::GuildMembers { id: a }
    } else if first == prefix(RedisKey::GuildPresences { id: 0 }) {
        RedisKey::GuildPresences { id: a }
    } else if first == prefix(RedisKey::GuildRoles { id: 0 }) {
        RedisKey::GuildRoles { id: a }
    } else if first == prefix(RedisKey::GuildScheduledEvents { id: 0 }) {
        RedisKey::GuildScheduledEvents { id: a }
    } else if first == prefix(RedisKey::GuildStageInstances { id: 0 }) {
        RedisKey::GuildStageInstances { id: a }
    } else if first == prefix(RedisKey::GuildStickers { id: 0 }) {
        RedisKey::GuildStickers { id: a }
    } else if first == prefix(RedisKey::GuildVoiceStates { id: 0 }) {
        RedisKey::GuildVoiceStates { id: a }
    } else if first == prefix(RedisKey::Guilds) {
        RedisKey::Guilds
    } else if first == prefix(RedisKey::Integration { guild: 0, id: 0 }) {
        RedisKey::Integration { guild: a, id: b }
    } else if first == prefix(RedisKey::Member { guild: 0, user: 0 }) {
        RedisKey::Member { guild: a, user: b }
    } else if first == prefix(RedisKey::Message { id: 0 }) {
        RedisKey::Message { id: a }
    } else if first == prefix(RedisKey::MessageMeta { id: 0 }) {
        RedisKey::MessageMeta { id: a }
    } else if first == prefix(RedisKey::Messages) {
        RedisKey::Messages
    } else if first == prefix(RedisKey::Presence { guild: 0, user: 0 }) {
        RedisKey::Presence { guild: a, user: b }
    } else if first == prefix(RedisKey::Role { id: 0 }) {
        RedisKey::Role { id: a }
    } else if first == prefix(RedisKey::RoleMeta { id: 0 }) {
        RedisKey::RoleMeta { id: a }
    } else if first == prefix(RedisKey::Roles) {
        RedisKey::Roles
    } else if first == prefix(RedisKey::ScheduledEvent { id: 0 }) {
        RedisKey::ScheduledEvent { id: a }
    } else if first == prefix(RedisKey::ScheduledEventMeta { id: 0 }) {
        RedisKey::ScheduledEventMeta { id: a }
    } else if first == prefix(RedisKey::ScheduledEvents) {
        RedisKey::ScheduledEvents
    } else if first == prefix(RedisKey::Sessions) {
        RedisKey::Sessions
    } else if first == prefix(RedisKey::StageInstance { id: 0 }) {
        RedisKey::StageInstance { id: a }
    } else if first == prefix(RedisKey::StageInstanceMeta { id: 0 }) {
        RedisKey::StageInstanceMeta { id: a }
    } else if first == prefix(RedisKey::StageInstances) {
        RedisKey::StageInstances
    } else if first == prefix(RedisKey::Sticker { id: 0 }) {
        RedisKey::Sticker { id: a }
    } else if first == prefix(RedisKey::StickerMeta { id: 0 }) {
        RedisKey::StickerMeta { id: a }
    } else if first == prefix(RedisKey::Stickers) {
        RedisKey::Stickers
    } else if first == prefix(RedisKey::UnavailableGuilds) {
        RedisKey::UnavailableGuilds
    } else if first == prefix(RedisKey::User { id: 0 }) {
        RedisKey::User { id: a }
    } else if first == prefix(RedisKey::UserGuilds { id: 0 }) {
        RedisKey::UserGuilds { id: a }
    } else if first == prefix(RedisKey::Users) {
        RedisKey::Users
    } else {
        RedisKey::VoiceState { guild: a, user: b }
    }
}

/// The decimal text of an id reads back as the id.
proof fn lemma_dec_value(n: u64)
    ensures
        digits_value(dec(n as nat)) as u64 == n,
{
    lemma_dec(n as nat);
}

proof fn lemma_text_of_channel(id: u64)
    ensures
        key_of_text(key_bytes((RedisKey::Channel { id }))) == (RedisKey::Channel { id }),
{
    lemma_prefix_colon_free(RedisKey::Channel { id });
    lemma_segments_name_id(prefix(RedisKey::Channel { id }), id);
    lemma_dec_value(id);
}

proof fn lemma_text_of_channel_messages(channel: u64)
    ensures
        key_of_text(key_bytes((RedisKey::ChannelMessages { channel }))) == (RedisKey::ChannelMessages { channel }),
{
    lemma_prefix_colon_free(RedisKey::ChannelMessages { channel });
    lemma_segments_name_id(prefix(RedisKey::ChannelMessages { channel }), channel);
    lemma_dec_value(channel);
}

proof fn lemma_text_of_channel_meta(id: u64)
    ensures
        key_of_text(key_bytes((RedisKey::ChannelMeta { id }))) == (RedisKey::ChannelMeta { id }),
{
    lemma_prefix_colon_free(RedisKey::ChannelMeta { id });
    lemma_segments_name_id(prefix(RedisKey::ChannelMeta { id }), id);
    lemma_dec_value(id);
}

proof fn lemma_text_of_channels()
    ensures
        key_of_text(key_bytes(RedisKey::Channels)) == RedisKey::Channels,
{
    lemma_prefix_colon_free(RedisKey::Channels);
    lemma_segments_plain(prefix(RedisKey::Channels));
}

proof fn lemma_text_of_current_user()
    ensures
        key_of_text(key_bytes(RedisKey::CurrentUser)) == RedisKey::CurrentUser,
{
    lemma_prefix_colon_free(RedisKey::CurrentUser);
    lemma_segments_plain(prefix(RedisKey::CurrentUser));
}

proof fn lemma_text_of_emoji(id: u64)
    ensures
        key_of_text(key_bytes((RedisKey::Emoji { id }))) == (RedisKey::Emoji { id }),
{
    lemma_prefix_colon_free(RedisKey::Emoji { id });
    lemma_segments_name_id(prefix(RedisKey::Emoji { id }), id);
    lemma_dec_value(id);
}

proof fn lemma_text_of_emoji_meta(id: u64)
    ensures
        key_of_text(key_bytes((RedisKey::EmojiMeta { id }))) == (RedisKey::EmojiMeta { id }),
{
    lemma_prefix_colon_free(RedisKey::EmojiMeta { id });
    lemma_segments_name_id(prefix(RedisKey::EmojiMeta { id }), id);
    lemma_dec_value(id);
}

proof fn lemma_text_of_emojis()
    ensures
        key_of_text(key_bytes(RedisKey::Emojis)) == RedisKey::Emojis,
{
    lemma_prefix_colon_free(RedisKey::Emojis);
    lemma_segments_plain(prefix(RedisKey::Emojis));
}

proof fn lemma_text_of_guild(id: u64)
    ensures
        key_of_text(key_bytes((RedisKey::Guild { id }))) == (RedisKey::Guild { id }),
{
    lemma_prefix_colon_free(RedisKey::Guild { id });
    lemma_segments_name_id(prefix(RedisKey::Guild { id }), id);
    lemma_dec_value(id);
}

proof fn lemma_text_of_guild_channels(id: u64)
    ensures
        key_of_text(key_bytes((RedisKey::GuildChannels { id }))) == (RedisKey::GuildChannels { id }),
{
    lemma_prefix_colon_free(RedisKey::GuildChannels { id });
    lemma_segments_name_id(prefix(RedisKey::GuildChannels { id }), id);
    lemma_dec_value(id);
}

proof fn lemma_text_of_guild_emojis(id: u64)
    ensures
        key_of_text(key_bytes((RedisKey::GuildEmojis { id }))) == (RedisKey::GuildEmojis { id }),
{
    lemma_prefix_colon_free(RedisKey::GuildEmojis { id });
    lemma_segments_name_id(prefix(RedisKey::GuildEmojis { id }), id);
    lemma_dec_value(id);
}

proof fn lemma_text_of_guild_integrations(id: u64)
    ensures
        key_of_text(key_bytes((RedisKey::GuildIntegrations { id }))) == (RedisKey::GuildIntegrations { id }),
{
    lemma_prefix_colon_free(RedisKey::GuildIntegrations { id });
    lemma_segments_name_id(prefix(RedisKey::GuildIntegrations { id }), id);
    lemma_dec_value(id);
}

proof fn lemma_text_of_guild_members(id: u64)
    ensures
        key_of_text(key_bytes((RedisKey::GuildMembers { id }))) == (RedisKey::GuildMembers { id }),
{
    lemma_prefix_colon_free(RedisKey::GuildMembers { id });
    lemma_segments_name_id(prefix(RedisKey::GuildMembers { id }), id);
    lemma_dec_value(id);
}

proof fn lemma_text_of_guild_presences(id: u64)
    ensures
        key_of_text(key_bytes((RedisKey::GuildPresences { id }))) == (RedisKey::GuildPresences { id }),
{
    lemma_prefix_colon_free(RedisKey::GuildPresences { id });
    lemma_segments_name_id(prefix(RedisKey::GuildPresences { id }), id);
    lemma_dec_value(id);
}

proof fn lemma_text_of_guild_roles(id: u64)
    ensures
        key_of_text(key_bytes((RedisKey::GuildRoles { id }))) == (RedisKey::GuildRoles { id }),
{
    lemma_prefix_colon_free(RedisKey::GuildRoles { id });
    lemma_segments_name_id(prefix(RedisKey::GuildRoles { id }), id);
    lemma_dec_value(id);
}

proof fn lemma_text_of_guild_scheduled_events(id: u64)
    ensures
        key_of_text(key_bytes((RedisKey::GuildScheduledEvents { id }))) == (RedisKey::GuildScheduledEvents { id }),
{
    lemma_prefix_colon_free(RedisKey::GuildScheduledEvents { id });
    lemma_segments_name_id(prefix(RedisKey::GuildScheduledEvents { id }), id);
    lemma_dec_value(id);
}

proof fn lemma_text_of_guild_stage_instances(id: u64)
    ensures
        key_of_text(key_bytes((RedisKey::GuildStageInstances { id }))) == (RedisKey::GuildStageInstances { id }),
{
    lemma_prefix_colon_free(RedisKey::GuildStageInstances { id });
    lemma_segments_name_id(prefix(RedisKey::GuildStageInstances { id }), id);
    lemma_dec_value(id);
}

proof fn lemma_text_of_guild_stickers(id: u64)
    ensures
        key_of_text(key_bytes((RedisKey::GuildStickers { id }))) == (RedisKey::GuildStickers { id }),
{
    lemma_prefix_colon_free(RedisKey::GuildStickers { id });
    lemma_segments_name_id(prefix(RedisKey::GuildStickers { id }), id);
    lemma_dec_value(id);
}

proof fn lemma_text_of_guild_voice_states(id: u64)
    ensures
        key_of_text(key_bytes((RedisKey::GuildVoiceStates { id }))) == (RedisKey::GuildVoiceStates { id }),
{
    lemma_prefix_colon_free(RedisKey::GuildVoiceStates { id });
    lemma_segments_name_id(prefix(RedisKey::GuildVoiceStates { id }), id);
    lemma_dec_value(id);
}

proof fn lemma_text_of_guilds()
    ensures
        key_of_text(key_bytes(RedisKey::Guilds)) == RedisKey::Guilds,
{
    lemma_prefix_colon_free(RedisKey::Guilds);
    lemma_segments_plain(prefix(RedisKey::Guilds));
}

proof fn lemma_text_of_integration(guild: u64, id: u64)
    ensures
        key_of_text(key_bytes((RedisKey::Integration { guild, id }))) == (RedisKey::Integration { guild, id }),
{
    lemma_prefix_colon_free(RedisKey::Integration { guild, id });
    lemma_segments_name_guild_id(prefix(RedisKey::Integration { guild, id }), guild, id);
    lemma_dec_value(guild);
    lemma_dec_value(id);
}

proof fn lemma_text_of_member(guild: u64, user: u64)
    ensures
        key_of_text(key_bytes((RedisKey::Member { guild, user }))) == (RedisKey::Member { guild, user }),
{
    lemma_prefix_colon_free(RedisKey::Member { guild, user });
    lemma_segments_name_guild_id(prefix(RedisKey::Member { guild, user }), guild, user);
    lemma_dec_value(guild);
    lemma_dec_value(user);
}

proof fn lemma_text_of_message(id: u64)
    ensures
        key_of_text(key_bytes((RedisKey::Message { id }))) == (RedisKey::Message { id }),
{
    lemma_prefix_colon_free(RedisKey::Message { id });
    lemma_segments_name_id(prefix(RedisKey::Message { id }), id);
    lemma_dec_value(id);
}

proof fn lemma_text_of_message_meta(id: u64)
    ensures
        key_of_text(key_bytes((RedisKey::MessageMeta { id }))) == (RedisKey::MessageMeta { id }),
{
    lemma_prefix_colon_free(RedisKey::MessageMeta { id });
    lemma_segments_name_id(prefix(RedisKey::MessageMeta { id }), id);
    lemma_dec_value(id);
}

proof fn lemma_text_of_messages()
    ensures
        key_of_text(key_bytes(RedisKey::Messages)) == RedisKey::Messages,
{
    lemma_prefix_colon_free(RedisKey::Messages);
    lemma_segments_plain(prefix(RedisKey::Messages));
}

proof fn lemma_text_of_presence(guild: u64, user: u64)
    ensures
        key_of_text(key_bytes((RedisKey::Presence { guild, user }))) == (RedisKey::Presence { guild, user }),
{
    lemma_prefix_colon_free(RedisKey::Presence { guild, user });
    lemma_segments_name_guild_id(prefix(RedisKey::Presence { guild, user }), guild, user);
    lemma_dec_value(guild);
    lemma_dec_value(user);
}

proof fn lemma_text_of_role(id: u64)
    ensures
        key_of_text(key_bytes((RedisKey::Role { id }))) == (RedisKey::Role { id }),
{
    lemma_prefix_colon_free(RedisKey::Role { id });
    lemma_segments_name_id(prefix(RedisKey::Role { id }), id);
    lemma_dec_value(id);
}

proof fn lemma_text_of_role_meta(id: u64)
    ensures
        key_of_text(key_bytes((RedisKey::RoleMeta { id }))) == (RedisKey::RoleMeta { id }),
{
    lemma_prefix_colon_free(RedisKey::RoleMeta { id });
    lemma_segments_name_id(prefix(RedisKey::RoleMeta { id }), id);
    lemma_dec_value(id);
}

proof fn lemma_text_of_roles()
    ensures
        key_of_text(key_bytes(RedisKey::Roles)) == RedisKey::Roles,
{
    lemma_prefix_colon_free(RedisKey::Roles);
    lemma_segments_plain(prefix(RedisKey::Roles));
}

proof fn lemma_text_of_scheduled_event(id: u64)
    ensures
        key_of_text(key_bytes((RedisKey::ScheduledEvent { id }))) == (RedisKey::ScheduledEvent { id }),
{
    lemma_prefix_colon_free(RedisKey::ScheduledEvent { id });
    lemma_segments_name_id(prefix(RedisKey::ScheduledEvent { id }), id);
    lemma_dec_value(id);
}

proof fn lemma_text_of_scheduled_event_meta(id: u64)
    ensures
        key_of_text(key_bytes((RedisKey::ScheduledEventMeta { id }))) == (RedisKey::ScheduledEventMeta { id }),
{
    lemma_prefix_colon_free(RedisKey::ScheduledEventMeta { id });
    lemma_segments_name_id(prefix(RedisKey::ScheduledEventMeta { id }), id);
    lemma_dec_value(id);
}

proof fn lemma_text_of_scheduled_events()
    ensures
        key_of_text(key_bytes(RedisKey::ScheduledEvents)) == RedisKey::ScheduledEvents,
{
    lemma_prefix_colon_free(RedisKey::ScheduledEvents);
    lemma_segments_plain(prefix(RedisKey::ScheduledEvents));
}

proof fn lemma_text_of_sessions()
    ensures
        key_of_text(key_bytes(RedisKey::Sessions)) == RedisKey::Sessions,
{
    lemma_prefix_colon_free(RedisKey::Sessions);
    lemma_segments_plain(prefix(RedisKey::Sessions));
}

proof fn lemma_text_of_stage_instance(id: u64)
    ensures
        key_of_text(key_bytes((RedisKey::StageInstance { id }))) == (RedisKey::StageInstance { id }),
{
    lemma_prefix_colon_free(RedisKey::StageInstance { id });
    lemma_segments_name_id(prefix(RedisKey::StageInstance { id }), id);
    lemma_dec_value(id);
}

proof fn lemma_text_of_stage_instance_meta(id: u64)
    ensures
        key_of_text(key_bytes((RedisKey::StageInstanceMeta { id }))) == (RedisKey::StageInstanceMeta { id }),
{
    lemma_prefix_colon_free(RedisKey::StageInstanceMeta { id });
    lemma_segments_name_id(prefix(RedisKey::StageInstanceMeta { id }), id);
    lemma_dec_value(id);
}

proof fn lemma_text_of_stage_instances()
    ensures
        key_of_text(key_bytes(RedisKey::StageInstances)) == RedisKey::StageInstances,
{
    lemma_prefix_colon_free(RedisKey::StageInstances);
    lemma_segments_plain(prefix(RedisKey::StageInstances));
}

proof fn lemma_text_of_sticker(id: u64)
    ensures
        key_of_text(key_bytes((RedisKey::Sticker { id }))) == (RedisKey::Sticker { id }),
{
    lemma_prefix_colon_free(RedisKey::Sticker { id });
    lemma_segments_name_id(prefix(RedisKey::Sticker { id }), id);
    lemma_dec_value(id);
}

proof fn lemma_text_of_sticker_meta(id: u64)
    ensures
        key_of_text(key_bytes((RedisKey::StickerMeta { id }))) == (RedisKey::StickerMeta { id }),
{
    lemma_prefix_colon_free(RedisKey::StickerMeta { id });
    lemma_segments_name_id(prefix(RedisKey::StickerMeta { id }), id);
    lemma_dec_value(id);
}

proof fn lemma_text_of_stickers()
    ensures
        key_of_text(key_bytes(RedisKey::Stickers)) == RedisKey::Stickers,
{
    lemma_prefix_colon_free(RedisKey::Stickers);
    lemma_segments_plain(prefix(RedisKey::Stickers));
}

proof fn lemma_text_of_unavailable_guilds()
    ensures
        key_of_text(key_bytes(RedisKey::UnavailableGuilds)) == RedisKey::UnavailableGuilds,
{
    lemma_prefix_colon_free(RedisKey::UnavailableGuilds);
    lemma_segments_plain(prefix(RedisKey::UnavailableGuilds));
}

proof fn lemma_text_of_user(id: u64)
    ensures
        key_of_text(key_bytes((RedisKey::User { id }))) == (RedisKey::User { id }),
{
    lemma_prefix_colon_free(RedisKey::User { id });
    lemma_segments_name_id(prefix(RedisKey::User { id }), id);
    lemma_dec_value(id);
}

proof fn lemma_text_of_user_guilds(id: u64)
    ensures
        key_of_text(key_bytes((RedisKey::UserGuilds { id }))) == (RedisKey::UserGuilds { id }),
{
    lemma_prefix_colon_free(RedisKey::UserGuilds { id });
    lemma_segments_name_id(prefix(RedisKey::UserGuilds { id }), id);
    lemma_dec_value(id);
}

proof fn lemma_text_of_users()
    ensures
        key_of_text(key_bytes(RedisKey::Users)) == RedisKey::Users,
{
    lemma_prefix_colon_free(RedisKey::Users);
    lemma_segments_plain(prefix(RedisKey::Users));
}

proof fn lemma_text_of_voice_state(guild: u64, user: u64)
    ensures
        key_of_text(key_bytes((RedisKey::VoiceState { guild, user }))) == (RedisKey::VoiceState { guild, user }),
{
    lemma_prefix_colon_free(RedisKey::VoiceState { guild, user });
    lemma_segments_name_guild_id(prefix(RedisKey::VoiceState { guild, user }), guild, user);
    lemma_dec_value(guild);
    lemma_dec_value(user);
}

/// The text of every key reads back as that key.
pub proof fn lemma_key_of_text(key: RedisKey)
    ensures
        key_of_text(key_bytes(key)) == key,
{
    match key {
        RedisKey::Channel { id } => lemma_text_of_channel(id),
        RedisKey::ChannelMessages { channel } => lemma_text_of_channel_messages(channel),
        RedisKey::ChannelMeta { id } => lemma_text_of_channel_meta(id),
        RedisKey::Channels => lemma_text_of_channels(),
        RedisKey::CurrentUser => lemma_text_of_current_user(),
        RedisKey::Emoji { id } => lemma_text_of_emoji(id),
        RedisKey::EmojiMeta { id } => lemma_text_of_emoji_meta(id),
        RedisKey::Emojis => lemma_text_of_emojis(),
        RedisKey::Guild { id } => lemma_text_of_guild(id),
        RedisKey::GuildChannels { id } => lemma_text_of_guild_channels(id),
        RedisKey::GuildEmojis { id } => lemma_text_of_guild_emojis(id),
        RedisKey::GuildIntegrations { id } => lemma_text_of_guild_integrations(id),
        RedisKey::GuildMembers { id } => lemma_text_of_guild_members(id),
        RedisKey::GuildPresences { id } => lemma_text_of_guild_presences(id),
        RedisKey::GuildRoles { id } => lemma_text_of_guild_roles(id),
        RedisKey::GuildScheduledEvents { id } => lemma_text_of_guild_scheduled_events(id),
        RedisKey::GuildStageInstances { id } => lemma_text_of_guild_stage_instances(id),
        RedisKey::GuildStickers { id } => lemma_text_of_guild_stickers(id),
        RedisKey::GuildVoiceStates { id } => lemma_text_of_guild_voice_states(id),
        RedisKey::Guilds => lemma_text_of_guilds(),
        RedisKey::Integration { guild, id } => lemma_text_of_integration(guild, id),
        RedisKey::Member { guild, user } => lemma_text_of_member(guild, user),
        RedisKey::Message { id } => lemma_text_of_message(id),
        RedisKey::MessageMeta { id } => lemma_text_of_message_meta(id),
        RedisKey::Messages => lemma_text_of_messages(),
        RedisKey::Presence { guild, user } => lemma_text_of_presence(guild, user),
        RedisKey::Role { id } => lemma_text_of_role(id),
        RedisKey::RoleMeta { id } => lemma_text_of_role_meta(id),
        RedisKey::Roles => lemma_text_of_roles(),
        RedisKey::ScheduledEvent { id } => lemma_text_of_scheduled_event(id),
        RedisKey::ScheduledEventMeta { id } => lemma_text_of_scheduled_event_meta(id),
        RedisKey::ScheduledEvents => lemma_text_of_scheduled_events(),
        RedisKey::Sessions => lemma_text_of_sessions(),
        RedisKey::StageInstance { id } => lemma_text_of_stage_instance(id),
        RedisKey::StageInstanceMeta { id } => lemma_text_of_stage_instance_meta(id),
        RedisKey::StageInstances => lemma_text_of_stage_instances(),
        RedisKey::Sticker { id } => lemma_text_of_sticker(id),
        RedisKey::StickerMeta { id } => lemma_text_of_sticker_meta(id),
        RedisKey::Stickers => lemma_text_of_stickers(),
        RedisKey::UnavailableGuilds => lemma_text_of_unavailable_guilds(),
        RedisKey::User { id } => lemma_text_of_user(id),
        RedisKey::UserGuilds { id } => lemma_text_of_user_guilds(id),
        RedisKey::Users => lemma_text_of_users(),
        RedisKey::VoiceState { guild, user } => lemma_text_of_voice_state(guild, user),
    }
}

} // verus!
