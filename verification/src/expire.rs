//! Cleaning up after an entry expired: the sets that still name it, read from
//! its key and, for some kinds, from its bookkeeping record.
use vstd::prelude::*;

use crate::archive::{archived_u64, id_from_record, read_archived_id, read_back_id};
use crate::cache::common::{entry_key, meta_key, EntryKind};
use crate::cache::guild::{guild_list_key, GuildList};
use crate::cache::guild_delete::{
    estranged, estranged_of, extend_keys, id_keys, id_keys_of, lemma_user_guild_len, list_views,
    user_guild_cmds, IdKey,
};
use crate::error::ExpireError;
use crate::key::{key_bytes, RedisKey};
use crate::meta::MetaKey;
use crate::pipe::{cmd_del, cmd_scard, cmd_smembers, cmd_srem, cmd_zrem, key_texts, Pipe};

verus! {

/// The key of the bookkeeping record of an expired entry, for the kinds
/// that keep one.
pub open spec fn record_key(meta: MetaKey) -> Option<RedisKey> {
    match meta {
        MetaKey::Channel { channel } => Some(RedisKey::ChannelMeta { id: channel }),
        MetaKey::Emoji { emoji } => Some(RedisKey::EmojiMeta { id: emoji }),
        MetaKey::Message { msg } => Some(RedisKey::MessageMeta { id: msg }),
        MetaKey::Role { role } => Some(RedisKey::RoleMeta { id: role }),
        MetaKey::StageInstance { stage } => Some(RedisKey::StageInstanceMeta { id: stage }),
        MetaKey::Sticker { sticker } => Some(RedisKey::StickerMeta { id: sticker }),
        _ => None,
    }
}

/// Cleaning up after an entry whose record held `value`: the id out of the
/// set of its guild (or, for a message, of its channel), then out of the set
/// of all ids.
pub open spec fn expire_archived_cmds(meta: MetaKey, value: u64) -> Seq<Seq<Seq<u8>>> {
    match meta {
        MetaKey::Channel { channel } => (match id_from_record(value) {
            Some(g) => seq![cmd_srem(key_bytes(RedisKey::GuildChannels { id: g }), seq![channel])],
            None => Seq::empty(),
        }) + seq![cmd_srem(key_bytes(RedisKey::Channels), seq![channel])],
        MetaKey::Emoji { emoji } => seq![
            cmd_srem(key_bytes(RedisKey::GuildEmojis { id: value }), seq![emoji]),
            cmd_srem(key_bytes(RedisKey::Emojis), seq![emoji]),
        ],
        MetaKey::Message { msg } => seq![
            cmd_zrem(key_bytes(RedisKey::ChannelMessages { channel: value }), seq![msg]),
            cmd_srem(key_bytes(RedisKey::Messages), seq![msg]),
        ],
        MetaKey::Role { role } => seq![
            cmd_srem(key_bytes(RedisKey::GuildRoles { id: value }), seq![role]),
            cmd_srem(key_bytes(RedisKey::Roles), seq![role]),
        ],
        MetaKey::StageInstance { stage } => seq![
            cmd_srem(key_bytes(RedisKey::GuildStageInstances { id: value }), seq![stage]),
            cmd_srem(key_bytes(RedisKey::StageInstances), seq![stage]),
        ],
        MetaKey::Sticker { sticker } => seq![
            cmd_srem(key_bytes(RedisKey::GuildStickers { id: value }), seq![sticker]),
            cmd_srem(key_bytes(RedisKey::Stickers), seq![sticker]),
        ],
        _ => Seq::empty(),
    }
}

/// The replies left out of the response when the commands of
/// [`expire_archived_cmds`] start at position `at`: both for a message, the
/// last one for the other kinds.
pub open spec fn expire_archived_ignored(meta: MetaKey, value: u64, at: int) -> Set<int> {
    match meta {
        MetaKey::Message { .. } => set![at, at + 1],
        MetaKey::Channel { .. } | MetaKey::Emoji { .. } | MetaKey::Role { .. }
        | MetaKey::StageInstance { .. } | MetaKey::Sticker { .. } => set![
            at + expire_archived_cmds(meta, value).len() - 1,
        ],
        _ => Set::empty(),
    }
}

/// The positions from `from` up to `to`, `to` excluded.
pub open spec fn positions(from: int, to: int) -> Set<int> {
    Set::new(|i: int| from <= i < to)
}

/// Whether the expiry of `meta` is handled from its key alone.
pub open spec fn is_plain(meta: MetaKey) -> bool {
    meta is Integration || meta is Presence || meta is User || meta is VoiceState
}

/// Cleaning up after an entry that keeps no record: its id out of the set of
/// its guild; for a user, out of the users, and the set of its guilds.
pub open spec fn expire_plain_cmds(meta: MetaKey) -> Seq<Seq<Seq<u8>>> {
    match meta {
        MetaKey::Integration { guild, integration } => seq![
            cmd_srem(key_bytes(RedisKey::GuildIntegrations { id: guild }), seq![integration]),
        ],
        MetaKey::Presence { guild, user } => seq![
            cmd_srem(key_bytes(RedisKey::GuildPresences { id: guild }), seq![user]),
        ],
        MetaKey::User { user } => seq![
            cmd_srem(key_bytes(RedisKey::Users), seq![user]),
            cmd_del(seq![key_bytes(RedisKey::UserGuilds { id: user })]),
        ],
        MetaKey::VoiceState { guild, user } => seq![
            cmd_srem(key_bytes(RedisKey::GuildVoiceStates { id: guild }), seq![user]),
        ],
        _ => Seq::empty(),
    }
}

/// The sets of an expired guild, in the order they are read.
pub open spec fn expire_lists() -> Seq<GuildList> {
    seq![
        GuildList::Channels,
        GuildList::Emojis,
        GuildList::Integrations,
        GuildList::Members,
        GuildList::Presences,
        GuildList::Roles,
        GuildList::StageInstances,
        GuildList::Stickers,
        GuildList::VoiceStates,
    ]
}

/// Reading and deleting each set of `kinds` of `guild`.
pub open spec fn read_and_drop_cmds(kinds: Seq<GuildList>, guild: u64) -> Seq<Seq<Seq<u8>>>
    decreases kinds.len(),
{
    if kinds.len() == 0 {
        Seq::empty()
    } else {
        read_and_drop_cmds(kinds.drop_last(), guild) + seq![
            cmd_smembers(key_bytes(guild_list_key(kinds.last(), guild))),
            cmd_del(seq![key_bytes(guild_list_key(kinds.last(), guild))]),
        ]
    }
}

/// First step after a guild expired: its id out of the guilds, then each of
/// its sets read and deleted.
pub open spec fn guild_expire_start_cmds(guild: u64) -> Seq<Seq<Seq<u8>>> {
    seq![cmd_srem(key_bytes(RedisKey::Guilds), seq![guild])] + read_and_drop_cmds(
        expire_lists(),
        guild,
    )
}

/// The positions of the deletions of the sets, whose replies are left out:
/// the answer then holds the removal's count and each set's members.
pub open spec fn guild_expire_start_ignored() -> Set<int> {
    Set::new(|i: int| 2 <= i <= 18 && i % 2 == 0)
}

/// The `i`-th list of an answer, empty where the answer has none.
pub open spec fn list_or_empty(lists: Seq<Seq<u64>>, i: int) -> Seq<u64> {
    if 0 <= i < lists.len() {
        lists[i]
    } else {
        Seq::empty()
    }
}

/// Second step after a guild expired, given its sets in the order of
/// [`expire_lists`]: its channels and emojis out of the sets of all ids,
/// then, if it had members, the guild dropped from each member's guilds and
/// the count of guilds left asked for.
pub open spec fn guild_expire_members_cmds(guild: u64, lists: Seq<Seq<u64>>) -> Seq<Seq<Seq<u8>>> {
    seq![
        cmd_srem(key_bytes(RedisKey::Channels), list_or_empty(lists, 0)),
        cmd_srem(key_bytes(RedisKey::Emojis), list_or_empty(lists, 1)),
    ] + user_guild_cmds(guild, list_or_empty(lists, 3))
}

/// The positions whose replies are left out in the second step: the two
/// removals, and each drop of the guild, so that the answer holds the counts.
pub open spec fn guild_expire_members_ignored(members: nat) -> Set<int> {
    Set::new(|i: int| i == 0 || i == 1 || (2 <= i < 2 + 2 * members && i % 2 == 0))
}

/// The entry key then the record key of each id.
pub open spec fn entry_meta_keys(kind: EntryKind, ids: Seq<u64>) -> Seq<RedisKey>
    decreases ids.len(),
{
    if ids.len() == 0 {
        Seq::empty()
    } else {
        entry_meta_keys(kind, ids.drop_last()) + seq![
            entry_key(kind, ids.last()),
            meta_key(kind, ids.last()),
        ]
    }
}

/// Every key that the expiry of `guild` deletes, given its sets and the
/// counts of guilds its members' users have left.
pub open spec fn guild_expire_keys(guild: u64, lists: Seq<Seq<u64>>, counts: Seq<usize>) -> Seq<
    RedisKey,
> {
    let members = list_or_empty(lists, 3);
    entry_meta_keys(EntryKind::Channel, list_or_empty(lists, 0)) + entry_meta_keys(
        EntryKind::Emoji,
        list_or_empty(lists, 1),
    ) + id_keys(IdKey::Integration, guild, list_or_empty(lists, 2)) + (if members.len() > 0 {
        id_keys(IdKey::User, guild, estranged(members, counts)) + id_keys(
            IdKey::Member,
            guild,
            members,
        )
    } else {
        Seq::empty()
    }) + id_keys(IdKey::Presence, guild, list_or_empty(lists, 4)) + entry_meta_keys(
        EntryKind::Role,
        list_or_empty(lists, 5),
    ) + entry_meta_keys(EntryKind::StageInstance, list_or_empty(lists, 6)) + entry_meta_keys(
        EntryKind::Sticker,
        list_or_empty(lists, 7),
    ) + id_keys(IdKey::VoiceState, guild, list_or_empty(lists, 8))
}

/// Last step after a guild expired: the users that share no guild anymore
/// out of the users, its roles, stage instances and stickers out of the
/// sets of all ids, then one deletion of every key.
pub open spec fn guild_expire_finish_cmds(
    guild: u64,
    lists: Seq<Seq<u64>>,
    counts: Seq<usize>,
) -> Seq<Seq<Seq<u8>>> {
    let members = list_or_empty(lists, 3);
    (if members.len() > 0 {
        seq![cmd_srem(key_bytes(RedisKey::Users), estranged(members, counts))]
    } else {
        Seq::empty()
    }) + seq![
        cmd_srem(key_bytes(RedisKey::Roles), list_or_empty(lists, 5)),
        cmd_srem(key_bytes(RedisKey::StageInstances), list_or_empty(lists, 6)),
        cmd_srem(key_bytes(RedisKey::Stickers), list_or_empty(lists, 7)),
        cmd_del(key_texts(guild_expire_keys(guild, lists, counts))),
    ]
}

/// First step after a member expired: its user out of the guild's members,
/// the guild out of the user's guilds, and the count of guilds left asked
/// for.
pub open spec fn member_expire_start_cmds(guild: u64, user: u64) -> Seq<Seq<Seq<u8>>> {
    seq![
        cmd_srem(key_bytes(RedisKey::GuildMembers { id: guild }), seq![user]),
        cmd_srem(key_bytes(RedisKey::UserGuilds { id: user }), seq![guild]),
        cmd_scard(key_bytes(RedisKey::UserGuilds { id: user })),
    ]
}

/// Last step after a member expired: its user goes once it shares no guild
/// anymore.
pub open spec fn member_expire_finish_cmds(user: u64, count: usize) -> Seq<Seq<Seq<u8>>> {
    if count == 0 {
        seq![
            cmd_del(seq![key_bytes(RedisKey::User { id: user })]),
            cmd_srem(key_bytes(RedisKey::Users), seq![user]),
        ]
    } else {
        Seq::empty()
    }
}

impl MetaKey {
    /// The key of the bookkeeping record of the expired entry, for the kinds
    /// that keep one.
    pub fn record_key(&self) -> (res: Option<RedisKey>)
        ensures
            res == record_key(*self),
    {
        match *self {
            MetaKey::Channel { channel } => Some(RedisKey::ChannelMeta { id: channel }),
            MetaKey::Emoji { emoji } => Some(RedisKey::EmojiMeta { id: emoji }),
            MetaKey::Message { msg } => Some(RedisKey::MessageMeta { id: msg }),
            MetaKey::Role { role } => Some(RedisKey::RoleMeta { id: role }),
            MetaKey::StageInstance { stage } => Some(RedisKey::StageInstanceMeta { id: stage }),
            MetaKey::Sticker { sticker } => Some(RedisKey::StickerMeta { id: sticker }),
            _ => None,
        }
    }

    /// Whether the expiry is handled from the key alone.
    pub fn is_plain(&self) -> (res: bool)
        ensures
            res == is_plain(*self),
    {
        match *self {
            MetaKey::Integration { .. } | MetaKey::Presence { .. } | MetaKey::User { .. }
            | MetaKey::VoiceState { .. } => true,
            _ => false,
        }
    }
}

/// The `i`-th list of an answer, empty where the answer has none.
fn list_at(lists: &[Vec<u64>], i: usize) -> (res: Vec<u64>)
    ensures
        res@ == list_or_empty(list_views(lists@), i as int),
{
    if i < lists.len() {
        lists[i].clone()
    } else {
        Vec::new()
    }
}

/// The entry key then the record key of each id.
fn entry_meta_keys_of(kind: EntryKind, ids: &[u64]) -> (res: Vec<RedisKey>)
    ensures
        res@ == entry_meta_keys(kind, ids@),
{
    let mut keys: Vec<RedisKey> = Vec::new();
    let mut i: usize = 0;
    while i < ids.len()
        invariant
            i <= ids@.len(),
            keys@ == entry_meta_keys(kind, ids@.take(i as int)),
        decreases ids@.len() - i,
    {
        keys.push(kind.entry_key(ids[i]));
        keys.push(kind.meta_key(ids[i]));
        assert(ids@.take(i + 1).drop_last() =~= ids@.take(i as int));
        assert(keys@ =~= entry_meta_keys(kind, ids@.take(i + 1)));
        i = i + 1;
    }
    assert(ids@.take(i as int) =~= ids@);
    keys
}

impl Pipe {
    /// Cleans up after an entry whose bookkeeping record held `value`.
    pub fn expire_archived(&mut self, meta: MetaKey, value: u64)
        ensures
            final(self).cmds() == old(self).cmds() + expire_archived_cmds(meta, value),
            final(self).ignored() == old(self).ignored().union(
                expire_archived_ignored(meta, value, old(self).cmds().len() as int),
            ),
            final(self).settings() == old(self).settings(),
    {
        let ghost start = self.cmds();
        let ghost start_ignored = self.ignored();
        match meta {
            MetaKey::Channel { channel } => {
                if value != 0 {
                    self.srem_one(RedisKey::GuildChannels { id: value }, channel);
                }
                self.srem_one(RedisKey::Channels, channel);
                self.ignore();
            },
            MetaKey::Emoji { emoji } => {
                self.srem_one(RedisKey::GuildEmojis { id: value }, emoji);
                self.srem_one(RedisKey::Emojis, emoji);
                self.ignore();
            },
            MetaKey::Message { msg } => {
                let ids = [msg];
                self.zrem(RedisKey::ChannelMessages { channel: value }, &ids);
                assert(ids@ =~= seq![msg]);
                self.ignore();
                self.srem_one(RedisKey::Messages, msg);
                self.ignore();
            },
            MetaKey::Role { role } => {
                self.srem_one(RedisKey::GuildRoles { id: value }, role);
                self.srem_one(RedisKey::Roles, role);
                self.ignore();
            },
            MetaKey::StageInstance { stage } => {
                self.srem_one(RedisKey::GuildStageInstances { id: value }, stage);
                self.srem_one(RedisKey::StageInstances, stage);
                self.ignore();
            },
            MetaKey::Sticker { sticker } => {
                self.srem_one(RedisKey::GuildStickers { id: value }, sticker);
                self.srem_one(RedisKey::Stickers, sticker);
                self.ignore();
            },
            _ => {},
        }
        assert(self.cmds() =~= start + expire_archived_cmds(meta, value));
        assert(self.ignored() =~= start_ignored.union(
            expire_archived_ignored(meta, value, start.len() as int),
        ));
    }

    /// Cleans up after an entry with the bookkeeping record read back from
    /// the store, if there was one. A missing or empty record leaves nothing
    /// to do; a record that does not read back as an id is an error.
    pub fn expire_with_record(&mut self, meta: MetaKey, record: &Option<Vec<u8>>) -> (res: Result<
        (),
        ExpireError,
    >)
        ensures
            final(self).settings() == old(self).settings(),
            match *record {
                Some(bytes) => if bytes@.len() > 0 {
                    &&& match read_back_id(bytes@) {
                        Some(v) => res is Ok && final(self).cmds() == old(self).cmds()
                            + expire_archived_cmds(meta, v) && final(self).ignored() == old(
                            self,
                        ).ignored().union(
                            expire_archived_ignored(meta, v, old(self).cmds().len() as int),
                        ),
                        None => res == Err::<(), ExpireError>(ExpireError::Validation)
                            && final(self).cmds() == old(self).cmds() && final(self).ignored()
                            == old(self).ignored(),
                    }
                    &&& forall|v: u64|
                        bytes@ == archived_u64(v) ==> res is Ok && final(self).cmds() == old(
                            self,
                        ).cmds() + expire_archived_cmds(meta, v)
                } else {
                    res is Ok && final(self).cmds() == old(self).cmds() && final(self).ignored()
                        == old(self).ignored()
                },
                None => res is Ok && final(self).cmds() == old(self).cmds() && final(self).ignored()
                    == old(self).ignored(),
            },
    {
        match record {
            Some(bytes) => {
                if bytes.len() == 0 {
                    return Ok(());
                }
                match read_archived_id(bytes.as_slice()) {
                    Some(value) => {
                        self.expire_archived(meta, value);
                        Ok(())
                    },
                    None => Err(ExpireError::Validation),
                }
            },
            None => Ok(()),
        }
    }

    /// Cleans up after an entry that keeps no record.
    pub fn expire_plain(&mut self, meta: MetaKey)
        ensures
            final(self).cmds() == old(self).cmds() + expire_plain_cmds(meta),
            final(self).ignored() == old(self).ignored().union(
                if meta is User {
                    positions(old(self).cmds().len() as int, (old(self).cmds().len() + 2) as int)
                } else {
                    Set::empty()
                },
            ),
            final(self).settings() == old(self).settings(),
    {
        let ghost start = self.cmds();
        let ghost start_ignored = self.ignored();
        match meta {
            MetaKey::Integration { guild, integration } => {
                self.srem_one(RedisKey::GuildIntegrations { id: guild }, integration);
            },
            MetaKey::Presence { guild, user } => {
                self.srem_one(RedisKey::GuildPresences { id: guild }, user);
            },
            MetaKey::User { user } => {
                self.srem_one(RedisKey::Users, user);
                self.ignore();
                self.del_one(RedisKey::UserGuilds { id: user });
                self.ignore();
            },
            MetaKey::VoiceState { guild, user } => {
                self.srem_one(RedisKey::GuildVoiceStates { id: guild }, user);
            },
            _ => {},
        }
        assert(self.cmds() =~= start + expire_plain_cmds(meta));
        assert(self.ignored() =~= start_ignored.union(
            if meta is User {
                positions(start.len() as int, (start.len() + 2) as int)
            } else {
                Set::empty()
            },
        ));
    }

    /// First step after a guild expired: removes its id from the guilds, then
    /// reads and deletes each of its sets. The answer holds the removal's
    /// count and each set's members, in the order of [`expire_lists`].
    pub fn guild_expire_start(&mut self, guild: u64)
        requires
            old(self).cmds().len() == 0,
            old(self).ignored() == Set::<int>::empty(),
        ensures
            final(self).cmds() == guild_expire_start_cmds(guild),
            final(self).ignored() == guild_expire_start_ignored(),
            final(self).settings() == old(self).settings(),
    {
        self.srem_one(RedisKey::Guilds, guild);
        let kinds: [GuildList; 9] = [
            GuildList::Channels,
            GuildList::Emojis,
            GuildList::Integrations,
            GuildList::Members,
            GuildList::Presences,
            GuildList::Roles,
            GuildList::StageInstances,
            GuildList::Stickers,
            GuildList::VoiceStates,
        ];
        assert(kinds@ =~= expire_lists());
        let mut i: usize = 0;
        while i < 9
            invariant
                i <= 9,
                kinds@ == expire_lists(),
                self.cmds() == seq![cmd_srem(key_bytes(RedisKey::Guilds), seq![guild])]
                    + read_and_drop_cmds(kinds@.take(i as int), guild),
                self.ignored() == Set::new(|x: int| 2 <= x <= 2 * i && x % 2 == 0),
                self.settings() == old(self).settings(),
            decreases 9 - i,
        {
            let key = kinds[i].key(guild);
            proof {
                lemma_read_and_drop_len(kinds@.take(i as int), guild);
            }
            self.smembers(key);
            self.del_one(key);
            self.ignore();
            assert(kinds@.take(i + 1).drop_last() =~= kinds@.take(i as int));
            assert(self.ignored() =~= Set::new(|x: int| 2 <= x <= 2 * (i + 1) && x % 2 == 0));
            i = i + 1;
        }
        assert(kinds@.take(9) =~= kinds@);
    }

    /// Second step after a guild expired, given its sets as the store answered
    /// them: removes its channels and emojis from the sets of all ids, then,
    /// if it had members, drops the guild from each member's guilds and asks
    /// how many remain. Returns whether those counts must be fetched before
    /// [`Pipe::guild_expire_finish`]; the answer then holds only them.
    pub fn guild_expire_members(&mut self, guild: u64, lists: &[Vec<u64>]) -> (res: bool)
        requires
            old(self).cmds().len() == 0,
            old(self).ignored() == Set::<int>::empty(),
        ensures
            final(self).cmds() == guild_expire_members_cmds(guild, list_views(lists@)),
            final(self).ignored() == guild_expire_members_ignored(
                list_or_empty(list_views(lists@), 3).len(),
            ),
            final(self).settings() == old(self).settings(),
            res == (list_or_empty(list_views(lists@), 3).len() > 0),
    {
        let channels = list_at(lists, 0);
        let emojis = list_at(lists, 1);
        let members = list_at(lists, 3);
        self.srem(RedisKey::Channels, channels.as_slice());
        self.ignore();
        self.srem(RedisKey::Emojis, emojis.as_slice());
        self.ignore();
        let ghost head = self.cmds();
        let mut i: usize = 0;
        while i < members.len()
            invariant
                i <= members@.len(),
                head.len() == 2,
                self.cmds() == head + user_guild_cmds(guild, members@.take(i as int)),
                self.ignored() == Set::new(
                    |x: int| x == 0 || x == 1 || (2 <= x < 2 + 2 * i && x % 2 == 0),
                ),
                self.settings() == old(self).settings(),
            decreases members@.len() - i,
        {
            let user = members[i];
            proof {
                lemma_user_guild_len(guild, members@.take(i as int));
            }
            self.srem_one(RedisKey::UserGuilds { id: user }, guild);
            self.ignore();
            self.scard(RedisKey::UserGuilds { id: user });
            assert(members@.take(i + 1).drop_last() =~= members@.take(i as int));
            assert(self.cmds() =~= head + user_guild_cmds(guild, members@.take(i + 1)));
            assert(self.ignored() =~= Set::new(
                |x: int| x == 0 || x == 1 || (2 <= x < 2 + 2 * (i + 1) && x % 2 == 0),
            ));
            i = i + 1;
        }
        assert(members@.take(i as int) =~= members@);
        assert(self.cmds() =~= guild_expire_members_cmds(guild, list_views(lists@)));
        assert(self.ignored() =~= guild_expire_members_ignored(members@.len()));
        members.len() > 0
    }

    /// Last step after a guild expired, given its sets and the counts of
    /// guilds its members' users have left: removes the users that share no
    /// guild anymore from the users, its roles, stage instances and stickers
    /// from the sets of all ids, then deletes every key at once.
    pub fn guild_expire_finish(&mut self, guild: u64, lists: &[Vec<u64>], counts: &[usize])
        ensures
            final(self).cmds() == old(self).cmds() + guild_expire_finish_cmds(
                guild,
                list_views(lists@),
                counts@,
            ),
            final(self).ignored() == old(self).ignored().union(
                positions(old(self).cmds().len() as int, final(self).cmds().len() as int),
            ),
            final(self).settings() == old(self).settings(),
    {
        let ghost start = self.cmds();
        let ghost start_ignored = self.ignored();
        let ghost views = list_views(lists@);
        let members = list_at(lists, 3);
        let mut keys = entry_meta_keys_of(EntryKind::Channel, list_at(lists, 0).as_slice());
        extend_keys(&mut keys, entry_meta_keys_of(EntryKind::Emoji, list_at(lists, 1).as_slice()));
        extend_keys(&mut keys, id_keys_of(IdKey::Integration, guild, list_at(lists, 2).as_slice()));
        let ghost k3 = keys@;
        if members.len() > 0 {
            let gone = estranged_of(members.as_slice(), counts);
            extend_keys(&mut keys, id_keys_of(IdKey::User, guild, gone.as_slice()));
            self.srem(RedisKey::Users, gone.as_slice());
            self.ignore();
            assert(self.ignored() =~= start_ignored.union(positions(start.len() as int, self.cmds().len() as int)));
            extend_keys(&mut keys, id_keys_of(IdKey::Member, guild, members.as_slice()));
        }
        let ghost k4 = keys@;
        let ghost c1 = self.cmds();
        extend_keys(&mut keys, id_keys_of(IdKey::Presence, guild, list_at(lists, 4).as_slice()));
        let roles = list_at(lists, 5);
        self.srem(RedisKey::Roles, roles.as_slice());
        self.ignore();
        assert(self.ignored() =~= start_ignored.union(positions(start.len() as int, self.cmds().len() as int)));
        extend_keys(&mut keys, entry_meta_keys_of(EntryKind::Role, roles.as_slice()));
        let stages = list_at(lists, 6);
        self.srem(RedisKey::StageInstances, stages.as_slice());
        self.ignore();
        assert(self.ignored() =~= start_ignored.union(positions(start.len() as int, self.cmds().len() as int)));
        extend_keys(&mut keys, entry_meta_keys_of(EntryKind::StageInstance, stages.as_slice()));
        let stickers = list_at(lists, 7);
        self.srem(RedisKey::Stickers, stickers.as_slice());
        self.ignore();
        assert(self.ignored() =~= start_ignored.union(positions(start.len() as int, self.cmds().len() as int)));
        extend_keys(&mut keys, entry_meta_keys_of(EntryKind::Sticker, stickers.as_slice()));
        extend_keys(&mut keys, id_keys_of(IdKey::VoiceState, guild, list_at(lists, 8).as_slice()));
        assert(keys@ =~= guild_expire_keys(guild, views, counts@));
        self.del(keys.as_slice());
        self.ignore();
        assert(self.ignored() =~= start_ignored.union(positions(start.len() as int, self.cmds().len() as int)));
        assert(self.cmds() =~= start + guild_expire_finish_cmds(guild, views, counts@));
    }

    /// First step after a member expired: removes its user from the guild's
    /// members and the guild from the user's guilds, and asks how many guilds
    /// remain; the answer holds only that count.
    pub fn member_expire_start(&mut self, guild: u64, user: u64)
        requires
            old(self).cmds().len() == 0,
            old(self).ignored() == Set::<int>::empty(),
        ensures
            final(self).cmds() == member_expire_start_cmds(guild, user),
            final(self).ignored() == set![0int, 1int],
            final(self).settings() == old(self).settings(),
    {
        self.srem_one(RedisKey::GuildMembers { id: guild }, user);
        self.ignore();
        self.srem_one(RedisKey::UserGuilds { id: user }, guild);
        self.ignore();
        self.scard(RedisKey::UserGuilds { id: user });
        assert(self.cmds() =~= member_expire_start_cmds(guild, user));
        assert(self.ignored() =~= set![0int, 1int]);
    }

    /// Last step after a member expired, given the count of guilds its user
    /// has left: the user goes once it shares no guild anymore.
    pub fn member_expire_finish(&mut self, user: u64, count: usize)
        ensures
            final(self).cmds() == old(self).cmds() + member_expire_finish_cmds(user, count),
            final(self).ignored() == old(self).ignored(),
            final(self).settings() == old(self).settings(),
    {
        let ghost start = self.cmds();
        if count == 0 {
            self.del_one(RedisKey::User { id: user });
            self.srem_one(RedisKey::Users, user);
        }
        assert(self.cmds() =~= start + member_expire_finish_cmds(user, count));
    }
}

/// Reading and deleting sets takes two commands per set.
proof fn lemma_read_and_drop_len(kinds: Seq<GuildList>, guild: u64)
    ensures
        read_and_drop_cmds(kinds, guild).len() == 2 * kinds.len(),
    decreases kinds.len(),
{
    if kinds.len() > 0 {
        lemma_read_and_drop_len(kinds.drop_last(), guild);
    }
}

} // verus!
