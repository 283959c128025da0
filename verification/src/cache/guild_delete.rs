//! Removing one guild once its sets were read: the users that share no other
//! guild, every entry the guild held, and the sets themselves.
use vstd::prelude::*;

use crate::cache::common::{all_ids_key, entry_key, kind_settings, meta_key, EntryKind};
use crate::cache::guild::{guild_list_key, guild_lists, guild_lists_of, list_wanted, GuildList};
use crate::config::CacheSettings;
use crate::error::CacheError;
use crate::key::{key_bytes, RedisKey};
use crate::pipe::{cmd_del, cmd_scard, cmd_srem, key_texts, Pipe};

verus! {

/// The shapes of the keys built from the ids a set holds.
#[derive(Clone, Copy, Debug, PartialEq, Eq, Structural)]
pub enum IdKey {
    Guild,
    Message,
    User,
    Member,
    Integration,
    Presence,
    VoiceState,
    Entry(EntryKind),
    Meta(EntryKind),
}

/// The key of shape `shape` for `id` in `guild`.
pub open spec fn id_key(shape: IdKey, guild: u64, id: u64) -> RedisKey {
    match shape {
        IdKey::Guild => RedisKey::Guild { id },
        IdKey::Message => RedisKey::Message { id },
        IdKey::User => RedisKey::User { id },
        IdKey::Member => RedisKey::Member { guild, user: id },
        IdKey::Integration => RedisKey::Integration { guild, id },
        IdKey::Presence => RedisKey::Presence { guild, user: id },
        IdKey::VoiceState => RedisKey::VoiceState { guild, user: id },
        IdKey::Entry(kind) => entry_key(kind, id),
        IdKey::Meta(kind) => meta_key(kind, id),
    }
}

/// The keys of shape `shape` for each of `ids` in `guild`.
pub open spec fn id_keys(shape: IdKey, guild: u64, ids: Seq<u64>) -> Seq<RedisKey> {
    ids.map_values(|id: u64| id_key(shape, guild, id))
}

/// The users among the first `n` whose count of guilds is zero.
pub open spec fn estranged_upto(users: Seq<u64>, counts: Seq<usize>, n: int) -> Seq<u64>
    decreases n,
{
    if n <= 0 {
        Seq::empty()
    } else {
        estranged_upto(users, counts, n - 1) + (if counts[n - 1] == 0 {
            seq![users[n - 1]]
        } else {
            Seq::empty()
        })
    }
}

/// The users that share no guild anymore: `counts` holds, in the order of
/// `users`, how many guilds each has left; users without a count are kept.
pub open spec fn estranged(users: Seq<u64>, counts: Seq<usize>) -> Seq<u64> {
    estranged_upto(
        users,
        counts,
        if users.len() <= counts.len() {
            users.len() as int
        } else {
            counts.len() as int
        },
    )
}

/// The kind of entry whose ids the set `k` holds, for the sets of entries
/// stored under their own id.
pub open spec fn list_entry_kind(k: GuildList) -> EntryKind {
    match k {
        GuildList::Emojis => EntryKind::Emoji,
        GuildList::Roles => EntryKind::Role,
        GuildList::StageInstances => EntryKind::StageInstance,
        GuildList::Stickers => EntryKind::Sticker,
        _ => EntryKind::Channel,
    }
}

/// Whether the set `k` holds the ids of entries stored under their own id.
pub open spec fn is_keyed_list(k: GuildList) -> bool {
    match k {
        GuildList::Channels | GuildList::Emojis | GuildList::Roles | GuildList::StageInstances
        | GuildList::Stickers => true,
        _ => false,
    }
}

/// The shape of the keys of the entries that the set `k` of a guild points
/// to, for the sets of entries stored per guild.
pub open spec fn list_pair_shape(k: GuildList) -> IdKey {
    match k {
        GuildList::Integrations => IdKey::Integration,
        GuildList::Presences => IdKey::Presence,
        GuildList::VoiceStates => IdKey::VoiceState,
        _ => IdKey::Member,
    }
}

/// Removing `ids` from the set of all ids of the set `k`'s kind; for the
/// members, removing the users that share no guild anymore from the users.
pub open spec fn list_srems(s: CacheSettings, k: GuildList, ids: Seq<u64>, counts: Seq<usize>) -> Seq<
    Seq<Seq<u8>>,
> {
    if k == GuildList::Members {
        if s.user.wanted {
            seq![cmd_srem(key_bytes(RedisKey::Users), estranged(ids, counts))]
        } else {
            Seq::empty()
        }
    } else if is_keyed_list(k) {
        seq![cmd_srem(key_bytes(all_ids_key(list_entry_kind(k))), ids)]
    } else {
        Seq::empty()
    }
}

/// The keys to delete for the set `k` of `guild` holding `ids`.
pub open spec fn list_keys(
    s: CacheSettings,
    guild: u64,
    k: GuildList,
    ids: Seq<u64>,
    counts: Seq<usize>,
) -> Seq<RedisKey> {
    if k == GuildList::Members {
        (if s.user.wanted {
            id_keys(IdKey::User, guild, estranged(ids, counts))
        } else {
            Seq::empty()
        }) + (if s.member.wanted {
            seq![RedisKey::GuildMembers { id: guild }] + id_keys(IdKey::Member, guild, ids)
        } else {
            Seq::empty()
        })
    } else if is_keyed_list(k) {
        let e = list_entry_kind(k);
        seq![guild_list_key(k, guild)] + (if kind_settings(s, e).expires() {
            id_keys(IdKey::Meta(e), guild, ids)
        } else {
            Seq::empty()
        }) + id_keys(IdKey::Entry(e), guild, ids)
    } else {
        seq![guild_list_key(k, guild)] + id_keys(list_pair_shape(k), guild, ids)
    }
}

/// The removals from the sets of all ids for the sets `kinds`, the `i`-th
/// of which holds `lists[i]`.
pub open spec fn finish_srems(
    s: CacheSettings,
    kinds: Seq<GuildList>,
    lists: Seq<Seq<u64>>,
    counts: Seq<usize>,
) -> Seq<Seq<Seq<u8>>>
    decreases kinds.len(),
{
    if kinds.len() == 0 {
        Seq::empty()
    } else {
        finish_srems(s, kinds.drop_last(), lists, counts) + list_srems(
            s,
            kinds.last(),
            lists[kinds.len() - 1],
            counts,
        )
    }
}

/// The keys to delete for the sets `kinds` of `guild`, the `i`-th of which
/// holds `lists[i]`.
pub open spec fn finish_keys(
    s: CacheSettings,
    guild: u64,
    kinds: Seq<GuildList>,
    lists: Seq<Seq<u64>>,
    counts: Seq<usize>,
) -> Seq<RedisKey>
    decreases kinds.len(),
{
    if kinds.len() == 0 {
        Seq::empty()
    } else {
        finish_keys(s, guild, kinds.drop_last(), lists, counts) + list_keys(
            s,
            guild,
            kinds.last(),
            lists[kinds.len() - 1],
            counts,
        )
    }
}

/// Every key that removing `guild` deletes, given the members of its sets
/// and the counts of guilds its users have left.
pub open spec fn delete_guild_keys(
    s: CacheSettings,
    guild: u64,
    lists: Seq<Seq<u64>>,
    counts: Seq<usize>,
) -> Seq<RedisKey> {
    finish_keys(s, guild, guild_lists(s), lists, counts) + (if s.guild.wanted {
        seq![RedisKey::Guild { id: guild }]
    } else {
        Seq::empty()
    })
}

/// Last step of removing `guild`: the removals from the sets of all ids,
/// the guild's id out of the guilds, then one deletion of every key.
pub open spec fn delete_guild_finish_cmds(
    s: CacheSettings,
    guild: u64,
    lists: Seq<Seq<u64>>,
    counts: Seq<usize>,
) -> Seq<Seq<Seq<u8>>> {
    let keys = delete_guild_keys(s, guild, lists, counts);
    finish_srems(s, guild_lists(s), lists, counts) + (if s.guild.wanted {
        seq![cmd_srem(key_bytes(RedisKey::Guilds), seq![guild])]
    } else {
        Seq::empty()
    }) + (if keys.len() > 0 {
        seq![cmd_del(key_texts(keys))]
    } else {
        Seq::empty()
    })
}

/// Dropping `guild` from the guilds of each user and asking how many remain.
pub open spec fn user_guild_cmds(guild: u64, users: Seq<u64>) -> Seq<Seq<Seq<u8>>>
    decreases users.len(),
{
    if users.len() == 0 {
        Seq::empty()
    } else {
        user_guild_cmds(guild, users.drop_last()) + seq![
            cmd_srem(key_bytes(RedisKey::UserGuilds { id: users.last() }), seq![guild]),
            cmd_scard(key_bytes(RedisKey::UserGuilds { id: users.last() })),
        ]
    }
}

/// The positions of the drops among `n` pairs of commands starting at
/// `start`: every other command.
pub open spec fn drop_positions(start: int, n: int) -> Set<int> {
    Set::new(|x: int| start <= x < start + 2 * n && (x - start) % 2 == 0)
}

/// Dropping a guild from the guilds of `users` takes two commands per user.
pub proof fn lemma_user_guild_len(guild: u64, users: Seq<u64>)
    ensures
        user_guild_cmds(guild, users).len() == 2 * users.len(),
    decreases users.len(),
{
    if users.len() > 0 {
        lemma_user_guild_len(guild, users.drop_last());
    }
}

/// The contents of a list of id lists.
pub open spec fn list_views(lists: Seq<Vec<u64>>) -> Seq<Seq<u64>> {
    lists.map_values(|v: Vec<u64>| v@)
}

/// What the second step of removing a guild answers: whether the counts of
/// guilds of its users must be fetched, or that the store answered with too
/// few lists.
pub open spec fn delete_guild_users_result(s: CacheSettings, lists_len: nat) -> Result<
    bool,
    CacheError,
> {
    if !list_wanted(s, GuildList::Members) {
        Ok(false)
    } else if lists_len == 0 {
        Err(CacheError::InvalidResponse)
    } else {
        Ok(s.user.wanted)
    }
}

/// The keys of shape `shape` for each of `ids` in `guild`.
pub fn id_keys_of(shape: IdKey, guild: u64, ids: &[u64]) -> (res: Vec<RedisKey>)
    ensures
        res@ == id_keys(shape, guild, ids@),
{
    let mut keys: Vec<RedisKey> = Vec::new();
    let mut i: usize = 0;
    while i < ids.len()
        invariant
            i <= ids@.len(),
            keys@ == id_keys(shape, guild, ids@.take(i as int)),
        decreases ids@.len() - i,
    {
        let id = ids[i];
        let key = match shape {
            IdKey::Guild => RedisKey::Guild { id },
            IdKey::Message => RedisKey::Message { id },
            IdKey::User => RedisKey::User { id },
            IdKey::Member => RedisKey::Member { guild, user: id },
            IdKey::Integration => RedisKey::Integration { guild, id },
            IdKey::Presence => RedisKey::Presence { guild, user: id },
            IdKey::VoiceState => RedisKey::VoiceState { guild, user: id },
            IdKey::Entry(kind) => kind.entry_key(id),
            IdKey::Meta(kind) => kind.meta_key(id),
        };
        keys.push(key);
        assert(ids@.take(i + 1) =~= ids@.take(i as int).push(id));
        assert(keys@ =~= id_keys(shape, guild, ids@.take(i + 1)));
        i = i + 1;
    }
    assert(ids@.take(i as int) =~= ids@);
    keys
}

/// The users that share no guild anymore, in order.
pub fn estranged_of(users: &[u64], counts: &[usize]) -> (res: Vec<u64>)
    ensures
        res@ == estranged(users@, counts@),
{
    let n: usize = if users.len() <= counts.len() {
        users.len()
    } else {
        counts.len()
    };
    let mut out: Vec<u64> = Vec::new();
    let mut i: usize = 0;
    while i < n
        invariant
            i <= n,
            n <= users@.len(),
            n <= counts@.len(),
            out@ == estranged_upto(users@, counts@, i as int),
        decreases n - i,
    {
        if counts[i] == 0 {
            out.push(users[i]);
        }
        assert(out@ =~= estranged_upto(users@, counts@, i + 1));
        i = i + 1;
    }
    out
}

/// The kind of entry whose ids the set `k` holds.
pub fn entry_kind_of(k: GuildList) -> (res: EntryKind)
    ensures
        res == list_entry_kind(k),
{
    match k {
        GuildList::Emojis => EntryKind::Emoji,
        GuildList::Roles => EntryKind::Role,
        GuildList::StageInstances => EntryKind::StageInstance,
        GuildList::Stickers => EntryKind::Sticker,
        _ => EntryKind::Channel,
    }
}

/// Whether the set `k` holds the ids of entries stored under their own id.
pub fn keyed_list(k: GuildList) -> (res: bool)
    ensures
        res == is_keyed_list(k),
{
    match k {
        GuildList::Channels | GuildList::Emojis | GuildList::Roles | GuildList::StageInstances
        | GuildList::Stickers => true,
        _ => false,
    }
}

/// The shape of the keys that the set `k` of a guild points to.
pub fn pair_shape_of(k: GuildList) -> (res: IdKey)
    ensures
        res == list_pair_shape(k),
{
    match k {
        GuildList::Integrations => IdKey::Integration,
        GuildList::Presences => IdKey::Presence,
        GuildList::VoiceStates => IdKey::VoiceState,
        _ => IdKey::Member,
    }
}

/// Appends `more` to `keys`.
pub fn extend_keys(keys: &mut Vec<RedisKey>, more: Vec<RedisKey>)
    ensures
        final(keys)@ == old(keys)@ + more@,
{
    let mut more = more;
    keys.append(&mut more);
}

impl Pipe {
    /// Handles the set `k` of `guild` holding `ids`: queues its removals and
    /// appends the keys to delete.
    fn handle_list(
        &mut self,
        guild: u64,
        k: GuildList,
        ids: &[u64],
        counts: &[usize],
        keys: &mut Vec<RedisKey>,
    )
        ensures
            final(self).cmds() == old(self).cmds() + list_srems(
                old(self).settings(),
                k,
                ids@,
                counts@,
            ),
            final(self).settings() == old(self).settings(),
            final(keys)@ == old(keys)@ + list_keys(old(self).settings(), guild, k, ids@, counts@),
            old(self).ignores_only_expires() ==> final(self).ignores_only_expires(),
    {
        let ghost start = self.cmds();
        let s = *self.settings_ref();
        if k == GuildList::Members {
            if s.user.wanted {
                let gone = estranged_of(ids, counts);
                self.srem(RedisKey::Users, gone.as_slice());
                extend_keys(keys, id_keys_of(IdKey::User, guild, gone.as_slice()));
            }
            let ghost mid = keys@;
            if s.member.wanted {
                keys.push(RedisKey::GuildMembers { id: guild });
                extend_keys(keys, id_keys_of(IdKey::Member, guild, ids));
            }
            assert(keys@ =~= old(keys)@ + list_keys(s, guild, k, ids@, counts@));
            assert(self.cmds() =~= start + list_srems(s, k, ids@, counts@));
        } else if keyed_list(k) {
            let e = entry_kind_of(k);
            self.srem(e.all_ids_key(), ids);
            keys.push(k.key(guild));
            let ghost mid = keys@;
            if settings_expire(&s, e) {
                extend_keys(keys, id_keys_of(IdKey::Meta(e), guild, ids));
            }
            let ghost mid2 = keys@;
            extend_keys(keys, id_keys_of(IdKey::Entry(e), guild, ids));
            assert(keys@ =~= old(keys)@ + list_keys(s, guild, k, ids@, counts@));
            assert(self.cmds() =~= start + list_srems(s, k, ids@, counts@));
        } else {
            keys.push(k.key(guild));
            extend_keys(keys, id_keys_of(pair_shape_of(k), guild, ids));
            assert(keys@ =~= old(keys)@ + list_keys(s, guild, k, ids@, counts@));
            assert(self.cmds() =~= start + list_srems(s, k, ids@, counts@));
        }
    }

    /// Second step of removing `guild`, with the members of its sets as the
    /// store answered them: drops the guild from the guilds of each of its
    /// users and asks how many remain. Returns whether those counts must be
    /// fetched before [`Pipe::delete_guild_finish`]; fails if the store
    /// answered with no list while the members were asked for.
    pub fn delete_guild_users(&mut self, guild: u64, lists: &[Vec<u64>]) -> (res: Result<
        bool,
        CacheError,
    >)
        ensures
            res == delete_guild_users_result(old(self).settings(), lists@.len()),
            final(self).cmds() == old(self).cmds() + (if res == Ok::<bool, CacheError>(true) {
                user_guild_cmds(guild, lists@[0]@)
            } else {
                Seq::empty()
            }),
            final(self).ignored() == old(self).ignored().union(
                drop_positions(
                    old(self).cmds().len() as int,
                    (final(self).cmds().len() - old(self).cmds().len()) / 2,
                ),
            ),
            final(self).settings() == old(self).settings(),
    {
        let ghost start = self.cmds();
        proof {
            assert(self.ignored() =~= self.ignored().union(drop_positions(start.len() as int, 0)));
        }
        let s = *self.settings_ref();
        if !(s.member.wanted || s.user.wanted) {
            assert(self.cmds() =~= start + Seq::<Seq<Seq<u8>>>::empty());
            return Ok(false);
        }
        if lists.len() == 0 {
            assert(self.cmds() =~= start + Seq::<Seq<Seq<u8>>>::empty());
            return Err(CacheError::InvalidResponse);
        }
        if !s.user.wanted {
            assert(self.cmds() =~= start + Seq::<Seq<Seq<u8>>>::empty());
            return Ok(false);
        }
        self.drop_guild_from_users(guild, lists[0].as_slice());
        proof {
            lemma_user_guild_len(guild, lists@[0]@);
        }
        Ok(true)
    }

    /// Drops `guild` from the guilds of each user and asks how many remain;
    /// the replies to the drops are left out, so that the answer holds the
    /// counts in the order of `users`.
    pub fn drop_guild_from_users(&mut self, guild: u64, users: &[u64])
        ensures
            final(self).cmds() == old(self).cmds() + user_guild_cmds(guild, users@),
            final(self).ignored() == old(self).ignored().union(
                drop_positions(old(self).cmds().len() as int, users@.len() as int),
            ),
            final(self).settings() == old(self).settings(),
    {
        let ghost start = self.cmds();
        let ghost start_ignored = self.ignored();
        let mut i: usize = 0;
        while i < users.len()
            invariant
                i <= users@.len(),
                self.cmds() == start + user_guild_cmds(guild, users@.take(i as int)),
                self.ignored() == start_ignored.union(drop_positions(start.len() as int, i as int)),
                self.settings() == old(self).settings(),
            decreases users@.len() - i,
        {
            let user = users[i];
            proof {
                lemma_user_guild_len(guild, users@.take(i as int));
            }
            self.srem_one(RedisKey::UserGuilds { id: user }, guild);
            self.ignore();
            assert(self.ignored() =~= start_ignored.union(drop_positions(start.len() as int, i + 1)));
            self.scard(RedisKey::UserGuilds { id: user });
            assert(users@.take(i + 1).drop_last() =~= users@.take(i as int));
            assert(self.cmds() =~= start + user_guild_cmds(guild, users@.take(i + 1)));
            i = i + 1;
        }
        assert(users@.take(i as int) =~= users@);
    }

    /// Last step of removing `guild`, with the members of its sets as the
    /// store answered them and the counts of guilds its users have left:
    /// queues the removals from the sets of all ids and the guild's id out
    /// of the guilds, then deletes every key at once. Fails, queuing
    /// nothing, if the store answered with fewer lists than sets were read.
    pub fn delete_guild_finish(
        &mut self,
        guild: u64,
        lists: &[Vec<u64>],
        counts: &[usize],
    ) -> (res: Result<(), CacheError>)
        ensures
            res is Err <==> lists@.len() < guild_lists(old(self).settings()).len(),
            res is Err ==> res == Err::<(), CacheError>(CacheError::InvalidResponse),
            final(self).cmds() == old(self).cmds() + (if res is Ok {
                delete_guild_finish_cmds(old(self).settings(), guild, list_views(lists@), counts@)
            } else {
                Seq::empty()
            }),
            final(self).settings() == old(self).settings(),
            old(self).ignores_only_expires() ==> final(self).ignores_only_expires(),
    {
        let ghost start = self.cmds();
        let s = *self.settings_ref();
        let kinds = guild_lists_of(&s);
        if lists.len() < kinds.len() {
            assert(self.cmds() =~= start + Seq::<Seq<Seq<u8>>>::empty());
            return Err(CacheError::InvalidResponse);
        }
        let ghost views = list_views(lists@);
        let mut keys: Vec<RedisKey> = Vec::new();
        let mut i: usize = 0;
        while i < kinds.len()
            invariant
                old(self).ignores_only_expires() ==> self.ignores_only_expires(),
                i <= kinds@.len(),
                kinds@.len() <= lists@.len(),
                views == list_views(lists@),
                self.cmds() == start + finish_srems(s, kinds@.take(i as int), views, counts@),
                keys@ == finish_keys(s, guild, kinds@.take(i as int), views, counts@),
                self.settings() == s,
            decreases kinds@.len() - i,
        {
            let ghost before = self.cmds();
            let ghost before_keys = keys@;
            self.handle_list(guild, kinds[i], lists[i].as_slice(), counts, &mut keys);
            proof {
                let prev = kinds@.take(i as int);
                let next = kinds@.take(i + 1);
                assert(next.drop_last() =~= prev);
                assert(next.last() == kinds@[i as int]);
                assert(views[i as int] == lists@[i as int]@);
                assert(start + finish_srems(s, prev, views, counts@) + list_srems(
                    s,
                    kinds@[i as int],
                    views[i as int],
                    counts@,
                ) =~= start + finish_srems(s, next, views, counts@));
            }
            i = i + 1;
        }
        assert(kinds@.take(i as int) =~= kinds@);
        if s.guild.wanted {
            keys.push(RedisKey::Guild { id: guild });
            self.srem_one(RedisKey::Guilds, guild);
        }
        let ghost mid = self.cmds();
        assert(keys@ =~= delete_guild_keys(s, guild, views, counts@));
        if keys.len() > 0 {
            self.del(keys.as_slice());
        }
        assert(self.cmds() =~= start + delete_guild_finish_cmds(s, guild, views, counts@));
        Ok(())
    }
}

/// Whether entries of `kind` expire.
pub fn settings_expire(s: &CacheSettings, kind: EntryKind) -> (res: bool)
    ensures
        res == kind_settings(*s, kind).expires(),
{
    crate::cache::common::settings_for(s, kind).expire_seconds.is_some()
}

} // verus!
