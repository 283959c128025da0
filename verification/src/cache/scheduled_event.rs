//! Scheduled events.
use vstd::prelude::*;

use crate::cache::common::{
    delete_keyed_cmds, meta_command, store_keyed_cmds, store_keyed_one_cmds, EntryKind,
};
use crate::cache::user::store_user_cmds;
use crate::config::CacheSettings;
use crate::entries::{ScheduledEventEntry, UserEntry};
use crate::key::{key_bytes, RedisKey};
use crate::pipe::{cmd_sadd, set_command, Pipe};

verus! {

/// Storing the creator of a scheduled event, if it comes with one.
pub open spec fn store_creator_cmds(s: CacheSettings, creator: Option<UserEntry>) -> Seq<
    Seq<Seq<u8>>,
> {
    match creator {
        Some(user) => store_user_cmds(s, user),
        None => Seq::empty(),
    }
}

/// Storing a scheduled event entry after its update: the entry, its id, and
/// a record of its guild when scheduled events expire.
pub open spec fn store_updated_scheduled_event_cmds(
    s: CacheSettings,
    event: u64,
    guild: u64,
    bytes: Seq<u8>,
) -> Seq<Seq<Seq<u8>>> {
    seq![
        set_command(
            key_bytes(RedisKey::ScheduledEvent { id: event }),
            bytes,
            s.scheduled_event.expire_seconds,
        ),
        cmd_sadd(key_bytes(RedisKey::ScheduledEvents), seq![event]),
    ] + (if s.scheduled_event.expires() {
        seq![meta_command(EntryKind::ScheduledEvent, event, guild)]
    } else {
        Seq::empty()
    })
}

/// The scheduled event entry to fetch for an update, if there is one to
/// fetch.
pub open spec fn scheduled_event_to_update(s: CacheSettings, event: u64, updates: bool) -> Option<
    RedisKey,
> {
    if s.scheduled_event.wanted && updates {
        Some(RedisKey::ScheduledEvent { id: event })
    } else {
        None
    }
}

impl Pipe {
    /// Stores the creator of a scheduled event, if it comes with one.
    fn store_creator(&mut self, creator: &Option<UserEntry>)
        ensures
            final(self).cmds() == old(self).cmds() + store_creator_cmds(
                old(self).settings(),
                *creator,
            ),
            final(self).settings() == old(self).settings(),
            old(self).ignores_only_expires() ==> final(self).ignores_only_expires(),
    {
        let ghost start = self.cmds();
        if let Some(user) = creator {
            self.store_user(user);
        } else {
            assert(self.cmds() =~= start + store_creator_cmds(self.settings(), *creator));
        }
    }

    /// Stores a scheduled event and its creator.
    pub fn store_scheduled_event(&mut self, event: &ScheduledEventEntry)
        ensures
            final(self).cmds() == old(self).cmds() + store_creator_cmds(
                old(self).settings(),
                event.creator,
            ) + store_keyed_one_cmds(
                old(self).settings(),
                EntryKind::ScheduledEvent,
                event.guild_id,
                event.id,
                event.bytes@,
            ),
            final(self).settings() == old(self).settings(),
            old(self).ignores_only_expires() ==> final(self).ignores_only_expires(),
    {
        let ghost start = self.cmds();
        self.store_creator(&event.creator);
        self.store_keyed_one(
            EntryKind::ScheduledEvent,
            event.guild_id,
            event.id,
            event.bytes.as_slice(),
        );
        assert(self.cmds() =~= start + store_creator_cmds(self.settings(), event.creator)
            + store_keyed_one_cmds(
            self.settings(),
            EntryKind::ScheduledEvent,
            event.guild_id,
            event.id,
            event.bytes@,
        ));
    }

    /// Stores the scheduled events of `guild` at once.
    pub fn store_scheduled_events(&mut self, guild: u64, events: &[ScheduledEventEntry])
        requires
            old(self).settings().valid(),
        ensures
            final(self).cmds() == old(self).cmds() + store_keyed_cmds(
                old(self).settings(),
                EntryKind::ScheduledEvent,
                guild,
                events@,
            ),
            final(self).settings() == old(self).settings(),
            old(self).ignores_only_expires() ==> final(self).ignores_only_expires(),
    {
        self.store_keyed(EntryKind::ScheduledEvent, guild, events);
    }

    /// A user subscribed to a scheduled event: returns the key of the event
    /// entry to fetch and update, if the configured type handles this.
    pub fn store_scheduled_event_user_add(&self, event: u64, updates: bool) -> (res: Option<
        RedisKey,
    >)
        ensures
            res == scheduled_event_to_update(self.settings(), event, updates),
    {
        if self.settings_ref().scheduled_event.wanted && updates {
            Some(RedisKey::ScheduledEvent { id: event })
        } else {
            None
        }
    }

    /// A user unsubscribed from a scheduled event: returns the key of the
    /// event entry to fetch and update, if the configured type handles this.
    pub fn store_scheduled_event_user_remove(&self, event: u64, updates: bool) -> (res: Option<
        RedisKey,
    >)
        ensures
            res == scheduled_event_to_update(self.settings(), event, updates),
    {
        if self.settings_ref().scheduled_event.wanted && updates {
            Some(RedisKey::ScheduledEvent { id: event })
        } else {
            None
        }
    }

    /// Stores a scheduled event entry after its update.
    pub fn store_updated_scheduled_event(&mut self, event: u64, guild: u64, bytes: &[u8])
        ensures
            final(self).cmds() == old(self).cmds() + store_updated_scheduled_event_cmds(
                old(self).settings(),
                event,
                guild,
                bytes@,
            ),
            final(self).settings() == old(self).settings(),
            old(self).ignores_only_expires() ==> final(self).ignores_only_expires(),
    {
        let ghost start = self.cmds();
        let s = *self.settings_ref();
        self.set(RedisKey::ScheduledEvent { id: event }, bytes, s.scheduled_event.expire_seconds);
        self.sadd_one(RedisKey::ScheduledEvents, event);
        if s.scheduled_event.expire_seconds.is_some() {
            self.store_meta(EntryKind::ScheduledEvent, event, guild);
        }
        assert(self.cmds() =~= start + store_updated_scheduled_event_cmds(s, event, guild, bytes@));
    }

    /// Removes a scheduled event, after storing its creator.
    pub fn delete_scheduled_event(&mut self, event: &ScheduledEventEntry)
        ensures
            final(self).cmds() == old(self).cmds() + store_creator_cmds(
                old(self).settings(),
                event.creator,
            ) + delete_keyed_cmds(
                old(self).settings(),
                EntryKind::ScheduledEvent,
                event.guild_id,
                event.id,
            ),
            final(self).settings() == old(self).settings(),
            old(self).ignores_only_expires() ==> final(self).ignores_only_expires(),
    {
        let ghost start = self.cmds();
        self.store_creator(&event.creator);
        self.delete_keyed(EntryKind::ScheduledEvent, event.guild_id, event.id);
        assert(self.cmds() =~= start + store_creator_cmds(self.settings(), event.creator)
            + delete_keyed_cmds(self.settings(), EntryKind::ScheduledEvent, event.guild_id, event.id));
    }
}

} // verus!
