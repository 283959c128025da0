//! The command pipeline that collects the store's commands for one update,
//! and the text of each command.
use bb8_redis::redis::Pipeline;
use vstd::prelude::*;

use crate::config::CacheSettings;
use crate::decimal::{dec, dec_signed};
use crate::key::{key_bytes, RedisKey};

verus! {

/// A command pipeline of the `redis` crate.
#[verifier::external_type_specification]
#[verifier::external_body]
pub struct ExPipeline(Pipeline);

/// The commands that a pipeline holds, in order; each command is its list of
/// arguments, the command's name first.
pub uninterp spec fn pipeline_commands(p: Pipeline) -> Seq<Seq<Seq<u8>>>;

/// The positions of the commands whose replies are left out of the pipeline's
/// response.
pub uninterp spec fn pipeline_ignored(p: Pipeline) -> Set<int>;

// Command names.
/// `SET`
pub open spec fn name_set() -> Seq<u8> {
    seq![83u8, 69, 84]
}

/// `SETEX`
pub open spec fn name_setex() -> Seq<u8> {
    seq![83u8, 69, 84, 69, 88]
}

/// `MSET`
pub open spec fn name_mset() -> Seq<u8> {
    seq![77u8, 83, 69, 84]
}

/// `EXPIRE`
pub open spec fn name_expire() -> Seq<u8> {
    seq![69u8, 88, 80, 73, 82, 69]
}

/// `DEL`
pub open spec fn name_del() -> Seq<u8> {
    seq![68u8, 69, 76]
}

/// `SADD`
pub open spec fn name_sadd() -> Seq<u8> {
    seq![83u8, 65, 68, 68]
}

/// `SREM`
pub open spec fn name_srem() -> Seq<u8> {
    seq![83u8, 82, 69, 77]
}

/// `SCARD`
pub open spec fn name_scard() -> Seq<u8> {
    seq![83u8, 67, 65, 82, 68]
}

/// `SMEMBERS`
pub open spec fn name_smembers() -> Seq<u8> {
    seq![83u8, 77, 69, 77, 66, 69, 82, 83]
}

/// `ZADD`
pub open spec fn name_zadd() -> Seq<u8> {
    seq![90u8, 65, 68, 68]
}

/// `ZREM`
pub open spec fn name_zrem() -> Seq<u8> {
    seq![90u8, 82, 69, 77]
}

/// `GETDEL`
pub open spec fn name_getdel() -> Seq<u8> {
    seq![71u8, 69, 84, 68, 69, 76]
}

/// The decimal text of each id, one argument each.
pub open spec fn id_args(ids: Seq<u64>) -> Seq<Seq<u8>> {
    ids.map_values(|id: u64| dec(id as nat))
}

/// The keys and values of `items`, alternating, one argument each.
pub open spec fn pair_args(items: Seq<(Seq<u8>, Seq<u8>)>) -> Seq<Seq<u8>>
    decreases items.len(),
{
    if items.len() == 0 {
        Seq::empty()
    } else {
        pair_args(items.drop_last()) + seq![items.last().0, items.last().1]
    }
}

/// `SET key value`
pub open spec fn cmd_set(key: Seq<u8>, value: Seq<u8>) -> Seq<Seq<u8>> {
    seq![name_set(), key, value]
}

/// `SETEX key seconds value`
pub open spec fn cmd_setex(key: Seq<u8>, value: Seq<u8>, seconds: u64) -> Seq<Seq<u8>> {
    seq![name_setex(), key, dec(seconds as nat), value]
}

/// `MSET key value key value ...`
pub open spec fn cmd_mset(items: Seq<(Seq<u8>, Seq<u8>)>) -> Seq<Seq<u8>> {
    seq![name_mset()] + pair_args(items)
}

/// `EXPIRE key seconds`
pub open spec fn cmd_expire(key: Seq<u8>, seconds: i64) -> Seq<Seq<u8>> {
    seq![name_expire(), key, dec_signed(seconds as int)]
}

/// `DEL key ...`
pub open spec fn cmd_del(keys: Seq<Seq<u8>>) -> Seq<Seq<u8>> {
    seq![name_del()] + keys
}

/// `SADD key member ...`
pub open spec fn cmd_sadd(key: Seq<u8>, members: Seq<u64>) -> Seq<Seq<u8>> {
    seq![name_sadd(), key] + id_args(members)
}

/// `SREM key member ...`
pub open spec fn cmd_srem(key: Seq<u8>, members: Seq<u64>) -> Seq<Seq<u8>> {
    seq![name_srem(), key] + id_args(members)
}

/// `SCARD key`
pub open spec fn cmd_scard(key: Seq<u8>) -> Seq<Seq<u8>> {
    seq![name_scard(), key]
}

/// `SMEMBERS key`
pub open spec fn cmd_smembers(key: Seq<u8>) -> Seq<Seq<u8>> {
    seq![name_smembers(), key]
}

/// `ZADD key score member`
pub open spec fn cmd_zadd(key: Seq<u8>, member: u64, score: i64) -> Seq<Seq<u8>> {
    seq![name_zadd(), key, dec_signed(score as int), dec(member as nat)]
}

/// `ZREM key member ...`
pub open spec fn cmd_zrem(key: Seq<u8>, members: Seq<u64>) -> Seq<Seq<u8>> {
    seq![name_zrem(), key] + id_args(members)
}

/// `GETDEL key`
pub open spec fn cmd_getdel(key: Seq<u8>) -> Seq<Seq<u8>> {
    seq![name_getdel(), key]
}

/// The contents of a list of byte buffers.
pub open spec fn byte_views(v: Seq<Vec<u8>>) -> Seq<Seq<u8>> {
    v.map_values(|x: Vec<u8>| x@)
}

/// The contents of a list of key and value buffers.
pub open spec fn pair_views(v: Seq<(Vec<u8>, Vec<u8>)>) -> Seq<(Seq<u8>, Seq<u8>)> {
    v.map_values(|x: (Vec<u8>, Vec<u8>)| (x.0@, x.1@))
}

/// The text of each key.
pub open spec fn key_texts(keys: Seq<RedisKey>) -> Seq<Seq<u8>> {
    keys.map_values(|k: RedisKey| key_bytes(k))
}

/// `Pipeline::new`: an empty pipeline.
#[verifier::external_body]
fn pipeline_new() -> (p: Pipeline)
    ensures
        pipeline_commands(p) == Seq::<Seq<Seq<u8>>>::empty(),
        pipeline_ignored(p) == Set::<int>::empty(),
{
    Pipeline::new()
}

/// `Pipeline::clear`: removes every command.
#[verifier::external_body]
fn pipeline_clear(p: &mut Pipeline)
    ensures
        pipeline_commands(*final(p)) == Seq::<Seq<Seq<u8>>>::empty(),
        pipeline_ignored(*final(p)) == Set::<int>::empty(),
{
    p.clear()
}

/// `Pipeline::is_empty`: whether the pipeline holds no command.
#[verifier::external_body]
fn pipeline_is_empty(p: &Pipeline) -> (res: bool)
    ensures
        res == (pipeline_commands(*p).len() == 0),
{
    p.is_empty()
}

/// `Pipeline::ignore`: leaves the reply of the last command out of the
/// response; does nothing on an empty pipeline.
#[verifier::external_body]
fn pipeline_ignore(p: &mut Pipeline)
    ensures
        pipeline_commands(*final(p)) == pipeline_commands(*old(p)),
        pipeline_ignored(*final(p)) == (if pipeline_commands(*old(p)).len() == 0 {
            pipeline_ignored(*old(p))
        } else {
            pipeline_ignored(*old(p)).insert(pipeline_commands(*old(p)).len() - 1)
        }),
{
    p.ignore();
}

/// `Pipeline::set`: appends `SET key value`.
#[verifier::external_body]
fn pipeline_set(p: &mut Pipeline, key: &[u8], value: &[u8])
    ensures
        pipeline_commands(*final(p)) == pipeline_commands(*old(p)).push(cmd_set(key@, value@)),
        pipeline_ignored(*final(p)) == pipeline_ignored(*old(p)),
{
    p.set(key, value);
}

/// `Pipeline::set_ex`: appends `SETEX key seconds value`.
#[verifier::external_body]
fn pipeline_set_ex(p: &mut Pipeline, key: &[u8], value: &[u8], seconds: u64)
    ensures
        pipeline_commands(*final(p)) == pipeline_commands(*old(p)).push(
            cmd_setex(key@, value@, seconds),
        ),
        pipeline_ignored(*final(p)) == pipeline_ignored(*old(p)),
{
    p.set_ex(key, value, seconds);
}

/// `Pipeline::mset`: appends `MSET` with each key and value.
#[verifier::external_body]
fn pipeline_mset(p: &mut Pipeline, items: &[(Vec<u8>, Vec<u8>)])
    ensures
        pipeline_commands(*final(p)) == pipeline_commands(*old(p)).push(
            cmd_mset(pair_views(items@)),
        ),
        pipeline_ignored(*final(p)) == pipeline_ignored(*old(p)),
{
    p.mset(items);
}

/// `Pipeline::expire`: appends `EXPIRE key seconds`.
#[verifier::external_body]
fn pipeline_expire(p: &mut Pipeline, key: &[u8], seconds: i64)
    ensures
        pipeline_commands(*final(p)) == pipeline_commands(*old(p)).push(
            cmd_expire(key@, seconds),
        ),
        pipeline_ignored(*final(p)) == pipeline_ignored(*old(p)),
{
    p.expire(key, seconds);
}

/// `Pipeline::del`: appends `DEL` with each key.
#[verifier::external_body]
fn pipeline_del(p: &mut Pipeline, keys: &[Vec<u8>])
    ensures
        pipeline_commands(*final(p)) == pipeline_commands(*old(p)).push(
            cmd_del(byte_views(keys@)),
        ),
        pipeline_ignored(*final(p)) == pipeline_ignored(*old(p)),
{
    p.del(keys);
}

/// `Pipeline::sadd`: appends `SADD key` with the text of each member.
#[verifier::external_body]
fn pipeline_sadd(p: &mut Pipeline, key: &[u8], members: &[u64])
    ensures
        pipeline_commands(*final(p)) == pipeline_commands(*old(p)).push(
            cmd_sadd(key@, members@),
        ),
        pipeline_ignored(*final(p)) == pipeline_ignored(*old(p)),
{
    p.sadd(key, members);
}

/// `Pipeline::srem`: appends `SREM key` with the text of each member.
#[verifier::external_body]
fn pipeline_srem(p: &mut Pipeline, key: &[u8], members: &[u64])
    ensures
        pipeline_commands(*final(p)) == pipeline_commands(*old(p)).push(
            cmd_srem(key@, members@),
        ),
        pipeline_ignored(*final(p)) == pipeline_ignored(*old(p)),
{
    p.srem(key, members);
}

/// `Pipeline::scard`: appends `SCARD key`.
#[verifier::external_body]
fn pipeline_scard(p: &mut Pipeline, key: &[u8])
    ensures
        pipeline_commands(*final(p)) == pipeline_commands(*old(p)).push(cmd_scard(key@)),
        pipeline_ignored(*final(p)) == pipeline_ignored(*old(p)),
{
    p.scard(key);
}

/// `Pipeline::smembers`: appends `SMEMBERS key`.
#[verifier::external_body]
fn pipeline_smembers(p: &mut Pipeline, key: &[u8])
    ensures
        pipeline_commands(*final(p)) == pipeline_commands(*old(p)).push(cmd_smembers(key@)),
        pipeline_ignored(*final(p)) == pipeline_ignored(*old(p)),
{
    p.smembers(key);
}

/// `Pipeline::zadd`: appends `ZADD key score member`.
#[verifier::external_body]
fn pipeline_zadd(p: &mut Pipeline, key: &[u8], member: u64, score: i64)
    ensures
        pipeline_commands(*final(p)) == pipeline_commands(*old(p)).push(
            cmd_zadd(key@, member, score),
        ),
        pipeline_ignored(*final(p)) == pipeline_ignored(*old(p)),
{
    p.zadd(key, member, score);
}

/// `Pipeline::zrem`: appends `ZREM key` with the text of each member.
#[verifier::external_body]
fn pipeline_zrem(p: &mut Pipeline, key: &[u8], members: &[u64])
    ensures
        pipeline_commands(*final(p)) == pipeline_commands(*old(p)).push(
            cmd_zrem(key@, members@),
        ),
        pipeline_ignored(*final(p)) == pipeline_ignored(*old(p)),
{
    p.zrem(key, members);
}

/// `Pipeline::get_del`: appends `GETDEL key`.
#[verifier::external_body]
fn pipeline_get_del(p: &mut Pipeline, key: &[u8])
    ensures
        pipeline_commands(*final(p)) == pipeline_commands(*old(p)).push(cmd_getdel(key@)),
        pipeline_ignored(*final(p)) == pipeline_ignored(*old(p)),
{
    p.get_del(key);
}

/// The positions of the `EXPIRE` commands among `cmds`.
pub open spec fn expire_positions(cmds: Seq<Seq<Seq<u8>>>) -> Set<int> {
    Set::new(|i: int| 0 <= i < cmds.len() && cmds[i].len() > 0 && cmds[i][0] == name_expire())
}

/// Appending a command other than `EXPIRE` adds no position of one.
proof fn lemma_push_other(cmds: Seq<Seq<Seq<u8>>>, c: Seq<Seq<u8>>)
    requires
        c.len() > 0,
        c[0] != name_expire(),
    ensures
        expire_positions(cmds.push(c)) == expire_positions(cmds),
{
    assert(expire_positions(cmds.push(c)) =~= expire_positions(cmds));
}

/// Collects the commands of one cache update before they are sent in one go.
pub struct Pipe {
    pipeline: Pipeline,
    settings: CacheSettings,
}

impl Pipe {
    /// The commands collected so far, in order.
    pub closed spec fn cmds(self) -> Seq<Seq<Seq<u8>>> {
        pipeline_commands(self.pipeline)
    }

    /// The positions of the commands whose replies are left out of the
    /// response.
    pub closed spec fn ignored(self) -> Set<int> {
        pipeline_ignored(self.pipeline)
    }

    /// How each kind of entry is handled.
    pub closed spec fn settings(self) -> CacheSettings {
        self.settings
    }

    /// Whether exactly the replies of the `EXPIRE` commands are left out of
    /// the response, as after storing entries into an empty pipe.
    pub open spec fn ignores_only_expires(self) -> bool {
        self.ignored() == expire_positions(self.cmds())
    }

    /// An empty pipe for a cache with the given settings.
    pub fn new(settings: CacheSettings) -> (res: Pipe)
        requires
            settings.valid(),
        ensures
            res.cmds() == Seq::<Seq<Seq<u8>>>::empty(),
            res.ignored() == Set::<int>::empty(),
            res.settings() == settings,
            res.ignores_only_expires(),
    {
        let res = Pipe { pipeline: pipeline_new(), settings };
        assert(expire_positions(res.cmds()) =~= Set::<int>::empty());
        res
    }

    /// The settings of the cache this pipe is for.
    pub fn settings_ref(&self) -> (res: &CacheSettings)
        ensures
            *res == self.settings(),
    {
        &self.settings
    }

    /// The underlying pipeline, to be sent to the store.
    pub fn pipeline(&self) -> (res: &Pipeline)
        ensures
            pipeline_commands(*res) == self.cmds(),
            pipeline_ignored(*res) == self.ignored(),
    {
        &self.pipeline
    }

    /// Whether no command was collected.
    pub fn is_empty(&self) -> (res: bool)
        ensures
            res == (self.cmds().len() == 0),
    {
        pipeline_is_empty(&self.pipeline)
    }

    /// Removes every command, once they were sent.
    pub fn clear(&mut self)
        ensures
            final(self).cmds() == Seq::<Seq<Seq<u8>>>::empty(),
            final(self).ignored() == Set::<int>::empty(),
            final(self).settings() == old(self).settings(),
            final(self).ignores_only_expires(),
    {
        pipeline_clear(&mut self.pipeline);
        assert(expire_positions(self.cmds()) =~= Set::<int>::empty());
    }

    /// Leaves the reply of the last command out of the response.
    pub fn ignore(&mut self)
        ensures
            final(self).cmds() == old(self).cmds(),
            final(self).ignored() == (if old(self).cmds().len() == 0 {
                old(self).ignored()
            } else {
                old(self).ignored().insert(old(self).cmds().len() - 1)
            }),
            final(self).settings() == old(self).settings(),
    {
        pipeline_ignore(&mut self.pipeline);
    }

    /// Deletes the given keys.
    pub fn del(&mut self, keys: &[RedisKey])
        ensures
            final(self).cmds() == old(self).cmds().push(cmd_del(key_texts(keys@))),
            final(self).ignored() == old(self).ignored(),
            final(self).settings() == old(self).settings(),
            old(self).ignores_only_expires() ==> final(self).ignores_only_expires(),
    {
        let ghost before = self.cmds();
        let mut texts: Vec<Vec<u8>> = Vec::new();
        let mut i: usize = 0;
        while i < keys.len()
            invariant
                i <= keys@.len(),
                byte_views(texts@) == key_texts(keys@.take(i as int)),
            decreases keys@.len() - i,
        {
            let text = keys[i].to_bytes();
            let ghost before = texts@;
            texts.push(text);
            assert(byte_views(texts@) =~= byte_views(before).push(key_bytes(keys@[i as int])));
            assert(keys@.take(i + 1) =~= keys@.take(i as int).push(keys@[i as int]));
            assert(key_texts(keys@.take(i + 1)) =~= key_texts(keys@.take(i as int)).push(
                key_bytes(keys@[i as int]),
            ));
            i = i + 1;
        }
        assert(keys@.take(i as int) =~= keys@);
        pipeline_del(&mut self.pipeline, texts.as_slice());
        proof {
            lemma_push_other(before, cmd_del(key_texts(keys@)));
        }
    }

    /// Deletes one key.
    pub fn del_one(&mut self, key: RedisKey)
        ensures
            final(self).cmds() == old(self).cmds().push(cmd_del(seq![key_bytes(key)])),
            final(self).ignored() == old(self).ignored(),
            final(self).settings() == old(self).settings(),
            old(self).ignores_only_expires() ==> final(self).ignores_only_expires(),
    {
        let keys = [key];
        assert(keys@ =~= seq![key]);
        self.del(&keys);
        assert(key_texts(seq![key]) =~= seq![key_bytes(key)]);
    }

    /// Stores `bytes` under `key`, expiring after the given seconds if any.
    pub fn set(&mut self, key: RedisKey, bytes: &[u8], expire_seconds: Option<u64>)
        ensures
            final(self).cmds() == old(self).cmds().push(
                set_command(key_bytes(key), bytes@, expire_seconds),
            ),
            final(self).ignored() == old(self).ignored(),
            final(self).settings() == old(self).settings(),
            old(self).ignores_only_expires() ==> final(self).ignores_only_expires(),
    {
        let ghost before = self.cmds();
        let text = key.to_bytes();
        match expire_seconds {
            Some(seconds) => pipeline_set_ex(&mut self.pipeline, text.as_slice(), bytes, seconds),
            None => pipeline_set(&mut self.pipeline, text.as_slice(), bytes),
        }
        proof {
            lemma_push_other(before, set_command(key_bytes(key), bytes@, expire_seconds));
        }
    }

    /// Adds the members to the set at `key`.
    pub fn sadd(&mut self, key: RedisKey, members: &[u64])
        ensures
            final(self).cmds() == old(self).cmds().push(cmd_sadd(key_bytes(key), members@)),
            final(self).ignored() == old(self).ignored(),
            final(self).settings() == old(self).settings(),
            old(self).ignores_only_expires() ==> final(self).ignores_only_expires(),
    {
        let ghost before = self.cmds();
        let text = key.to_bytes();
        pipeline_sadd(&mut self.pipeline, text.as_slice(), members);
        proof {
            lemma_push_other(before, cmd_sadd(key_bytes(key), members@));
        }
    }

    /// Adds one member to the set at `key`.
    pub fn sadd_one(&mut self, key: RedisKey, member: u64)
        ensures
            final(self).cmds() == old(self).cmds().push(cmd_sadd(key_bytes(key), seq![member])),
            final(self).ignored() == old(self).ignored(),
            final(self).settings() == old(self).settings(),
            old(self).ignores_only_expires() ==> final(self).ignores_only_expires(),
    {
        let members = [member];
        self.sadd(key, &members);
        assert(members@ =~= seq![member]);
    }

    /// Removes the members from the set at `key`.
    pub fn srem(&mut self, key: RedisKey, members: &[u64])
        ensures
            final(self).cmds() == old(self).cmds().push(cmd_srem(key_bytes(key), members@)),
            final(self).ignored() == old(self).ignored(),
            final(self).settings() == old(self).settings(),
            old(self).ignores_only_expires() ==> final(self).ignores_only_expires(),
    {
        let ghost before = self.cmds();
        let text = key.to_bytes();
        pipeline_srem(&mut self.pipeline, text.as_slice(), members);
        proof {
            lemma_push_other(before, cmd_srem(key_bytes(key), members@));
        }
    }

    /// Removes one member from the set at `key`.
    pub fn srem_one(&mut self, key: RedisKey, member: u64)
        ensures
            final(self).cmds() == old(self).cmds().push(cmd_srem(key_bytes(key), seq![member])),
            final(self).ignored() == old(self).ignored(),
            final(self).settings() == old(self).settings(),
            old(self).ignores_only_expires() ==> final(self).ignores_only_expires(),
    {
        let members = [member];
        self.srem(key, &members);
        assert(members@ =~= seq![member]);
    }

    /// Asks for the size of the set at `key`.
    pub fn scard(&mut self, key: RedisKey)
        ensures
            final(self).cmds() == old(self).cmds().push(cmd_scard(key_bytes(key))),
            final(self).ignored() == old(self).ignored(),
            final(self).settings() == old(self).settings(),
            old(self).ignores_only_expires() ==> final(self).ignores_only_expires(),
    {
        let ghost before = self.cmds();
        let text = key.to_bytes();
        pipeline_scard(&mut self.pipeline, text.as_slice());
        proof {
            lemma_push_other(before, cmd_scard(key_bytes(key)));
        }
    }

    /// Asks for the members of the set at `key`.
    pub fn smembers(&mut self, key: RedisKey)
        ensures
            final(self).cmds() == old(self).cmds().push(cmd_smembers(key_bytes(key))),
            final(self).ignored() == old(self).ignored(),
            final(self).settings() == old(self).settings(),
            old(self).ignores_only_expires() ==> final(self).ignores_only_expires(),
    {
        let ghost before = self.cmds();
        let text = key.to_bytes();
        pipeline_smembers(&mut self.pipeline, text.as_slice());
        proof {
            lemma_push_other(before, cmd_smembers(key_bytes(key)));
        }
    }

    /// Adds `member` with `score` to the sorted set at `key`.
    pub fn zadd(&mut self, key: RedisKey, member: u64, score: i64)
        ensures
            final(self).cmds() == old(self).cmds().push(cmd_zadd(key_bytes(key), member, score)),
            final(self).ignored() == old(self).ignored(),
            final(self).settings() == old(self).settings(),
            old(self).ignores_only_expires() ==> final(self).ignores_only_expires(),
    {
        let ghost before = self.cmds();
        let text = key.to_bytes();
        pipeline_zadd(&mut self.pipeline, text.as_slice(), member, score);
        proof {
            lemma_push_other(before, cmd_zadd(key_bytes(key), member, score));
        }
    }

    /// Removes the members from the sorted set at `key`.
    pub fn zrem(&mut self, key: RedisKey, members: &[u64])
        ensures
            final(self).cmds() == old(self).cmds().push(cmd_zrem(key_bytes(key), members@)),
            final(self).ignored() == old(self).ignored(),
            final(self).settings() == old(self).settings(),
            old(self).ignores_only_expires() ==> final(self).ignores_only_expires(),
    {
        let ghost before = self.cmds();
        let text = key.to_bytes();
        pipeline_zrem(&mut self.pipeline, text.as_slice(), members);
        proof {
            lemma_push_other(before, cmd_zrem(key_bytes(key), members@));
        }
    }

    /// Reads and deletes the value at `key`.
    pub fn get_del(&mut self, key: RedisKey)
        ensures
            final(self).cmds() == old(self).cmds().push(cmd_getdel(key_bytes(key))),
            final(self).ignored() == old(self).ignored(),
            final(self).settings() == old(self).settings(),
            old(self).ignores_only_expires() ==> final(self).ignores_only_expires(),
    {
        let ghost before = self.cmds();
        let text = key.to_bytes();
        pipeline_get_del(&mut self.pipeline, text.as_slice());
        proof {
            lemma_push_other(before, cmd_getdel(key_bytes(key)));
        }
    }

    /// Stores several entries at once, each expiring after the given seconds
    /// if any.
    pub fn mset(&mut self, items: &[(RedisKey, Vec<u8>)], expire_seconds: Option<u64>)
        requires
            match expire_seconds {
                Some(s) => s <= i64::MAX,
                None => true,
            },
        ensures
            final(self).cmds() == old(self).cmds() + mset_commands(
                entry_views(items@),
                expire_seconds,
            ),
            final(self).ignored() == (match expire_seconds {
                Some(_) => old(self).ignored().union(
                    Set::new(
                        |i: int|
                            old(self).cmds().len() + 1 <= i < old(self).cmds().len() + 1
                                + items@.len(),
                    ),
                ),
                None => old(self).ignored(),
            }),
            final(self).settings() == old(self).settings(),
            old(self).ignores_only_expires() ==> final(self).ignores_only_expires(),
    {
        let ghost start = self.cmds();
        let ghost start_ignored = self.ignored();
        let mut pairs: Vec<(Vec<u8>, Vec<u8>)> = Vec::new();
        let mut i: usize = 0;
        while i < items.len()
            invariant
                i <= items@.len(),
                pair_views(pairs@) == item_pairs(entry_views(items@.take(i as int))),
            decreases items@.len() - i,
        {
            let text = items[i].0.to_bytes();
            let value = items[i].1.clone();
            let ghost before = pairs@;
            pairs.push((text, value));
            assert(pair_views(pairs@) =~= pair_views(before).push(
                (key_bytes(items@[i as int].0), items@[i as int].1@),
            ));
            assert(items@.take(i + 1) =~= items@.take(i as int).push(items@[i as int]));
            assert(item_pairs(entry_views(items@.take(i + 1))) =~= item_pairs(
                entry_views(items@.take(i as int)),
            ).push((key_bytes(items@[i as int].0), items@[i as int].1@)));
            i = i + 1;
        }
        assert(items@.take(i as int) =~= items@);
        pipeline_mset(&mut self.pipeline, pairs.as_slice());
        assert(self.cmds() =~= start + seq![cmd_mset(item_pairs(entry_views(items@)))]);
        if let Some(seconds) = expire_seconds {
            let signed: i64 = seconds as i64;
            let mut j: usize = 0;
            while j < pairs.len()
                invariant
                    j <= pairs@.len(),
                    pairs@.len() == items@.len(),
                    pair_views(pairs@) == item_pairs(entry_views(items@)),
                    signed == seconds as int,
                    self.cmds() == start + seq![cmd_mset(item_pairs(entry_views(items@)))]
                        + expire_commands(entry_views(items@.take(j as int)), signed),
                    self.ignored() == start_ignored.union(
                        Set::new(|x: int| start.len() + 1 <= x < start.len() + 1 + j),
                    ),
                    self.settings() == old(self).settings(),
                decreases pairs@.len() - j,
            {
                let ghost before = self.cmds();
                assert(pairs@[j as int].0@ == key_bytes(items@[j as int].0)) by {
                    assert(pair_views(pairs@)[j as int] == item_pairs(entry_views(items@))[j as int]);
                }
                pipeline_expire(&mut self.pipeline, pairs[j].0.as_slice(), signed);
                pipeline_ignore(&mut self.pipeline);
                assert(items@.take(j + 1) =~= items@.take(j as int).push(items@[j as int]));
                assert(expire_commands(entry_views(items@.take(j + 1)), signed) =~= expire_commands(
                    entry_views(items@.take(j as int)),
                    signed,
                ).push(cmd_expire(key_bytes(items@[j as int].0), signed)));
                assert(self.ignored() =~= start_ignored.union(
                    Set::new(|x: int| start.len() + 1 <= x < start.len() + 1 + j + 1),
                ));
                j = j + 1;
            }
            assert(items@.take(j as int) =~= items@);
            proof {
                if start_ignored == expire_positions(start) {
                    let c = self.cmds();
                    let views = entry_views(items@);
                    assert forall|x: int| #[trigger]
                        expire_positions(c).contains(x) <==> self.ignored().contains(x) by {
                        if 0 <= x < start.len() {
                            assert(c[x] == start[x]);
                        } else if x == start.len() {
                            assert(c[x] == cmd_mset(item_pairs(views)));
                        } else if start.len() < x < c.len() {
                            assert(c[x] == cmd_expire(key_bytes(views[x - start.len() - 1].0), signed));
                        }
                    }
                    assert(self.ignored() =~= expire_positions(c));
                }
            }
        } else {
            assert(expire_commands(entry_views(items@.take(0)), 0) =~= Seq::<Seq<Seq<u8>>>::empty());
            proof {
                let m = cmd_mset(item_pairs(entry_views(items@)));
                assert(start + seq![m] =~= start.push(m));
                lemma_push_other(start, m);
            }
        }
    }
}

/// The command that stores `value` under `key`: `SETEX` if it expires,
/// `SET` otherwise.
pub open spec fn set_command(key: Seq<u8>, value: Seq<u8>, expire_seconds: Option<u64>) -> Seq<
    Seq<u8>,
> {
    match expire_seconds {
        Some(s) => cmd_setex(key, value, s),
        None => cmd_set(key, value),
    }
}

/// The keys and contents of a list of entries.
pub open spec fn entry_views(items: Seq<(RedisKey, Vec<u8>)>) -> Seq<(RedisKey, Seq<u8>)> {
    items.map_values(|x: (RedisKey, Vec<u8>)| (x.0, x.1@))
}

/// The key texts and values of `items`.
pub open spec fn item_pairs(items: Seq<(RedisKey, Seq<u8>)>) -> Seq<(Seq<u8>, Seq<u8>)> {
    items.map_values(|x: (RedisKey, Seq<u8>)| (key_bytes(x.0), x.1))
}

/// One `EXPIRE` command for each key of `items`.
pub open spec fn expire_commands(items: Seq<(RedisKey, Seq<u8>)>, seconds: i64) -> Seq<
    Seq<Seq<u8>>,
> {
    items.map_values(|x: (RedisKey, Seq<u8>)| cmd_expire(key_bytes(x.0), seconds))
}

/// The commands that store several entries at once: one `MSET`, then an
/// `EXPIRE` for each key if they expire.
pub open spec fn mset_commands(items: Seq<(RedisKey, Seq<u8>)>, expire_seconds: Option<u64>) -> Seq<
    Seq<Seq<u8>>,
> {
    seq![cmd_mset(item_pairs(items))] + match expire_seconds {
        Some(s) => expire_commands(items, s as i64),
        None => Seq::empty(),
    }
}

} // verus!
