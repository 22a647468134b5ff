use vstd::prelude::*;
use crate::embeds::{
    build_current_queue_embed, build_embed_currently_playing, build_embed_empty_queue,
    build_embed_queued_up, spec_current_queue_embed, spec_embed_currently_playing,
    spec_embed_empty_queue, spec_embed_queued_up, track_views, Embed, Reply, TrackMeta,
    TrackMetaView,
};

verus! {

/// A guild's voice connection: the channel joined and the playback queue.
/// The head of the queue is the track now playing.
pub struct Session {
    pub channel_id: u64,
    pub queue: Vec<TrackMeta>,
}

struct Entry {
    guild_id: u64,
    session: Session,
}

/// Every active voice session, keyed by guild; at most one per guild.
pub struct Sessions {
    entries: Vec<Entry>,
}

impl Sessions {
    /// No two entries belong to the same guild.
    pub closed spec fn wf(&self) -> bool {
        forall|i: int, j: int|
            0 <= i < self.entries@.len() && 0 <= j < self.entries@.len() && i != j
                ==> self.entries@[i].guild_id != self.entries@[j].guild_id
    }

    /// Whether the guild has an active voice session.
    pub closed spec fn has_session(&self, guild_id: u64) -> bool {
        exists|i: int|
            0 <= i < self.entries@.len() && #[trigger] self.entries@[i].guild_id == guild_id
    }

    /// How many guilds have an active voice session.
    pub closed spec fn session_count(&self) -> nat {
        self.entries@.len()
    }

    spec fn entry_index(&self, guild_id: u64) -> int {
        choose|i: int|
            0 <= i < self.entries@.len() && #[trigger] self.entries@[i].guild_id == guild_id
    }

    /// The guild's playback queue, oldest track first; empty when the guild
    /// has no session.
    pub closed spec fn queue_of(&self, guild_id: u64) -> Seq<TrackMetaView> {
        if self.has_session(guild_id) {
            track_views(self.entries@[self.entry_index(guild_id)].session.queue@)
        } else {
            Seq::empty()
        }
    }

    /// The voice channel the guild's session is connected to; meaningful
    /// only while the guild has a session.
    pub closed spec fn channel_of(&self, guild_id: u64) -> u64 {
        if self.has_session(guild_id) {
            self.entries@[self.entry_index(guild_id)].session.channel_id
        } else {
            0
        }
    }

    proof fn lemma_entry_at(&self, i: int, guild_id: u64)
        requires
            self.wf(),
            0 <= i < self.entries@.len(),
            self.entries@[i].guild_id == guild_id,
        ensures
            self.has_session(guild_id),
            self.entry_index(guild_id) == i,
            self.queue_of(guild_id) == track_views(self.entries@[i].session.queue@),
            self.channel_of(guild_id) == self.entries@[i].session.channel_id,
    {
        assert(self.has_session(guild_id));
        let j = self.entry_index(guild_id);
        assert(0 <= j < self.entries@.len() && self.entries@[j].guild_id == guild_id);
        if i != j {
            assert(self.entries@[i].guild_id != self.entries@[j].guild_id);
        }
    }

    fn find_index(&self, guild_id: u64) -> (r: Option<usize>)
        requires
            self.wf(),
        ensures
            match r {
                Option::Some(i) => i < self.entries@.len()
                    && self.entries@[i as int].guild_id == guild_id,
                Option::None => !self.has_session(guild_id),
            },
    {
        let mut i: usize = 0;
        while i < self.entries.len()
            invariant
                i <= self.entries@.len(),
                forall|k: int| 0 <= k < i ==> self.entries@[k].guild_id != guild_id,
            decreases self.entries@.len() - i,
        {
            if self.entries[i].guild_id == guild_id {
                return Option::Some(i);
            }
            i = i + 1;
        }
        Option::None
    }

    /// An empty session store: no guild is connected.
    pub fn new() -> (s: Sessions)
        ensures
            s.wf(),
            s.session_count() == 0,
            forall|g: u64| !s.has_session(g),
            forall|g: u64| s.queue_of(g) == Seq::<TrackMetaView>::empty(),
    {
        Sessions { entries: Vec::new() }
    }

    /// Whether the guild has an active voice session.
    pub fn contains(&self, guild_id: u64) -> (r: bool)
        requires
            self.wf(),
        ensures
            r == self.has_session(guild_id),
    {
        match self.find_index(guild_id) {
            Option::Some(i) => {
                proof {
                    self.lemma_entry_at(i as int, guild_id);
                }
                true
            },
            Option::None => false,
        }
    }

    /// How many guilds have an active voice session.
    pub fn count(&self) -> (r: usize)
        ensures
            r == self.session_count(),
    {
        self.entries.len()
    }

    /// The combined running time of the guild's queued tracks, in seconds;
    /// `None` when it does not fit in a `u64`.
    pub fn queue_duration(&self, guild_id: u64) -> (r: Option<u64>)
        requires
            self.wf(),
        ensures
            match r {
                Option::Some(total) => total as int == spec_queue_duration(
                    self.queue_of(guild_id),
                ),
                Option::None => spec_queue_duration(self.queue_of(guild_id)) > u64::MAX,
            },
    {
        let i: usize = match self.find_index(guild_id) {
            Option::Some(i) => i,
            Option::None => {
                return Option::Some(0);
            },
        };
        proof {
            self.lemma_entry_at(i as int, guild_id);
        }
        let queue = &self.entries[i].session.queue;
        let ghost q = track_views(queue@);
        let mut s: u64 = 0;
        let mut k: usize = 0;
        while k < queue.len()
            invariant
                k <= queue@.len(),
                q == track_views(queue@),
                q == self.queue_of(guild_id),
                s as int == spec_queue_duration(q.take(k as int)),
            decreases queue@.len() - k,
        {
            proof {
                assert(q.take(k as int + 1).drop_last() =~= q.take(k as int));
                assert(q.take(k as int + 1).last() == q[k as int]);
            }
            s = match s.checked_add(queue[k].duration_secs) {
                Option::Some(s) => s,
                Option::None => {
                    proof {
                        lemma_queue_duration_take(q, k as int + 1);
                    }
                    return Option::None;
                },
            };
            k = k + 1;
        }
        proof {
            assert(q.take(queue@.len() as int) =~= q);
        }
        Option::Some(s)
    }

    /// How many tracks the guild's queue holds; zero when the guild has no
    /// session.
    pub fn queue_len(&self, guild_id: u64) -> (r: usize)
        requires
            self.wf(),
        ensures
            r == self.queue_of(guild_id).len(),
    {
        match self.find_index(guild_id) {
            Option::Some(i) => {
                proof {
                    self.lemma_entry_at(i as int, guild_id);
                }
                self.entries[i].session.queue.len()
            },
            Option::None => 0,
        }
    }
}

proof fn lemma_frame_update(pre: Sessions, post: Sessions, i: int, e: Entry)
    requires
        pre.wf(),
        0 <= i < pre.entries@.len(),
        post.entries@ == pre.entries@.update(i, e),
        e.guild_id == pre.entries@[i].guild_id,
    ensures
        post.wf(),
        post.session_count() == pre.session_count(),
        post.has_session(e.guild_id),
        post.queue_of(e.guild_id) == track_views(e.session.queue@),
        post.channel_of(e.guild_id) == e.session.channel_id,
        forall|g: u64|
            g != e.guild_id ==> post.has_session(g) == pre.has_session(g) && post.queue_of(g)
                == pre.queue_of(g) && post.channel_of(g) == pre.channel_of(g),
{
    assert(forall|k: int|
        0 <= k < post.entries@.len() ==> post.entries@[k].guild_id == pre.entries@[
            k
        ].guild_id);
    post.lemma_entry_at(i, e.guild_id);
    assert forall|g: u64| g != e.guild_id implies post.has_session(g) == pre.has_session(g)
        && post.queue_of(g) == pre.queue_of(g) && post.channel_of(g) == pre.channel_of(g) by {
        if pre.has_session(g) {
            let k = pre.entry_index(g);
            assert(pre.entries@[k].guild_id == g);
            assert(k != i);
            pre.lemma_entry_at(k, g);
            post.lemma_entry_at(k, g);
            assert(post.entries@[k] == pre.entries@[k]);
        } else {
            if post.has_session(g) {
                let k = post.entry_index(g);
                assert(post.entries@[k].guild_id == g);
                assert(pre.entries@[k].guild_id == g);
            }
        }
    }
}

proof fn lemma_frame_push(pre: Sessions, post: Sessions, e: Entry)
    requires
        pre.wf(),
        !pre.has_session(e.guild_id),
        post.entries@ == pre.entries@.push(e),
    ensures
        post.wf(),
        post.session_count() == pre.session_count() + 1,
        post.has_session(e.guild_id),
        post.queue_of(e.guild_id) == track_views(e.session.queue@),
        post.channel_of(e.guild_id) == e.session.channel_id,
        forall|g: u64|
            g != e.guild_id ==> post.has_session(g) == pre.has_session(g) && post.queue_of(g)
                == pre.queue_of(g) && post.channel_of(g) == pre.channel_of(g),
{
    let n = pre.entries@.len() as int;
    assert(forall|k: int| 0 <= k < n ==> post.entries@[k] == pre.entries@[k]);
    assert(forall|k: int|
        0 <= k < n ==> #[trigger] pre.entries@[k].guild_id != e.guild_id) by {
        if exists|k: int| 0 <= k < n && #[trigger] pre.entries@[k].guild_id == e.guild_id {
            assert(pre.has_session(e.guild_id));
        }
    }
    assert(post.wf());
    post.lemma_entry_at(n, e.guild_id);
    assert forall|g: u64| g != e.guild_id implies post.has_session(g) == pre.has_session(g)
        && post.queue_of(g) == pre.queue_of(g) && post.channel_of(g) == pre.channel_of(g) by {
        if pre.has_session(g) {
            let k = pre.entry_index(g);
            assert(pre.entries@[k].guild_id == g);
            pre.lemma_entry_at(k, g);
            post.lemma_entry_at(k, g);
        } else {
            if post.has_session(g) {
                let k = post.entry_index(g);
                assert(post.entries@[k].guild_id == g);
                assert(k != n);
                assert(pre.entries@[k].guild_id == g);
            }
        }
    }
}

proof fn lemma_frame_remove(pre: Sessions, post: Sessions, i: int)
    requires
        pre.wf(),
        0 <= i < pre.entries@.len(),
        post.entries@ == pre.entries@.remove(i),
    ensures
        post.wf(),
        post.session_count() == pre.session_count() - 1,
        !post.has_session(pre.entries@[i].guild_id),
        forall|g: u64|
            g != pre.entries@[i].guild_id ==> post.has_session(g) == pre.has_session(g)
                && post.queue_of(g) == pre.queue_of(g) && post.channel_of(g) == pre.channel_of(
                g,
            ),
{
    let gi = pre.entries@[i].guild_id;
    assert(forall|k: int|
        0 <= k < i ==> post.entries@[k] == pre.entries@[k]);
    assert(forall|k: int|
        i <= k < post.entries@.len() ==> post.entries@[k] == pre.entries@[k + 1]);
    assert(post.wf()) by {
        assert forall|a: int, b: int|
            0 <= a < post.entries@.len() && 0 <= b < post.entries@.len() && a != b
            implies post.entries@[a].guild_id != post.entries@[b].guild_id by {
            let a0 = if a < i { a } else { a + 1 };
            let b0 = if b < i { b } else { b + 1 };
            assert(post.entries@[a] == pre.entries@[a0]);
            assert(post.entries@[b] == pre.entries@[b0]);
        }
    }
    assert(!post.has_session(gi)) by {
        if post.has_session(gi) {
            let k = post.entry_index(gi);
            assert(post.entries@[k].guild_id == gi);
            let k0 = if k < i { k } else { k + 1 };
            assert(pre.entries@[k0].guild_id == gi);
            assert(k0 != i);
            assert(pre.entries@[k0].guild_id != pre.entries@[i].guild_id);
        }
    }
    assert forall|g: u64| g != gi implies post.has_session(g) == pre.has_session(g)
        && post.queue_of(g) == pre.queue_of(g) && post.channel_of(g) == pre.channel_of(g) by {
        if pre.has_session(g) {
            let k = pre.entry_index(g);
            pre.lemma_entry_at(k, g);
            assert(pre.entries@[k].guild_id == g);
            assert(k != i);
            let k1 = if k < i { k } else { k - 1 };
            assert(post.entries@[k1] == pre.entries@[k]);
            post.lemma_entry_at(k1, g);
        } else {
            if post.has_session(g) {
                let k = post.entry_index(g);
                assert(post.entries@[k].guild_id == g);
                let k0 = if k < i { k } else { k + 1 };
                assert(pre.entries@[k0].guild_id == g);
                assert(pre.has_session(g));
            }
        }
    }
}

/// The warning shown when the invoking user is not in a voice channel.
pub open spec fn spec_not_in_voice_text() -> Seq<char> {
    "You have to be in a voice channel to execute commands!"@
}

/// The reply to a successful join.
pub open spec fn spec_joined_text() -> Seq<char> {
    "Let's jam!"@
}

/// The notice shown when the track source could not be constructed.
pub open spec fn spec_source_failed_text() -> Seq<char> {
    "An error occurred while constructing the source"@
}

/// The farewell shown when the session is torn down.
pub open spec fn spec_farewell_text() -> Seq<char> {
    "Bye 👋"@
}

/// The notice shown when a command needs a session and none exists.
pub open spec fn spec_no_session_text() -> Seq<char> {
    "I'm not in a voice channel"@
}

/// Check that the invoking user sits in a voice channel; hand back the
/// warning to show them when they do not.
pub fn validate_voice_channel(user_channel: Option<u64>) -> (r: Option<String>)
    ensures
        match r {
            Option::Some(m) => user_channel is None && m@ == spec_not_in_voice_text(),
            Option::None => user_channel is Some,
        },
{
    match user_channel {
        Option::Some(_) => Option::None,
        Option::None => Option::Some(
            String::from_str("You have to be in a voice channel to execute commands!"),
        ),
    }
}

/// The combined running time of the queued tracks, in seconds.
pub open spec fn spec_queue_duration(q: Seq<TrackMetaView>) -> int
    decreases q.len(),
{
    if q.len() == 0 {
        0
    } else {
        spec_queue_duration(q.drop_last()) + q.last().duration_secs
    }
}

proof fn lemma_queue_duration_take(q: Seq<TrackMetaView>, n: int)
    requires
        0 <= n <= q.len(),
    ensures
        spec_queue_duration(q.take(n)) <= spec_queue_duration(q),
    decreases q.len() - n,
{
    if n == q.len() {
        assert(q.take(n) =~= q);
    } else {
        lemma_queue_duration_take(q, n + 1);
        assert(q.take(n + 1).drop_last() =~= q.take(n));
        assert(q.take(n + 1).last() == q[n]);
    }
}

/// How long until a track queued at the tail starts playing: the queue's
/// combined running time less what the current track has already played.
pub open spec fn spec_seconds_until(q: Seq<TrackMetaView>, elapsed_secs: u64) -> u64
    recommends
        spec_queue_duration(q) <= u64::MAX,
        q.len() > 0 ==> elapsed_secs <= spec_queue_duration(q),
{
    (spec_queue_duration(q) - (if q.len() == 0 {
        0int
    } else {
        elapsed_secs as int
    })) as u64
}

fn queue_duration_sum(queue: &Vec<TrackMeta>) -> (s: u64)
    requires
        spec_queue_duration(track_views(queue@)) <= u64::MAX,
    ensures
        s as int == spec_queue_duration(track_views(queue@)),
{
    let ghost q = track_views(queue@);
    let mut s: u64 = 0;
    let mut i: usize = 0;
    while i < queue.len()
        invariant
            i <= queue@.len(),
            q == track_views(queue@),
            spec_queue_duration(q) <= u64::MAX,
            s as int == spec_queue_duration(q.take(i as int)),
        decreases queue@.len() - i,
    {
        proof {
            lemma_queue_duration_take(q, i as int + 1);
            assert(q.take(i as int + 1).drop_last() =~= q.take(i as int));
            assert(q.take(i as int + 1).last() == q[i as int]);
        }
        s = s + queue[i].duration_secs;
        i = i + 1;
    }
    proof {
        assert(q.take(queue@.len() as int) =~= q);
    }
    s
}

/// Build the replies sent when a track is queued up: the announcement, and,
/// when the queue was empty, the now-playing notice for the new track.
pub fn build_embeds_on_play(queue: &Vec<TrackMeta>, elapsed_secs: u64, meta: &TrackMeta) -> (r:
    (Embed, Option<Embed>))
    requires
        spec_queue_duration(track_views(queue@)) <= u64::MAX,
        queue@.len() > 0 ==> elapsed_secs as int <= spec_queue_duration(track_views(queue@)),
        queue@.len() + 1 <= u64::MAX,
    ensures
        r.0@ == spec_embed_queued_up(
            meta@,
            (queue@.len() + 1) as u64,
            spec_seconds_until(track_views(queue@), elapsed_secs),
        ),
        match r.1 {
            Option::Some(e) => queue@.len() == 0 && e@ == spec_embed_currently_playing(meta@, 0),
            Option::None => queue@.len() > 0,
        },
{
    let position_in_queue: u64 = queue.len() as u64 + 1;
    let total: u64 = queue_duration_sum(queue);
    let elapsed_used: u64 = if queue.len() == 0 {
        0
    } else {
        elapsed_secs
    };
    proof {
        if queue@.len() == 0 {
            assert(track_views(queue@).len() == 0);
            assert(spec_queue_duration(track_views(queue@)) == 0);
        }
    }
    let seconds_until: u64 = total - elapsed_used;
    let announcement = build_embed_queued_up(meta, position_in_queue, seconds_until);
    let now_playing = if queue.len() == 0 {
        Option::Some(build_embed_currently_playing(meta, 0))
    } else {
        Option::None
    };
    (announcement, now_playing)
}

/// The queue left by playing a run of tracks, in order, into an empty
/// queue: each play appends one entry at the tail.
pub open spec fn queue_after_plays(tracks: Seq<TrackMetaView>) -> Seq<TrackMetaView>
    decreases tracks.len(),
{
    if tracks.len() == 0 {
        Seq::empty()
    } else {
        queue_after_plays(tracks.drop_last()).push(tracks.last())
    }
}

/// Law: playing N tracks one after another into an empty queue leaves a
/// queue of exactly those N tracks, in call order.
pub proof fn lemma_queue_after_plays(tracks: Seq<TrackMetaView>)
    ensures
        queue_after_plays(tracks) == tracks,
    decreases tracks.len(),
{
    if tracks.len() == 0 {
        assert(queue_after_plays(tracks) =~= tracks);
    } else {
        lemma_queue_after_plays(tracks.drop_last());
        assert(queue_after_plays(tracks) =~= tracks);
    }
}

/// What the play command hands back to the transport layer.
pub enum PlayOutcome {
    /// The invoking user is not in a voice channel; show them the warning.
    NotInVoice(String),
    /// The track source could not be constructed; show the notice.
    SourceFailed(String),
    /// The track was queued: the announcement, and the now-playing notice
    /// when the queue was empty before.
    Queued { announcement: Embed, now_playing: Option<Embed> },
}

impl Sessions {
    /// Connect the guild to the user's voice channel, keeping whatever was
    /// queued; refused with a warning when the user is in no channel.
    pub fn join(&mut self, guild_id: u64, user_channel: Option<u64>) -> (r: Reply)
        requires
            old(self).wf(),
        ensures
            final(self).wf(),
            match user_channel {
                Option::None => *final(self) == *old(self) && (r matches Reply::Text(m) && m@
                    == spec_not_in_voice_text()),
                Option::Some(ch) => {
                    &&& final(self).has_session(guild_id)
                    &&& final(self).channel_of(guild_id) == ch
                    &&& final(self).queue_of(guild_id) == old(self).queue_of(guild_id)
                    &&& final(self).session_count() == old(self).session_count() + (if old(
                        self,
                    ).has_session(guild_id) {
                        0int
                    } else {
                        1int
                    })
                    &&& forall|g: u64|
                        g != guild_id ==> final(self).has_session(g) == old(self).has_session(g)
                            && final(self).queue_of(g) == old(self).queue_of(g) && final(self).channel_of(g)
                            == old(self).channel_of(g)
                    &&& r matches Reply::Text(m) && m@ == spec_joined_text()
                },
            },
    {
        match validate_voice_channel(user_channel) {
            Option::Some(m) => Reply::Text(m),
            Option::None => {
                let ch: u64 = user_channel.unwrap();
                match self.find_index(guild_id) {
                    Option::Some(i) => {
                        proof {
                            self.lemma_entry_at(i as int, guild_id);
                        }
                        let mut e = self.entries.remove(i);
                        e.session.channel_id = ch;
                        self.entries.insert(i, e);
                        proof {
                            assert(self.entries@ =~= old(self).entries@.update(
                                i as int,
                                self.entries@[i as int],
                            ));
                            lemma_frame_update(
                                *old(self),
                                *self,
                                i as int,
                                self.entries@[i as int],
                            );
                        }
                        Reply::Text(String::from_str("Let's jam!"))
                    },
                    Option::None => {
                        self.entries.push(
                            Entry {
                                guild_id,
                                session: Session { channel_id: ch, queue: Vec::new() },
                            },
                        );
                        proof {
                            lemma_frame_push(
                                *old(self),
                                *self,
                                self.entries@[self.entries@.len() - 1],
                            );
                            assert(track_views(self.entries@[self.entries@.len()
                                - 1].session.queue@) =~= Seq::<TrackMetaView>::empty());
                        }
                        Reply::Text(String::from_str("Let's jam!"))
                    },
                }
            },
        }
    }

    /// Queue a sourced track for the guild, connecting to the user's voice
    /// channel first when no session exists. Hands back the announcement
    /// and, when the queue was empty, the now-playing notice; a user in no
    /// voice channel or a failed source is reported instead, the queue
    /// untouched.
    pub fn play(
        &mut self,
        guild_id: u64,
        user_channel: Option<u64>,
        source: Option<TrackMeta>,
        elapsed_secs: u64,
    ) -> (r: PlayOutcome)
        requires
            old(self).wf(),
            user_channel is Some && source is Some ==> spec_queue_duration(
                old(self).queue_of(guild_id),
            ) <= u64::MAX,
            user_channel is Some && source is Some && old(self).queue_of(guild_id).len() > 0
                ==> elapsed_secs as int <= spec_queue_duration(old(self).queue_of(guild_id)),
            user_channel is Some && source is Some ==> old(self).queue_of(guild_id).len() + 1
                <= u64::MAX,
        ensures
            final(self).wf(),
            match user_channel {
                Option::None => *final(self) == *old(self) && (r matches PlayOutcome::NotInVoice(m)
                    && m@ == spec_not_in_voice_text()),
                Option::Some(ch) => {
                    &&& final(self).has_session(guild_id)
                    &&& final(self).channel_of(guild_id) == (if old(self).has_session(guild_id) {
                        old(self).channel_of(guild_id)
                    } else {
                        ch
                    })
                    &&& final(self).session_count() == old(self).session_count() + (if old(
                        self,
                    ).has_session(guild_id) {
                        0int
                    } else {
                        1int
                    })
                    &&& forall|g: u64|
                        g != guild_id ==> final(self).has_session(g) == old(self).has_session(g)
                            && final(self).queue_of(g) == old(self).queue_of(g) && final(self).channel_of(g)
                            == old(self).channel_of(g)
                    &&& match source {
                        Option::None => final(self).queue_of(guild_id) == old(self).queue_of(guild_id)
                            && (r matches PlayOutcome::SourceFailed(m) && m@
                            == spec_source_failed_text()),
                        Option::Some(track) => {
                            &&& final(self).queue_of(guild_id) == old(self).queue_of(guild_id).push(
                                track@,
                            )
                            &&& r matches PlayOutcome::Queued { announcement, now_playing }
                                && announcement@ == spec_embed_queued_up(
                                track@,
                                (old(self).queue_of(guild_id).len() + 1) as u64,
                                spec_seconds_until(old(self).queue_of(guild_id), elapsed_secs),
                            ) && (match now_playing {
                                Option::Some(e) => old(self).queue_of(guild_id).len() == 0
                                    && e@ == spec_embed_currently_playing(track@, 0),
                                Option::None => old(self).queue_of(guild_id).len() > 0,
                            })
                        },
                    }
                },
            },
    {
        match validate_voice_channel(user_channel) {
            Option::Some(m) => PlayOutcome::NotInVoice(m),
            Option::None => {
                let ch: u64 = user_channel.unwrap();
                let i: usize = match self.find_index(guild_id) {
                    Option::Some(i) => {
                        proof {
                            self.lemma_entry_at(i as int, guild_id);
                        }
                        i
                    },
                    Option::None => {
                        self.entries.push(
                            Entry {
                                guild_id,
                                session: Session { channel_id: ch, queue: Vec::new() },
                            },
                        );
                        proof {
                            lemma_frame_push(
                                *old(self),
                                *self,
                                self.entries@[self.entries@.len() - 1],
                            );
                            assert(track_views(self.entries@[self.entries@.len()
                                - 1].session.queue@) =~= Seq::<TrackMetaView>::empty());
                        }
                        self.entries.len() - 1
                    },
                };
                let ghost mid = *self;
                proof {
                    mid.lemma_entry_at(i as int, guild_id);
                }
                match source {
                    Option::None => PlayOutcome::SourceFailed(
                        String::from_str("An error occurred while constructing the source"),
                    ),
                    Option::Some(track) => {
                        let mut e = self.entries.remove(i);
                        let embeds = build_embeds_on_play(&e.session.queue, elapsed_secs, &track);
                        e.session.queue.push(track);
                        self.entries.insert(i, e);
                        proof {
                            assert(self.entries@ =~= mid.entries@.update(
                                i as int,
                                self.entries@[i as int],
                            ));
                            lemma_frame_update(mid, *self, i as int, self.entries@[i as int]);
                            assert(self.queue_of(guild_id) =~= old(self).queue_of(
                                guild_id,
                            ).push(track@));
                        }
                        PlayOutcome::Queued { announcement: embeds.0, now_playing: embeds.1 }
                    },
                }
            },
        }
    }

    /// The notice for the track now playing, `elapsed_secs` seconds in, or
    /// the empty-queue notice when nothing plays.
    pub fn current(&self, guild_id: u64, elapsed_secs: u64) -> (r: Embed)
        requires
            self.wf(),
            self.has_session(guild_id),
            self.queue_of(guild_id).len() > 0 ==> elapsed_secs <= self.queue_of(
                guild_id,
            )[0].duration_secs,
        ensures
            r@ == (if self.queue_of(guild_id).len() > 0 {
                spec_embed_currently_playing(self.queue_of(guild_id)[0], elapsed_secs)
            } else {
                spec_embed_empty_queue()
            }),
    {
        let i = self.find_index(guild_id).unwrap();
        proof {
            self.lemma_entry_at(i as int, guild_id);
        }
        let e = &self.entries[i];
        if e.session.queue.len() > 0 {
            build_embed_currently_playing(&e.session.queue[0], elapsed_secs)
        } else {
            build_embed_empty_queue()
        }
    }

    /// Drop the track now playing so the next one takes its place; with an
    /// empty queue nothing changes. Hands back whether a track was dropped.
    pub fn skip(&mut self, guild_id: u64) -> (r: bool)
        requires
            old(self).wf(),
            old(self).has_session(guild_id),
        ensures
            final(self).wf(),
            r == (old(self).queue_of(guild_id).len() > 0),
            final(self).queue_of(guild_id) == (if old(self).queue_of(guild_id).len() > 0 {
                old(self).queue_of(guild_id).drop_first()
            } else {
                old(self).queue_of(guild_id)
            }),
            old(self).queue_of(guild_id).len() == 0 ==> *final(self) == *old(self),
            final(self).has_session(guild_id),
            final(self).channel_of(guild_id) == old(self).channel_of(guild_id),
            final(self).session_count() == old(self).session_count(),
            forall|g: u64|
                g != guild_id ==> final(self).has_session(g) == old(self).has_session(g)
                    && final(self).queue_of(g) == old(self).queue_of(g) && final(self).channel_of(g) == old(
                    self,
                ).channel_of(g),
    {
        let i = self.find_index(guild_id).unwrap();
        proof {
            self.lemma_entry_at(i as int, guild_id);
        }
        if self.entries[i].session.queue.len() == 0 {
            return false;
        }
        let mut e = self.entries.remove(i);
        e.session.queue.remove(0);
        self.entries.insert(i, e);
        proof {
            assert(self.entries@ =~= old(self).entries@.update(i as int, self.entries@[i as int]));
            lemma_frame_update(*old(self), *self, i as int, self.entries@[i as int]);
            assert(self.queue_of(guild_id) =~= old(self).queue_of(guild_id).drop_first());
        }
        true
    }

    /// Tear the guild's session down with a farewell; without one, report
    /// that nothing is connected and change nothing.
    pub fn leave(&mut self, guild_id: u64) -> (r: Reply)
        requires
            old(self).wf(),
        ensures
            final(self).wf(),
            old(self).has_session(guild_id) ==> {
                &&& !final(self).has_session(guild_id)
                &&& final(self).queue_of(guild_id) == Seq::<TrackMetaView>::empty()
                &&& final(self).session_count() == old(self).session_count() - 1
                &&& forall|g: u64|
                    g != guild_id ==> final(self).has_session(g) == old(self).has_session(g)
                        && final(self).queue_of(g) == old(self).queue_of(g) && final(self).channel_of(g)
                        == old(self).channel_of(g)
                &&& r matches Reply::Text(m) && m@ == spec_farewell_text()
            },
            !old(self).has_session(guild_id) ==> *final(self) == *old(self) && (r matches Reply::Text(m)
                && m@ == spec_no_session_text()),
    {
        match self.find_index(guild_id) {
            Option::Some(i) => {
                proof {
                    self.lemma_entry_at(i as int, guild_id);
                }
                self.entries.remove(i);
                proof {
                    lemma_frame_remove(*old(self), *self, i as int);
                }
                Reply::Text(String::from_str("Bye 👋"))
            },
            Option::None => Reply::Text(String::from_str("I'm not in a voice channel")),
        }
    }

    /// The listing of the guild's queue, numbered in play order.
    pub fn queue(&self, guild_id: u64) -> (r: Embed)
        requires
            self.wf(),
            self.has_session(guild_id),
        ensures
            r@ == spec_current_queue_embed(self.queue_of(guild_id)),
    {
        let i = self.find_index(guild_id).unwrap();
        proof {
            self.lemma_entry_at(i as int, guild_id);
        }
        build_current_queue_embed(&self.entries[i].session.queue)
    }

    /// Consume one track-finished event: drop the finished head and hand
    /// back the notice for the track now playing, `elapsed_secs` seconds
    /// in, or the empty-queue notice when nothing is left.
    pub fn on_track_end(&mut self, guild_id: u64, elapsed_secs: u64) -> (r: Embed)
        requires
            old(self).wf(),
            old(self).has_session(guild_id),
            old(self).queue_of(guild_id).len() > 1 ==> elapsed_secs <= old(self).queue_of(
                guild_id,
            )[1].duration_secs,
        ensures
            final(self).wf(),
            final(self).queue_of(guild_id) == (if old(self).queue_of(guild_id).len() > 0 {
                old(self).queue_of(guild_id).drop_first()
            } else {
                old(self).queue_of(guild_id)
            }),
            r@ == (if final(self).queue_of(guild_id).len() > 0 {
                spec_embed_currently_playing(final(self).queue_of(guild_id)[0], elapsed_secs)
            } else {
                spec_embed_empty_queue()
            }),
            final(self).has_session(guild_id),
            final(self).channel_of(guild_id) == old(self).channel_of(guild_id),
            final(self).session_count() == old(self).session_count(),
            forall|g: u64|
                g != guild_id ==> final(self).has_session(g) == old(self).has_session(g)
                    && final(self).queue_of(g) == old(self).queue_of(g) && final(self).channel_of(g) == old(
                    self,
                ).channel_of(g),
    {
        let i = self.find_index(guild_id).unwrap();
        proof {
            self.lemma_entry_at(i as int, guild_id);
        }
        let mut e = self.entries.remove(i);
        if e.session.queue.len() > 0 {
            e.session.queue.remove(0);
        }
        let r = if e.session.queue.len() > 0 {
            build_embed_currently_playing(&e.session.queue[0], elapsed_secs)
        } else {
            build_embed_empty_queue()
        };
        self.entries.insert(i, e);
        proof {
            assert(self.entries@ =~= old(self).entries@.update(i as int, self.entries@[i as int]));
            lemma_frame_update(*old(self), *self, i as int, self.entries@[i as int]);
            if old(self).queue_of(guild_id).len() > 0 {
                assert(self.queue_of(guild_id) =~= old(self).queue_of(guild_id).drop_first());
            } else {
                assert(self.queue_of(guild_id) =~= old(self).queue_of(guild_id));
            }
        }
        r
    }
}

} // verus!

