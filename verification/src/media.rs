use vstd::prelude::*;

verus! {

/// Outcome of one boot-screen probe.
#[derive(Clone, Copy, Debug, PartialEq, Eq, Structural)]
pub enum CheckStatus {
    Pending,
    Passed,
    Warn,
    Fail,
}

/// A looping playlist: `tracks` are URLs, `index` the one playing.
#[derive(Clone, Debug)]
pub struct MusicQueue {
    pub tracks: Vec<String>,
    pub index: usize,
}

impl MusicQueue {
    /// The index reached from `index` by one step forward in a list of `len` tracks.
    pub open spec fn next_index(index: int, len: int) -> int {
        if len == 0 {
            index
        } else {
            (index + 1) % len
        }
    }

    /// The index reached from `index` by one step back in a list of `len` tracks.
    pub open spec fn prev_index(index: int, len: int) -> int {
        if len == 0 {
            index
        } else {
            (index + len - 1) % len
        }
    }

    /// `after` is `before` moved one track forward: same tracks, next index.
    pub open spec fn stepped_forward(before: MusicQueue, after: MusicQueue) -> bool {
        &&& after.tracks == before.tracks
        &&& after.index == Self::next_index(before.index as int, before.tracks@.len() as int)
    }

    /// `after` is `before` moved one track back: same tracks, previous index.
    pub open spec fn stepped_back(before: MusicQueue, after: MusicQueue) -> bool {
        &&& after.tracks == before.tracks
        &&& after.index == Self::prev_index(before.index as int, before.tracks@.len() as int)
    }

    /// The track playing, if `index` points into `tracks`.
    pub open spec fn current_track(self) -> Option<Seq<char>> {
        if self.index < self.tracks@.len() {
            Some(self.tracks@[self.index as int]@)
        } else {
            None
        }
    }

    /// An empty queue positioned at its start.
    pub fn new() -> (q: Self)
        ensures
            q.tracks@.len() == 0,
            q.index == 0,
    {
        MusicQueue { tracks: Vec::new(), index: 0 }
    }

    /// Replaces the playlist and rewinds to its first track.
    pub fn load(&mut self, tracks: Vec<String>)
        ensures
            final(self).tracks@ == tracks@,
            final(self).index == 0,
    {
        self.tracks = tracks;
        self.index = 0;
    }

    /// The URL of the track playing; `None` when `index` is past the end.
    pub fn current(&self) -> (r: Option<&str>)
        ensures
            match r {
                Some(s) => self.current_track() == Some(s@),
                None => self.current_track() is None,
            },
            self.index < self.tracks@.len() ==> (r matches Some(s) && s@
                == self.tracks@[self.index as int]@),
            self.index >= self.tracks@.len() ==> r is None,
    {
        if self.index < self.tracks.len() {
            Some(self.tracks[self.index].as_str())
        } else {
            None
        }
    }

    /// Steps to the following track, wrapping from the last to the first.
    /// An empty queue is left as it is.
    pub fn next(&mut self)
        requires
            old(self).tracks@.len() == 0 || old(self).index < usize::MAX,
        ensures
            Self::stepped_forward(*old(self), *final(self)),
    {
        if self.tracks.len() == 0 {
            return;
        }
        self.index = (self.index + 1) % self.tracks.len();
    }

    /// Steps to the previous track, wrapping from the first to the last.
    /// An empty queue is left as it is.
    pub fn prev(&mut self)
        requires
            old(self).tracks@.len() == 0 || old(self).index + old(self).tracks@.len()
                <= usize::MAX,
        ensures
            Self::stepped_back(*old(self), *final(self)),
    {
        if self.tracks.len() == 0 {
            return;
        }
        self.index = (self.index + self.tracks.len() - 1) % self.tracks.len();
    }
}

impl Default for MusicQueue {
    fn default() -> (q: Self)
        ensures
            q.tracks@.len() == 0,
            q.index == 0,
    {
        MusicQueue::new()
    }
}

/// `index` advanced `n` steps forward through a list of `len` tracks.
pub open spec fn advance(index: int, len: int, n: nat) -> int
    decreases n,
{
    if n == 0 {
        index
    } else {
        MusicQueue::next_index(advance(index, len, (n - 1) as nat), len)
    }
}

/// Stepping forward and then back returns to the track one started from, and
/// so does stepping back and then forward.
pub proof fn lemma_next_prev_inverse(index: int, len: int)
    requires
        0 <= index < len,
    ensures
        MusicQueue::prev_index(MusicQueue::next_index(index, len), len) == index,
        MusicQueue::next_index(MusicQueue::prev_index(index, len), len) == index,
{
    if index + 1 < len {
        assert((index + 1) % len == index + 1) by (nonlinear_arith)
            requires 0 <= index + 1 < len;
        assert((index + 1 + len - 1) % len == index) by (nonlinear_arith)
            requires 0 <= index, index + 1 < len, (index + 1 + len - 1) == index + len;
    } else {
        assert((index + 1) % len == 0) by (nonlinear_arith)
            requires index + 1 == len, len > 0;
        assert((0 + len - 1) % len == index) by (nonlinear_arith)
            requires index + 1 == len, len > 0;
    }
    if index == 0 {
        assert((index + len - 1) % len == len - 1) by (nonlinear_arith)
            requires index == 0, len > 0;
        assert((len - 1 + 1) % len == 0) by (nonlinear_arith)
            requires len > 0;
    } else {
        assert((index + len - 1) % len == index - 1) by (nonlinear_arith)
            requires 0 < index < len;
        assert((index - 1 + 1) % len == index) by (nonlinear_arith)
            requires 0 < index < len;
    }
}

/// On a queue positioned on a track, `next` undoes `prev` and `prev` undoes
/// `next`: the queue is back on the track it started from, with the same
/// tracks.
pub proof fn lemma_queue_steps_undo(q0: MusicQueue, q1: MusicQueue, q2: MusicQueue)
    requires
        q0.tracks@.len() > 0,
        q0.index < q0.tracks@.len(),
    ensures
        MusicQueue::stepped_back(q0, q1) && MusicQueue::stepped_forward(q1, q2) ==> q2.tracks
            == q0.tracks && q2.index == q0.index,
        MusicQueue::stepped_forward(q0, q1) && MusicQueue::stepped_back(q1, q2) ==> q2.tracks
            == q0.tracks && q2.index == q0.index,
{
    lemma_next_prev_inverse(q0.index as int, q0.tracks@.len() as int);
    lemma_steps_stay_in_range(q0.index as int, q0.tracks@.len() as int);
}

/// The track playing is the one at the queue's index whenever the index
/// points into the tracks, whatever the index, and there is none otherwise.
pub proof fn lemma_current_is_track_at_index(q: MusicQueue)
    ensures
        q.index < q.tracks@.len() ==> q.current_track() == Some(q.tracks@[q.index as int]@),
        q.index >= q.tracks@.len() ==> q.current_track() is None,
{
}

/// A queue that reached its index by `n` steps forward from the first track
/// plays track `n % len`.
pub proof fn lemma_current_after_steps(q: MusicQueue, n: nat)
    requires
        q.tracks@.len() > 0,
        q.index == advance(0, q.tracks@.len() as int, n),
    ensures
        q.current_track() == Some(q.tracks@[(n as int) % (q.tracks@.len() as int)]@),
{
    let len = q.tracks@.len() as int;
    lemma_advance_is_modular(0, len, n);
    assert(0 <= (n as int) % len < len) by (nonlinear_arith)
        requires len > 0;
}

/// A queue positioned on a track stays positioned on a track after a step in
/// either direction.
pub proof fn lemma_steps_stay_in_range(index: int, len: int)
    requires
        0 <= index < len,
    ensures
        0 <= MusicQueue::next_index(index, len) < len,
        0 <= MusicQueue::prev_index(index, len) < len,
{
    assert(0 <= (index + 1) % len < len) by (nonlinear_arith)
        requires len > 0;
    assert(0 <= (index + len - 1) % len < len) by (nonlinear_arith)
        requires len > 0;
}

/// After `n` forward steps from a track the queue plays track `(index + n) % len`.
pub proof fn lemma_advance_is_modular(index: int, len: int, n: nat)
    requires
        0 <= index < len,
    ensures
        advance(index, len, n) == (index + n) % len,
    decreases n,
{
    if n == 0 {
        assert(index % len == index) by (nonlinear_arith)
            requires 0 <= index < len;
    } else {
        lemma_advance_is_modular(index, len, (n - 1) as nat);
        let k = index + n - 1;
        assert(((k % len) + 1) % len == (k + 1) % len) by {
            vstd::arithmetic::div_mod::lemma_add_mod_noop(k, 1, len);
            assert(1int % len == 1 || len == 1) by (nonlinear_arith)
                requires len > 0;
            if len == 1 {
                assert((k + 1) % 1 == 0) by (nonlinear_arith);
                assert(((k % 1) + 1) % 1 == 0) by (nonlinear_arith);
            }
        }
    }
}

/// Stepping forward once per track brings the queue back to where it started.
pub proof fn lemma_full_cycle_returns(index: int, len: int)
    requires
        0 <= index < len,
    ensures
        advance(index, len, len as nat) == index,
{
    lemma_advance_is_modular(index, len, len as nat);
    assert((index + len) % len == index) by (nonlinear_arith)
        requires 0 <= index < len;
}

} // verus!
