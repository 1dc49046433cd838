//! The state that the audio callback keeps between two calls: the running
//! playbacks, and how far the samples in the mix buffer have been played.
//!
//! The decoder writes samples into the mix buffer from its start and says how
//! many it wrote.  The samples `read_index .. frames_decoded` of the buffer
//! are decoded and not yet played (the *pending* samples).  To fill an output
//! buffer the callback first plays what is pending; where that is not enough
//! it lets the decoder refill the mix buffer, as often as needed, and plays
//! from the start of each refill.  Each step below states that no sample is
//! lost or played twice: what it writes to the output, followed by what is
//! pending after it, is what was pending before it followed by what the
//! decoder added.

use vstd::prelude::*;
use crate::playback::HippoPlayback;

verus! {

/// The playback whose samples the callback plays among `players`: the first
/// one, unless there is none or it is paused.
pub open spec fn playing<P>(players: Seq<HippoPlayback<P>>) -> Option<HippoPlayback<P>> {
    if players.len() > 0 && !players[0].is_paused {
        Some(players[0])
    } else {
        None
    }
}

/// The playbacks after a pause request: a single running playback is paused
/// where `pause` holds and `force` does not, and resumed otherwise; any other
/// list stays as it is.
pub open spec fn after_pause_request<P>(players: Seq<HippoPlayback<P>>, pause: bool, force: bool) -> Seq<
    HippoPlayback<P>,
> {
    if players.len() == 1 {
        seq![HippoPlayback { is_paused: pause && !force, ..players[0] }]
    } else {
        players
    }
}

/// Playbacks and playback position shared with the audio callback.
pub struct DataCallback<P> {
    players: Vec<HippoPlayback<P>>,
    read_index: usize,
    frames_decoded: usize,
    mix_len: usize,
}

impl<P> DataCallback<P> {
    #[verifier::type_invariant]
    spec fn well_formed(self) -> bool {
        &&& self.read_index <= self.frames_decoded <= self.mix_len
        &&& self.players.len() <= 1
    }

    /// The running playbacks; there is never more than one.
    pub closed spec fn player_list(self) -> Seq<HippoPlayback<P>> {
        self.players@
    }

    /// Position in the mix buffer of the next sample to play.
    pub closed spec fn read_pos(self) -> int {
        self.read_index as int
    }

    /// Number of samples the decoder last wrote into the mix buffer.
    pub closed spec fn decoded_len(self) -> int {
        self.frames_decoded as int
    }

    /// Length of the mix buffer that the callback works on.
    pub closed spec fn buffer_len(self) -> int {
        self.mix_len as int
    }

    /// The next sample to play lies within what was decoded, which lies
    /// within the mix buffer.
    pub open spec fn positions_ok(self) -> bool {
        0 <= self.read_pos() <= self.decoded_len() <= self.buffer_len()
    }

    /// The samples of `mix` decoded and not yet played.
    pub open spec fn pending<S>(self, mix: Seq<S>) -> Seq<S> {
        mix.subrange(self.read_pos(), self.decoded_len())
    }

    /// A callback for a mix buffer of `mix_len` samples, with no playback and
    /// nothing decoded.
    pub fn new(mix_len: usize) -> (r: Self)
        ensures
            r.player_list() == Seq::<HippoPlayback<P>>::empty(),
            r.read_pos() == 0,
            r.decoded_len() == 0,
            r.buffer_len() == mix_len,
            r.positions_ok(),
    {
        DataCallback { players: Vec::new(), read_index: 0, frames_decoded: 0, mix_len }
    }

    /// Length of the mix buffer that the callback works on.
    pub fn mix_len(&self) -> (r: usize)
        ensures
            r == self.buffer_len(),
            self.positions_ok(),
    {
        proof {
            use_type_invariant(self);
        }
        self.mix_len
    }

    /// Number of samples decoded and not yet played.
    pub fn pending_len(&self) -> (r: usize)
        ensures
            r == self.decoded_len() - self.read_pos(),
            self.positions_ok(),
    {
        proof {
            use_type_invariant(self);
        }
        self.frames_decoded - self.read_index
    }

    /// The running playbacks.
    pub fn players(&self) -> (r: &Vec<HippoPlayback<P>>)
        ensures
            r@ == self.player_list(),
            r@.len() <= 1,
    {
        proof {
            use_type_invariant(self);
        }
        &self.players
    }

    /// The playback the callback draws samples from: the first one, unless
    /// there is none or it is paused, in which case the output stays silent.
    pub fn active_playback(&self) -> (r: Option<&HippoPlayback<P>>)
        ensures
            r is None <==> playing(self.player_list()) is None,
            r matches Some(p) ==> playing(self.player_list()) == Some(*p),
            r is None <==> (self.player_list().len() == 0 || self.player_list()[0].is_paused),
            r matches Some(p) ==> *p == self.player_list()[0] && !p.is_paused,
    {
        if self.players.len() == 0 {
            return None;
        }
        let first = &self.players[0];
        if first.is_paused {
            None
        } else {
            Some(first)
        }
    }

    /// Whether the decoder has not yet filled the mix buffer.
    pub fn needs_decode(&self) -> (r: bool)
        ensures
            r == (self.decoded_len() == 0),
    {
        self.frames_decoded == 0
    }

    /// The decoder has filled the empty mix buffer with `frame_count` samples;
    /// they are all pending.
    pub fn begin_stream(&mut self, frame_count: usize)
        requires
            old(self).decoded_len() == 0,
            frame_count <= old(self).buffer_len(),
        ensures
            final(self).read_pos() == 0,
            final(self).decoded_len() == frame_count,
            final(self).buffer_len() == old(self).buffer_len(),
            final(self).positions_ok(),
            final(self).player_list() == old(self).player_list(),
    {
        proof {
            use_type_invariant(&*self);
        }
        self.frames_decoded = frame_count;
    }

    /// Plays pending samples into `out`.  Where enough are pending, `out` is
    /// filled with the first of them and the rest stay pending; otherwise all
    /// of them go to the start of `out`, nothing stays pending, and the number
    /// written tells where the decoder's next samples go.
    pub fn copy_buffered<S: Copy>(&mut self, mix: &[S], out: &mut [S]) -> (written: usize)
        requires
            mix@.len() == old(self).buffer_len(),
        ensures
            ({
                let pending = old(self).pending(mix@);
                let n = old(out)@.len();
                if pending.len() >= n {
                    &&& written == n
                    &&& final(out)@ == pending.take(n as int)
                    &&& final(self).read_pos() == old(self).read_pos() + n
                } else {
                    &&& written == pending.len()
                    &&& final(out)@ == pending + old(out)@.skip(written as int)
                    &&& final(self).read_pos() == old(self).decoded_len()
                }
            }),
            final(out)@.len() == old(out)@.len(),
            final(out)@.take(written as int) + final(self).pending(mix@) == old(self).pending(mix@),
            final(self).decoded_len() == old(self).decoded_len(),
            final(self).buffer_len() == old(self).buffer_len(),
            final(self).positions_ok(),
            final(self).player_list() == old(self).player_list(),
    {
        proof {
            use_type_invariant(&*self);
        }
        let n = out.len();
        let start = self.read_index;
        let decoded = self.frames_decoded;
        let available = decoded - start;
        let count = if available >= n { n } else { available };
        let ghost mix_seq = mix@;
        let ghost out0 = out@;
        let mut k: usize = 0;
        while k < count
            invariant
                k <= count <= n,
                count <= available,
                start + available == decoded,
                decoded <= mix_seq.len(),
                mix@ == mix_seq,
                out@.len() == n,
                forall|j: int| 0 <= j < k ==> out@[j] == mix_seq[start + j],
                forall|j: int| k <= j < n ==> out@[j] == out0[j],
            decreases count - k,
        {
            out[k] = mix[start + k];
            k = k + 1;
        }
        if available >= n {
            self.read_index = start + n;
            assert(out@ =~= old(self).pending(mix@).take(n as int));
        } else {
            self.read_index = self.frames_decoded;
            assert(out@ =~= old(self).pending(mix@) + out0.skip(count as int));
        }
        assert(out@.take(count as int) + self.pending(mix@) =~= old(self).pending(mix@));
        count
    }

    /// The decoder has refilled the mix buffer with `frame_count` samples while
    /// nothing was pending; they go to `out` from `offset` on.  Where they
    /// reach the end of `out`, the rest of them stay pending and the result is
    /// `out`'s length; otherwise all of them are written and nothing stays
    /// pending.  The result is where the next samples go.
    pub fn copy_decoded<S: Copy>(
        &mut self,
        mix: &[S],
        frame_count: usize,
        out: &mut [S],
        offset: usize,
    ) -> (next: usize)
        requires
            mix@.len() == old(self).buffer_len(),
            old(self).read_pos() == old(self).decoded_len(),
            frame_count <= mix@.len(),
            offset < old(out)@.len(),
        ensures
            ({
                let chunk = mix@.take(frame_count as int);
                let n = old(out)@.len();
                let left = n - offset;
                if frame_count >= left {
                    &&& next == n
                    &&& final(out)@ == old(out)@.take(offset as int) + chunk.take(left)
                    &&& final(self).read_pos() == left
                    &&& final(self).decoded_len() == frame_count
                } else {
                    &&& next == offset + frame_count
                    &&& final(out)@ == old(out)@.take(offset as int) + chunk + old(out)@.skip(
                        next as int,
                    )
                    &&& final(self).read_pos() == old(self).read_pos()
                    &&& final(self).decoded_len() == old(self).decoded_len()
                }
            }),
            offset < next <= old(out)@.len() || (frame_count == 0 && next == offset),
            final(out)@.len() == old(out)@.len(),
            final(out)@.subrange(offset as int, next as int) + final(self).pending(mix@) == old(
                self,
            ).pending(mix@) + mix@.take(frame_count as int),
            final(self).buffer_len() == old(self).buffer_len(),
            final(self).positions_ok(),
            final(self).player_list() == old(self).player_list(),
    {
        proof {
            use_type_invariant(&*self);
        }
        assert(old(self).pending(mix@) =~= Seq::<S>::empty());
        let n = out.len();
        let left = n - offset;
        let count = if frame_count >= left { left } else { frame_count };
        let ghost mix_seq = mix@;
        let ghost out0 = out@;
        let mut k: usize = 0;
        while k < count
            invariant
                k <= count,
                count <= frame_count,
                frame_count <= mix_seq.len(),
                offset + count <= n,
                mix@ == mix_seq,
                out@.len() == n,
                forall|j: int| 0 <= j < offset ==> out@[j] == out0[j],
                forall|j: int| 0 <= j < k ==> out@[offset + j] == mix_seq[j],
                forall|j: int| offset + k <= j < n ==> out@[j] == out0[j],
            decreases count - k,
        {
            out[offset + k] = mix[k];
            k = k + 1;
        }
        if frame_count >= left {
            self.read_index = 0;
            self.frames_decoded = frame_count;
            self.read_index = left;
            assert(out@ =~= out0.take(offset as int) + mix@.take(frame_count as int).take(
                left as int,
            ));
            assert(out@.subrange(offset as int, n as int) + self.pending(mix@) =~= mix@.take(
                frame_count as int,
            ));
            n
        } else {
            assert(out@ =~= out0.take(offset as int) + mix@.take(frame_count as int) + out0.skip(
                (offset + frame_count) as int,
            ));
            assert(out@.subrange(offset as int, (offset + frame_count) as int) + self.pending(
                mix@,
            ) =~= mix@.take(frame_count as int));
            offset + frame_count
        }
    }

    /// Removes every playback; the playback position is kept.
    pub fn clear_players(&mut self)
        ensures
            final(self).player_list() == Seq::<HippoPlayback<P>>::empty(),
            final(self).read_pos() == old(self).read_pos(),
            final(self).decoded_len() == old(self).decoded_len(),
            final(self).buffer_len() == old(self).buffer_len(),
            final(self).positions_ok(),
    {
        proof {
            use_type_invariant(&*self);
        }
        self.players = Vec::new();
    }

    /// Makes `playback` the one running playback: it replaces the running one,
    /// if any.
    pub fn install_playback(&mut self, playback: HippoPlayback<P>)
        ensures
            final(self).player_list() == seq![playback],
            final(self).read_pos() == old(self).read_pos(),
            final(self).decoded_len() == old(self).decoded_len(),
            final(self).buffer_len() == old(self).buffer_len(),
            final(self).positions_ok(),
    {
        proof {
            use_type_invariant(&*self);
        }
        let mut players = Vec::new();
        std::mem::swap(&mut players, &mut self.players);
        if players.len() == 1 {
            players.set(0, playback);
        } else {
            players.push(playback);
        }
        self.players = players;
    }

    /// Pauses the running playback where `pause` holds and `force` does not,
    /// and resumes it otherwise.  Without a running playback nothing changes.
    pub fn set_paused(&mut self, pause: bool, force: bool)
        ensures
            final(self).player_list() == after_pause_request(old(self).player_list(), pause, force),
            final(self).player_list().len() == old(self).player_list().len(),
            old(self).player_list().len() == 1 ==> {
                &&& final(self).player_list()[0].is_paused == (pause && !force)
                &&& final(self).player_list()[0].plugin_user_data == old(
                    self,
                ).player_list()[0].plugin_user_data
                &&& final(self).player_list()[0].plugin == old(self).player_list()[0].plugin
            },
            old(self).player_list().len() != 1 ==> final(self).player_list() == old(
                self,
            ).player_list(),
            final(self).read_pos() == old(self).read_pos(),
            final(self).decoded_len() == old(self).decoded_len(),
            final(self).buffer_len() == old(self).buffer_len(),
            final(self).positions_ok(),
    {
        proof {
            use_type_invariant(&*self);
        }
        if self.players.len() == 1 {
            let mut players = Vec::new();
            std::mem::swap(&mut players, &mut self.players);
            players[0].is_paused = pause;
            if force {
                players[0].is_paused = false;
            }
            self.players = players;
        }
    }
}

/// Over any run of steps of the callback, what was played followed by what is
/// still pending is what was pending at the start followed by what the
/// decoder added, in order.  Step `i` starts with `before[i]` pending, the
/// decoder adds `added[i]` (nothing for [`DataCallback::copy_buffered`], the
/// refill for [`DataCallback::copy_decoded`]), the step plays `played[i]` and
/// leaves `after[i]` pending, which the next step starts from.
pub proof fn lemma_samples_played_in_order<S>(
    before: Seq<Seq<S>>,
    added: Seq<Seq<S>>,
    played: Seq<Seq<S>>,
    after: Seq<Seq<S>>,
)
    requires
        played.len() > 0,
        before.len() == played.len(),
        added.len() == played.len(),
        after.len() == played.len(),
        forall|i: int| 0 <= i < played.len() ==> #[trigger] played[i] + after[i] == before[i] + added[i],
        forall|i: int| 0 <= i < played.len() - 1 ==> before[i + 1] == #[trigger] after[i],
    ensures
        played.flatten() + after.last() == before[0] + added.flatten(),
    decreases played.len(),
{
    if played.len() == 1 {
        assert(played.drop_first().flatten() =~= Seq::<S>::empty());
        assert(added.drop_first().flatten() =~= Seq::<S>::empty());
        assert(played.flatten() =~= played[0]);
        assert(added.flatten() =~= added[0]);
        assert(played[0] + after[0] == before[0] + added[0]);
    } else {
        let before1 = before.drop_first();
        let added1 = added.drop_first();
        let played1 = played.drop_first();
        let after1 = after.drop_first();
        assert forall|i: int| 0 <= i < played1.len() implies #[trigger] played1[i] + after1[i]
            == before1[i] + added1[i] by {
            assert(played[i + 1] + after[i + 1] == before[i + 1] + added[i + 1]);
        }
        assert forall|i: int| 0 <= i < played1.len() - 1 implies before1[i + 1]
            == #[trigger] after1[i] by {
            assert(before[i + 2] == after[i + 1]);
        }
        lemma_samples_played_in_order(before1, added1, played1, after1);
        assert(after1.last() == after.last());
        assert(played[0] + after[0] == before[0] + added[0]);
        assert(before[1] == after[0]);
        assert(played.flatten() + after.last() =~= played[0] + (played1.flatten() + after1.last()));
        assert(before[0] + added.flatten() =~= (before[0] + added[0]) + added1.flatten());
        assert(played[0] + (before1[0] + added1.flatten()) =~= (played[0] + after[0])
            + added1.flatten());
    }
}

/// After a pause request, a playback runs exactly where one was in place and
/// the request did not pause it: `force` resumes it whatever `pause` says.
pub proof fn lemma_pause_request_outcome<P>(players: Seq<HippoPlayback<P>>, pause: bool, force: bool)
    requires
        players.len() <= 1,
    ensures
        playing(after_pause_request(players, pause, force)) is Some <==> (players.len() == 1 && (
        !pause || force)),
{
}

/// A playback that has just been put in place, and is not paused, is the
/// one played.
pub proof fn lemma_installed_playback_plays<P>(playback: HippoPlayback<P>)
    requires
        !playback.is_paused,
    ensures
        playing(seq![playback]) == Some(playback),
{
}

/// A pause request touches nothing of the running playback but its paused
/// flag: the decoder handle and the plugin stay, the list keeps its length,
/// and the flag ends up set exactly where `pause` holds and `force` does not.
/// Any list other than a single playback is left as it is.
pub proof fn lemma_pause_request_keeps_playback<P>(
    players: Seq<HippoPlayback<P>>,
    pause: bool,
    force: bool,
)
    ensures
        after_pause_request(players, pause, force).len() == players.len(),
        players.len() == 1 ==> {
            let p = after_pause_request(players, pause, force)[0];
            &&& p.plugin_user_data == players[0].plugin_user_data
            &&& p.plugin == players[0].plugin
            &&& p.is_paused == (pause && !force)
        },
        players.len() != 1 ==> after_pause_request(players, pause, force) == players,
{
}

} // verus!
