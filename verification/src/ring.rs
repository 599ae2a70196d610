//! Bounded queues: when one is full, the oldest items make room.

use std::collections::VecDeque;
use vstd::prelude::*;
use vstd::slice::slice_subrange;

verus! {

/// Samples that the monitor view buffers (about 3 s at 8 kHz).
pub const GUI_RING_CAP: usize = 24_000;

/// Samples that the audio output buffers.
pub const AUDIO_RING_CAP: usize = 32_000;

/// Samples that a received burst feeds to the monitor at a time (20 ms at
/// 8 kHz).
pub const MONITOR_HOP: usize = 160;

/// The newest `cap` items of `s`.
pub open spec fn newest<T>(s: Seq<T>, cap: nat) -> Seq<T> {
    if s.len() <= cap {
        s
    } else {
        s.skip(s.len() - cap)
    }
}

/// Appends `item` and drops the oldest items until at most `cap` are left.
pub fn push_cap<T>(q: &mut VecDeque<T>, item: T, cap: usize)
    ensures
        final(q)@ == newest(old(q)@.push(item), cap as nat),
{
    q.push_back(item);
    let ghost full = q@;
    assert(full.skip(0) =~= full);
    while q.len() > cap
        invariant
            q@.len() <= full.len(),
            q@ == full.skip(full.len() - q@.len()),
            q@.len() >= cap || q@ == full,
        decreases q@.len(),
    {
        q.pop_front();
        assert(q@ =~= full.skip(full.len() - q@.len()));
    }
    assert(q@ =~= newest(full, cap as nat));
}

/// Appends a run of samples and drops the oldest until at most `cap` are
/// left.
pub fn fill_ring(r: &mut VecDeque<i16>, chunk: &[i16], cap: usize)
    ensures
        final(r)@ == newest(old(r)@ + chunk@, cap as nat),
{
    let ghost start = r@;
    let mut i: usize = 0;
    assert(start + chunk@.take(0) =~= start);
    while i < chunk.len()
        invariant
            i <= chunk@.len(),
            r@ == start + chunk@.take(i as int),
        decreases chunk@.len() - i,
    {
        r.push_back(chunk[i]);
        assert(r@ =~= start + chunk@.take(i + 1));
        i = i + 1;
    }
    assert(chunk@.take(chunk@.len() as int) =~= chunk@);
    let ghost full = r@;
    assert(full.skip(0) =~= full);
    while r.len() > cap
        invariant
            r@.len() <= full.len(),
            r@ == full.skip(full.len() - r@.len()),
            r@.len() >= cap || r@ == full,
        decreases r@.len(),
    {
        r.pop_front();
        assert(r@ =~= full.skip(full.len() - r@.len()));
    }
    assert(r@ =~= newest(full, cap as nat));
}

/// A bounded queue never holds more than its capacity, and after a push its
/// last item is the pushed one unless the capacity is zero.
pub proof fn law_newest_is_bounded_and_last<T>(s: Seq<T>, item: T, cap: nat)
    ensures
        newest(s.push(item), cap).len() <= cap,
        cap > 0 ==> newest(s.push(item), cap).last() == item,
{
}

/// Cutting to the capacity after each of two appends leaves the same items as
/// cutting once after both.
pub proof fn law_newest_composes<T>(a: Seq<T>, b: Seq<T>, c: Seq<T>, cap: nat)
    ensures
        newest(newest(a + b, cap) + c, cap) == newest(a + b + c, cap),
{
    assert(newest(newest(a + b, cap) + c, cap) =~= newest(a + b + c, cap));
}

/// Hands samples from the air to the display, and to the loudspeaker where
/// that is switched on.
pub fn feed_rings(
    gui: &mut VecDeque<i16>,
    audio: &mut VecDeque<i16>,
    audio_enabled: bool,
    chunk: &[i16],
)
    ensures
        final(gui)@ == newest(old(gui)@ + chunk@, GUI_RING_CAP as nat),
        final(audio)@ == if audio_enabled {
            newest(old(audio)@ + chunk@, AUDIO_RING_CAP as nat)
        } else {
            old(audio)@
        },
{
    fill_ring(gui, chunk, GUI_RING_CAP);
    if audio_enabled {
        fill_ring(audio, chunk, AUDIO_RING_CAP);
    }
}

/// Where the hop ends that starts at sample `i` of a burst of `len` samples.
pub open spec fn next_hop(i: int, len: int) -> int {
    if i + MONITOR_HOP <= len {
        i + MONITOR_HOP
    } else {
        len
    }
}

/// Where the hop ends that starts at sample `i` of a burst of `len` samples.
pub fn hop_end(i: usize, len: usize) -> (r: usize)
    requires
        i <= len,
    ensures
        r == next_hop(i as int, len as int),
        i < len ==> i < r,
{
    if len - i < MONITOR_HOP {
        len
    } else {
        i + MONITOR_HOP
    }
}

/// Feeds the hop of a burst that starts at sample `i`, and returns where the
/// next one starts; the burst is over where that is its length.
pub fn feed_hop(
    gui: &mut VecDeque<i16>,
    audio: &mut VecDeque<i16>,
    audio_enabled: bool,
    samples: &[i16],
    i: usize,
) -> (r: usize)
    requires
        i <= samples@.len(),
    ensures
        r == next_hop(i as int, samples@.len() as int),
        i < samples@.len() ==> i < r,
        final(gui)@ == newest(
            old(gui)@ + samples@.subrange(i as int, r as int),
            GUI_RING_CAP as nat,
        ),
        final(audio)@ == if audio_enabled {
            newest(old(audio)@ + samples@.subrange(i as int, r as int), AUDIO_RING_CAP as nat)
        } else {
            old(audio)@
        },
{
    let end: usize = hop_end(i, samples.len());
    feed_rings(gui, audio, audio_enabled, slice_subrange(samples, i, end));
    end
}

/// What a ring holds once a burst was fed to it hop by hop, from sample `i`.
pub open spec fn paced(r: Seq<i16>, burst: Seq<i16>, i: int, cap: nat) -> Seq<i16>
    decreases burst.len() - i,
{
    if 0 <= i < burst.len() {
        let end = next_hop(i, burst.len() as int);
        paced(newest(r + burst.subrange(i, end), cap), burst, end, cap)
    } else {
        r
    }
}

/// A burst that is fed hop by hop leaves a ring as it would be had the burst
/// come at once: no sample is lost, repeated or moved.
pub proof fn law_pacing_keeps_the_burst(r: Seq<i16>, burst: Seq<i16>, cap: nat)
    requires
        r.len() <= cap,
    ensures
        paced(r, burst, 0, cap) == newest(r + burst, cap),
{
    lemma_paced_from(r, burst, 0, cap);
    assert(burst.subrange(0, burst.len() as int) =~= burst);
}

proof fn lemma_paced_from(r: Seq<i16>, burst: Seq<i16>, i: int, cap: nat)
    requires
        r.len() <= cap,
        0 <= i <= burst.len(),
    ensures
        paced(r, burst, i, cap) == newest(r + burst.subrange(i, burst.len() as int), cap),
    decreases burst.len() - i,
{
    let len = burst.len() as int;
    if i < len {
        let end = next_hop(i, len);
        let (hop, rest) = (burst.subrange(i, end), burst.subrange(end, len));
        lemma_paced_from(newest(r + hop, cap), burst, end, cap);
        law_newest_composes(r, hop, rest, cap);
        assert(r + hop + rest =~= r + burst.subrange(i, len));
    } else {
        assert(r + burst.subrange(i, len) =~= r);
    }
}

/// The samples that wait between the shared audio ring and the sound device.
pub struct AudioStage {
    staging: VecDeque<i16>,
}

impl View for AudioStage {
    type V = Seq<i16>;

    closed spec fn view(&self) -> Seq<i16> {
        self.staging@
    }
}

/// How many samples a refill to `need` takes out of a ring that holds
/// `available`.
pub open spec fn refill_count(staged: nat, available: nat, need: nat) -> nat {
    if staged >= need {
        0
    } else if need - staged <= available {
        (need - staged) as nat
    } else {
        available
    }
}

impl AudioStage {
    /// An empty stage.
    pub fn new() -> (r: Self)
        ensures
            r@ == Seq::<i16>::empty(),
    {
        AudioStage { staging: VecDeque::new() }
    }

    /// Moves samples from the front of `ring` until `need` are staged or the
    /// ring is empty.
    pub fn refill(&mut self, ring: &mut VecDeque<i16>, need: usize)
        ensures
            final(self)@ == old(self)@ + old(ring)@.take(
                refill_count(old(self)@.len(), old(ring)@.len(), need as nat) as int,
            ),
            final(ring)@ == old(ring)@.skip(
                refill_count(old(self)@.len(), old(ring)@.len(), need as nat) as int,
            ),
    {
        let ghost staged0 = self.staging@;
        let ghost ring0 = ring@;
        let ghost mut moved: int = 0;
        assert(staged0 + ring0.take(0) =~= staged0);
        assert(ring0.skip(0) =~= ring0);
        while self.staging.len() < need
            invariant_except_break
                0 <= moved <= ring0.len(),
                self.staging@ == staged0 + ring0.take(moved),
                ring@ == ring0.skip(moved),
                staged0.len() + moved <= need || moved == 0,
            ensures
                self.staging@ == staged0 + ring0.take(
                    refill_count(staged0.len(), ring0.len(), need as nat) as int,
                ),
                ring@ == ring0.skip(
                    refill_count(staged0.len(), ring0.len(), need as nat) as int,
                ),
            decreases ring@.len(),
        {
            match ring.pop_front() {
                Some(s) => {
                    self.staging.push_back(s);
                    proof {
                        moved = moved + 1;
                    }
                    assert(self.staging@ =~= staged0 + ring0.take(moved));
                    assert(ring@ =~= ring0.skip(moved));
                },
                None => {
                    assert(moved == ring0.len());
                    break;
                },
            }
        }
    }

    /// Whether no sample is staged: the device then plays silence.
    pub fn is_empty(&self) -> (r: bool)
        ensures
            r == (self@.len() == 0),
    {
        self.staging.len() == 0
    }

    /// The sample to play now; then the `consume` oldest samples are used up,
    /// or all of them where there are fewer. Nothing is played, and nothing
    /// used up, where no sample is staged.
    pub fn next_sample(&mut self, consume: usize) -> (r: Option<i16>)
        ensures
            old(self)@.len() == 0 ==> r is None && final(self)@ == old(self)@,
            old(self)@.len() > 0 ==> r == Some(old(self)@[0]) && final(self)@ == old(self)@.skip(
                if consume < old(self)@.len() {
                    consume as int
                } else {
                    old(self)@.len() as int
                },
            ),
    {
        if self.staging.len() == 0 {
            return None;
        }
        let v: i16 = self.staging[0];
        let ghost all = self.staging@;
        let mut i: usize = 0;
        assert(all.skip(0) =~= all);
        while i < consume && self.staging.len() > 0
            invariant
                i <= consume,
                i <= all.len(),
                self.staging@ == all.skip(i as int),
            decreases consume - i,
        {
            self.staging.pop_front();
            i = i + 1;
            assert(self.staging@ =~= all.skip(i as int));
        }
        Some(v)
    }
}

/// What a refill followed by playing keeps: the played and staged samples and
/// the rest of the ring are, in order, the samples that were there before.
pub proof fn law_refill_keeps_order(staged: Seq<i16>, ring: Seq<i16>, need: nat)
    ensures
        ({
            let n = refill_count(staged.len(), ring.len(), need) as int;
            (staged + ring.take(n)) + ring.skip(n) == staged + ring
        }),
{
    let n = refill_count(staged.len(), ring.len(), need) as int;
    assert((staged + ring.take(n)) + ring.skip(n) =~= staged + ring);
}

/// The number of output frames in a device buffer of `len` samples.
pub fn frame_count(len: usize, channels: usize) -> (r: usize)
    ensures
        channels == 0 ==> r == len,
        channels > 0 ==> r as int == len as int / channels as int,
{
    if channels == 0 {
        len
    } else {
        len / channels
    }
}

/// What a bounded queue keeps is the end of what was put into it: as many items
/// as fit, in their order.
pub proof fn law_newest_is_the_end<T>(s: Seq<T>, cap: nat)
    ensures
        newest(s, cap).len() == if s.len() < cap { s.len() } else { cap },
        forall|i: int|
            0 <= i < newest(s, cap).len() ==> #[trigger] newest(s, cap)[i] == s[s.len() - newest(
                s,
                cap,
            ).len() + i],
{
}

/// Whether a list of at most `cap` items became `after` when `item` was put at
/// its end: it grew by one and every item kept its place or, where it was
/// full, the oldest item left and the others moved up.
pub open spec fn appended<T>(before: Seq<T>, after: Seq<T>, item: T, cap: nat) -> bool {
    &&& after.len() == if before.len() < cap { before.len() + 1 } else { cap }
    &&& after.len() > 0 && after[after.len() - 1] == item
    &&& forall|j: int|
        0 <= j < after.len() - 1 ==> #[trigger] after[j] == before[before.len() - after.len() + 1
            + j]
}

/// A bounded queue takes an item in at its end and loses at most the oldest.
pub proof fn law_push_appends<T>(s: Seq<T>, item: T, cap: nat)
    requires
        0 < cap,
        s.len() <= cap,
    ensures
        appended(s, newest(s.push(item), cap), item, cap),
{
}

/// The view buffers three seconds, the loudspeaker four, and a hop is a
/// fiftieth of a second, at 8000 samples a second.
pub proof fn law_rings_hold_seconds()
    ensures
        GUI_RING_CAP == 3 * 8000,
        AUDIO_RING_CAP == 4 * 8000,
        MONITOR_HOP * 50 == 8000,
{
}

/// A hop goes on within the burst; only the last one may be shorter than 160
/// samples.
pub proof fn law_hops_are_even(i: int, len: int)
    requires
        0 <= i <= len,
    ensures
        i <= next_hop(i, len) <= len,
        next_hop(i, len) - i <= 160,
        next_hop(i, len) < len ==> next_hop(i, len) - i == 160,
{
}

/// A refill takes no more than the ring has and no more than is needed, and
/// stops short of the need only where the ring runs dry.
pub proof fn law_refill_takes_what_is_needed(staged: nat, available: nat, need: nat)
    ensures
        ({
            let n = refill_count(staged, available, need);
            &&& n <= available
            &&& n > 0 ==> staged + n <= need
            &&& staged + n >= need || n == available
        }),
{
}

} // verus!
