use vstd::prelude::*;

verus! {

/// The tracks of an audio mix, in slots that removed tracks leave free for reuse.
#[derive(Debug)]
pub struct AudioMixer<T> {
    pub tracks: Vec<Option<T>>,
    pub sample_rate: u32,
}

/// The first free slot at or after `k`, or the end of the list when there is none.
pub open spec fn first_free_from<T>(tracks: Seq<Option<T>>, k: int) -> int
    decreases tracks.len() - k,
{
    if k < 0 || k >= tracks.len() {
        tracks.len() as int
    } else if tracks[k] is None {
        k
    } else {
        first_free_from(tracks, k + 1)
    }
}

/// The slot a new track goes to: the first free slot, or a new slot at the end.
pub open spec fn first_free_slot<T>(tracks: Seq<Option<T>>) -> int {
    first_free_from(tracks, 0)
}

proof fn lemma_first_free_from<T>(tracks: Seq<Option<T>>, k: int)
    requires
        0 <= k <= tracks.len(),
    ensures
        k <= first_free_from(tracks, k) <= tracks.len(),
        first_free_from(tracks, k) < tracks.len() ==> tracks[first_free_from(tracks, k)] is None,
        forall|j: int| k <= j < first_free_from(tracks, k) ==> tracks[j] is Some,
    decreases tracks.len() - k,
{
    if k < tracks.len() && tracks[k] is Some {
        lemma_first_free_from(tracks, k + 1);
    }
}

impl<T> AudioMixer<T> {
    /// A mixer without tracks.
    pub fn new(sample_rate: u32) -> (r: Self)
        ensures
            r.tracks@ == Seq::<Option<T>>::empty(),
            r.sample_rate == sample_rate,
    {
        AudioMixer { tracks: Vec::new(), sample_rate }
    }

    /// Adds a track in the first free slot (or a new one) and returns the slot.
    pub fn add_track(&mut self, track: T) -> (id: usize)
        ensures
            id == first_free_slot(old(self).tracks@),
            final(self).sample_rate == old(self).sample_rate,
            final(self).tracks@ == (if id < old(self).tracks@.len() {
                old(self).tracks@.update(id as int, Some(track))
            } else {
                old(self).tracks@.push(Some(track))
            }),
    {
        let n = self.tracks.len();
        let mut i: usize = 0;
        while i < n
            invariant
                n == self.tracks@.len(),
                self.tracks@ == old(self).tracks@,
                self.sample_rate == old(self).sample_rate,
                i <= n,
                first_free_slot(self.tracks@) == first_free_from(self.tracks@, i as int),
            decreases n - i,
        {
            if self.tracks[i].is_none() {
                self.tracks.set(i, Some(track));
                return i;
            }
            i = i + 1;
        }
        self.tracks.push(Some(track));
        n
    }

    /// The track in a slot, for modification, if the slot holds one.
    pub fn get_track_mut(&mut self, id: usize) -> (r: Option<&mut T>)
        ensures
            match r {
                Some(t) => id < old(self).tracks@.len() && old(self).tracks@[id as int] == Some(*t)
                    && final(self).tracks@ == old(self).tracks@.update(id as int, Some(*final(t)))
                    && final(self).sample_rate == old(self).sample_rate,
                None => (id >= old(self).tracks@.len() || old(self).tracks@[id as int] is None)
                    && final(self).tracks@ == old(self).tracks@ && final(self).sample_rate == old(
                    self,
                ).sample_rate,
            },
    {
        if id < self.tracks.len() && self.tracks[id].is_some() {
            match &mut self.tracks[id] {
                Some(t) => Some(t),
                None => None,
            }
        } else {
            None
        }
    }

}

/// The stereo frame of a track's samples that plays at output sample
/// `sample_index` (counted from the track's start), for a track of `frame_count`
/// frames: a looping track wraps around, any other track is silent after its
/// last frame (`None`).
pub fn source_frame(sample_index: usize, frame_count: usize, looping: bool) -> (r: Option<usize>)
    requires
        looping ==> frame_count > 0,
    ensures
        r == if looping {
            Some((sample_index % frame_count) as usize)
        } else if sample_index < frame_count {
            Some(sample_index)
        } else {
            None::<usize>
        },
{
    if looping {
        Some(sample_index % frame_count)
    } else if sample_index < frame_count {
        Some(sample_index)
    } else {
        None
    }
}

/// Decoded audio as interleaved stereo: each mono sample becomes a left and a
/// right sample; of two or more channels the first two of every frame are kept
/// (a last, incomplete frame counts as long as it holds two samples). No
/// channels give no samples.
pub open spec fn spec_stereo<T>(samples: Seq<T>, channels: nat) -> Seq<T> {
    if channels == 1 {
        Seq::new(2 * samples.len(), |i: int| samples[i / 2])
    } else if channels >= 2 {
        Seq::new(
            2 * ((samples.len() + channels - 1) / channels as int) as nat,
            |i: int| samples[(i / 2) * channels + i % 2],
        )
    } else {
        Seq::empty()
    }
}

/// Converts interleaved samples with `channels` channels to interleaved stereo.
/// A last frame with a single sample has no right sample to take, which the
/// `requires` leaves out.
pub fn interleave_stereo<T: Copy>(samples: &Vec<T>, channels: usize) -> (r: Vec<T>)
    requires
        channels >= 2 ==> (samples@.len() as int) % (channels as int) != 1,
    ensures
        r@ == spec_stereo(samples@, channels as nat),
{
    let n = samples.len();
    let mut out: Vec<T> = Vec::new();
    if channels == 1 {
        let mut i: usize = 0;
        while i < n
            invariant
                n == samples@.len(),
                i <= n,
                out@ =~= Seq::new(2 * i as nat, |k: int| samples@[k / 2]),
            decreases n - i,
        {
            out.push(samples[i]);
            out.push(samples[i]);
            i = i + 1;
        }
    } else if channels >= 2 {
        let ghost ch = channels as int;
        let ghost f = |k: int| samples@[(k / 2) * ch + k % 2];
        let mut pos: usize = 0;
        let mut frames: usize = 0;
        while pos < n
            invariant
                n == samples@.len(),
                ch == channels as int,
                ch >= 2,
                (n as int) % ch != 1,
                pos == frames * ch,
                frames <= pos,
                frames == 0 || (frames - 1) * ch < n,
                f == (|k: int| samples@[(k / 2) * ch + k % 2]),
                out@ =~= Seq::new(2 * frames as nat, f),
            decreases n - pos,
        {
            assert(pos + 1 < n) by {
                if pos + 1 == n {
                    assert((frames * ch + 1) % ch == 1) by (nonlinear_arith)
                        requires
                            ch >= 2,
                            frames >= 0,
                    ;
                }
            }
            let ghost before = out@;
            out.push(samples[pos]);
            out.push(samples[pos + 1]);
            proof {
                let k = frames as int;
                assert((2 * k) / 2 == k && (2 * k) % 2 == 0);
                assert((2 * k + 1) / 2 == k && (2 * k + 1) % 2 == 1);
                assert(out@ =~= Seq::new(2 * (frames + 1) as nat, f)) by {
                    assert forall|i: int| 0 <= i < 2 * k + 2 implies out@[i] == f(i) by {
                        if i < 2 * k {
                            assert(out@[i] == before[i]);
                        }
                    }
                }
                assert((k + 1) * ch == k * ch + ch) by (nonlinear_arith);
            }
            if n - pos <= channels {
                pos = n;
                proof {
                    assert(frames * ch < n);
                }
                frames = frames + 1;
                assert(out@ =~= Seq::new(2 * frames as nat, f));
                assert((n + ch - 1) / ch == frames as int) by (nonlinear_arith)
                    requires
                        ch >= 2,
                        (frames - 1) * ch < n,
                        n <= frames * ch,
                ;
                return out;
            }
            pos = pos + channels;
            frames = frames + 1;
        }
        assert((n + ch - 1) / ch == frames as int) by (nonlinear_arith)
            requires
                ch >= 2,
                frames == 0 || (frames - 1) * ch < n,
                n <= frames * ch,
        ;
    }
    out
}

/// A track added to a mixer is found again in the slot that adding it returned.
pub proof fn lemma_added_track_is_found<T>(tracks: Seq<Option<T>>, track: T)
    ensures
        ({
            let id = first_free_slot(tracks);
            let after = if id < tracks.len() {
                tracks.update(id, Some(track))
            } else {
                tracks.push(Some(track))
            };
            0 <= id < after.len() && after[id] == Some(track) && forall|j: int|
                0 <= j < tracks.len() && j != id ==> after[j] == tracks[j]
        }),
{
    lemma_first_free_from(tracks, 0);
}

} // verus!
