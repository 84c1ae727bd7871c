use vstd::prelude::*;
use crate::column::{WaveColumn, select_mask};

verus! {

/// Number of channels of a track: pulse one, pulse two, triangle, noise.
pub const CHANNEL_COUNT: usize = 4;

/// The masks of a channel's slots.
pub open spec fn masks_of(v: Seq<WaveColumn>) -> Seq<u32> {
    v.map_values(|c: WaveColumn| c@)
}

/// `n` empty slots.
pub open spec fn empty_slots(n: nat) -> Seq<u32> {
    Seq::new(n, |i: int| 0u32)
}

/// Four channels of one common length.
pub open spec fn aligned(chs: Seq<Seq<u32>>) -> bool {
    &&& chs.len() == 4
    &&& forall|k: int| 0 <= k < 4 ==> #[trigger] chs[k].len() == chs[0].len()
}

/// The four channels of a project, all of one length.
#[derive(Debug)]
pub struct Track {
    channels: [Vec<WaveColumn>; 4],
}

impl View for Track {
    type V = Seq<Seq<u32>>;

    closed spec fn view(&self) -> Seq<Seq<u32>> {
        Seq::new(4, |k: int| masks_of(self.channels[k]@))
    }
}

/// Append `amount` empty slots to `v`.
fn extend_empty(v: &mut Vec<WaveColumn>, amount: usize)
    requires
        old(v)@.len() + amount <= usize::MAX,
    ensures
        masks_of(final(v)@) == masks_of(old(v)@) + empty_slots(amount as nat),
        final(v)@.len() == old(v)@.len() + amount,
{
    let ghost start = masks_of(v@);
    let mut i: usize = 0;
    while i < amount
        invariant
            i <= amount,
            v@.len() == start.len() + i,
            start.len() + amount <= usize::MAX,
            masks_of(v@) == start + empty_slots(i as nat),
        decreases amount - i,
    {
        let ghost prev = v@;
        v.push(WaveColumn::new());
        i = i + 1;
        assert forall|j: int| 0 <= j < v@.len() implies #[trigger] masks_of(v@)[j] == (start
            + empty_slots(i as nat))[j] by {
            if j < prev.len() {
                assert(v@[j] == prev[j]);
                assert(masks_of(prev)[j] == prev[j]@);
            }
        }
        assert(masks_of(v@) =~= start + empty_slots(i as nat));
    }
}

/// A channel of `n` empty slots.
fn empty_channel(n: usize) -> (r: Vec<WaveColumn>)
    ensures
        masks_of(r@) == empty_slots(n as nat),
{
    let mut v: Vec<WaveColumn> = Vec::new();
    assert(masks_of(v@) =~= Seq::<u32>::empty());
    extend_empty(&mut v, n);
    assert(empty_slots(0) + empty_slots(n as nat) =~= empty_slots(n as nat));
    v
}

impl Track {
    #[verifier::type_invariant]
    spec fn inv(&self) -> bool {
        forall|k: int| 0 <= k < 4 ==> #[trigger] self.channels[k]@.len() == self.channels[0]@.len()
    }

    /// A track whose four channels hold `initial_size` empty slots each.
    pub fn new(initial_size: usize) -> (r: Track)
        ensures
            r@ == Seq::new(4, |k: int| empty_slots(initial_size as nat)),
            aligned(r@),
    {
        let c0 = empty_channel(initial_size);
        let c1 = empty_channel(initial_size);
        let c2 = empty_channel(initial_size);
        let c3 = empty_channel(initial_size);
        assert(masks_of(c0@).len() == c0@.len() && masks_of(c1@).len() == c1@.len());
        assert(masks_of(c2@).len() == c2@.len() && masks_of(c3@).len() == c3@.len());
        let channels = [c0, c1, c2, c3];
        assert(channels@ == seq![c0, c1, c2, c3]);
        let t = Track { channels };
        assert(t@ =~= Seq::new(4, |k: int| empty_slots(initial_size as nat)));
        t
    }

    /// The number of slots in each channel.
    pub fn get_length(&self) -> (r: usize)
        ensures
            r == self@[0].len(),
            aligned(self@),
    {
        proof {
            use_type_invariant(self);
        }
        self.channels[0].len()
    }

    /// The number of channels.
    pub fn get_channel_count(&self) -> (r: usize)
        ensures
            r == self@.len(),
            r == CHANNEL_COUNT,
    {
        CHANNEL_COUNT
    }

    /// Append `amount` empty slots to every channel.
    pub fn add_columns(&mut self, amount: usize)
        requires
            old(self)@[0].len() + amount <= usize::MAX,
        ensures
            final(self)@ == Seq::new(4, |k: int| old(self)@[k] + empty_slots(amount as nat)),
            aligned(final(self)@),
    {
        proof {
            use_type_invariant(&*self);
        }
        let ghost before = self@;
        let mut chs: [Vec<WaveColumn>; 4] = [Vec::new(), Vec::new(), Vec::new(), Vec::new()];
        std::mem::swap(&mut chs, &mut self.channels);
        let mut k: usize = 0;
        while k < CHANNEL_COUNT
            invariant
                k <= CHANNEL_COUNT,
                before.len() == 4,
                forall|j: int| 0 <= j < 4 ==> #[trigger] before[j].len() == before[0].len(),
                before[0].len() + amount <= usize::MAX,
                forall|j: int| 0 <= j < k ==> #[trigger] masks_of(chs[j]@) == before[j]
                    + empty_slots(amount as nat),
                forall|j: int| k <= j < 4 ==> #[trigger] masks_of(chs[j]@) == before[j],
                forall|j: int| 0 <= j < 4 ==> #[trigger] chs[j]@.len() == before[0].len()
                    + (if j < k { amount as int } else { 0 }),
            decreases CHANNEL_COUNT - k,
        {
            let mut c: Vec<WaveColumn> = Vec::new();
            std::mem::swap(&mut c, &mut chs[k]);
            extend_empty(&mut c, amount);
            std::mem::swap(&mut c, &mut chs[k]);
            k = k + 1;
        }
        std::mem::swap(&mut chs, &mut self.channels);
        assert(self@ =~= Seq::new(4, |k: int| before[k] + empty_slots(amount as nat)));
    }

    /// Drop the last `amount` slots of every channel. Refused, with no
    /// channel touched, when that would leave the channels empty.
    pub fn remove_columns(&mut self, amount: usize) -> (r: bool)
        ensures
            r == (old(self)@[0].len() > amount),
            r ==> final(self)@ == Seq::new(
                4,
                |k: int| old(self)@[k].subrange(0, old(self)@[0].len() - amount),
            ),
            !r ==> final(self)@ == old(self)@,
            aligned(final(self)@),
    {
        proof {
            use_type_invariant(&*self);
        }
        let ghost before = self@;
        let len = self.channels[0].len();
        if len <= amount {
            return false;
        }
        let new_len = len - amount;
        let mut chs: [Vec<WaveColumn>; 4] = [Vec::new(), Vec::new(), Vec::new(), Vec::new()];
        std::mem::swap(&mut chs, &mut self.channels);
        let mut k: usize = 0;
        while k < CHANNEL_COUNT
            invariant
                k <= CHANNEL_COUNT,
                new_len == before[0].len() - amount,
                len == before[0].len(),
                before.len() == 4,
                forall|j: int| 0 <= j < 4 ==> #[trigger] before[j].len() == len,
                forall|j: int| 0 <= j < k ==> #[trigger] masks_of(chs[j]@) == before[j].subrange(
                    0,
                    new_len as int,
                ),
                forall|j: int| k <= j < 4 ==> #[trigger] masks_of(chs[j]@) == before[j],
                forall|j: int| 0 <= j < 4 ==> #[trigger] chs[j]@.len() == (if j < k {
                    new_len as int
                } else {
                    len as int
                }),
            decreases CHANNEL_COUNT - k,
        {
            let mut c: Vec<WaveColumn> = Vec::new();
            std::mem::swap(&mut c, &mut chs[k]);
            let ghost prev = c@;
            c.truncate(new_len);
            assert(masks_of(c@) =~= masks_of(prev).subrange(0, new_len as int));
            std::mem::swap(&mut c, &mut chs[k]);
            k = k + 1;
        }
        std::mem::swap(&mut chs, &mut self.channels);
        assert(self@ =~= Seq::new(4, |k: int| before[k].subrange(0, before[0].len() - amount)));
        true
    }

    /// The slot at `index` of channel `channel`, if both are in range.
    pub fn get_column(&self, channel: usize, index: usize) -> (r: Option<WaveColumn>)
        ensures
            r is Some <==> (channel < 4 && index < self@[0].len()),
            r matches Some(c) ==> c@ == self@[channel as int][index as int],
    {
        proof {
            use_type_invariant(self);
        }
        if channel >= CHANNEL_COUNT || index >= self.channels[0].len() {
            return None;
        }
        Some(self.channels[channel][index])
    }

    /// Select row `row` in the slot at `index` of channel `channel`; false,
    /// with nothing changed, when the slot is out of range.
    pub fn select(&mut self, channel: usize, index: usize, row: u32) -> (r: bool)
        requires
            row < 32,
        ensures
            r == (channel < 4 && index < old(self)@[0].len()),
            r ==> final(self)@ == old(self)@.update(
                channel as int,
                old(self)@[channel as int].update(
                    index as int,
                    select_mask(old(self)@[channel as int][index as int], row),
                ),
            ),
            !r ==> final(self)@ == old(self)@,
            aligned(final(self)@),
    {
        proof {
            use_type_invariant(&*self);
        }
        if channel >= CHANNEL_COUNT || index >= self.channels[0].len() {
            return false;
        }
        let ghost before = self@;
        let mut chs: [Vec<WaveColumn>; 4] = [Vec::new(), Vec::new(), Vec::new(), Vec::new()];
        std::mem::swap(&mut chs, &mut self.channels);
        let mut c: Vec<WaveColumn> = Vec::new();
        std::mem::swap(&mut c, &mut chs[channel]);
        let ghost prev = c@;
        let mut cell = c[index];
        cell.select(row);
        c[index] = cell;
        assert(masks_of(c@) =~= masks_of(prev).update(index as int, cell@));
        std::mem::swap(&mut c, &mut chs[channel]);
        std::mem::swap(&mut chs, &mut self.channels);
        assert(self@ =~= before.update(
            channel as int,
            before[channel as int].update(index as int, select_mask(before[channel as int][index as int], row)),
        ));
        true
    }

    /// A copy of channel `k`.
    pub fn channel(&self, k: usize) -> (r: Vec<WaveColumn>)
        requires
            k < 4,
        ensures
            masks_of(r@) == self@[k as int],
            r@.len() == self@[0].len(),
    {
        proof {
            use_type_invariant(self);
        }
        let src = &self.channels[k];
        let mut r: Vec<WaveColumn> = Vec::new();
        let mut i: usize = 0;
        while i < src.len()
            invariant
                i <= src@.len(),
                r@.len() == i,
                forall|j: int| 0 <= j < i ==> #[trigger] r@[j] == src@[j],
            decreases src@.len() - i,
        {
            r.push(src[i]);
            i = i + 1;
        }
        assert(r@ =~= src@);
        r
    }

    /// An independent copy of the track.
    pub fn snapshot(&self) -> (r: Track)
        ensures
            r@ == self@,
    {
        proof {
            use_type_invariant(self);
        }
        let channels = [self.channel(0), self.channel(1), self.channel(2), self.channel(3)];
        let r = Track { channels };
        assert(r@ =~= self@);
        r
    }

    /// The masks of the four channels.
    pub fn to_masks(&self) -> (r: [Vec<u32>; 4])
        ensures
            r@.len() == 4,
            forall|k: int| 0 <= k < 4 ==> #[trigger] r[k]@ == self@[k],
            aligned(self@),
    {
        proof {
            use_type_invariant(self);
        }
        [mask_list(&self.channels[0]), mask_list(&self.channels[1]), mask_list(&self.channels[2]), mask_list(&self.channels[3])]
    }

    /// A track from the masks of four channels; none when their lengths differ.
    pub fn from_masks(chs: &[Vec<u32>; 4]) -> (r: Option<Track>)
        ensures
            r is Some <==> (forall|k: int| 0 <= k < 4 ==> #[trigger] chs[k]@.len() == chs[0]@.len()),
            r matches Some(t) ==> forall|k: int| 0 <= k < 4 ==> #[trigger] t@[k] == chs[k]@,
            r matches Some(t) ==> aligned(t@),
    {
        let n = chs[0].len();
        if chs[1].len() != n || chs[2].len() != n || chs[3].len() != n {
            return None;
        }
        let channels = [column_list(&chs[0]), column_list(&chs[1]), column_list(&chs[2]), column_list(&chs[3])];
        let t = Track { channels };
        Some(t)
    }
}

impl Default for Track {
    /// A track of eight empty steps.
    fn default() -> (r: Track)
        ensures
            r@ == Seq::new(4, |k: int| empty_slots(8)),
    {
        Track::new(8)
    }
}

/// The masks of a channel's slots, as a vector.
fn mask_list(v: &Vec<WaveColumn>) -> (r: Vec<u32>)
    ensures
        r@ == masks_of(v@),
{
    let mut r: Vec<u32> = Vec::new();
    let mut i: usize = 0;
    while i < v.len()
        invariant
            i <= v@.len(),
            r@ == masks_of(v@.subrange(0, i as int)),
        decreases v@.len() - i,
    {
        r.push(v[i].mask());
        i = i + 1;
        assert(r@ =~= masks_of(v@.subrange(0, i as int)));
    }
    assert(v@.subrange(0, i as int) =~= v@);
    r
}

/// Slots holding the given masks.
fn column_list(v: &Vec<u32>) -> (r: Vec<WaveColumn>)
    ensures
        masks_of(r@) == v@,
        r@.len() == v@.len(),
{
    let mut r: Vec<WaveColumn> = Vec::new();
    let mut i: usize = 0;
    while i < v.len()
        invariant
            i <= v@.len(),
            r@.len() == i,
            masks_of(r@) == v@.subrange(0, i as int),
        decreases v@.len() - i,
    {
        let ghost prev = r@;
        r.push(WaveColumn::from_mask(v[i]));
        i = i + 1;
        assert forall|j: int| 0 <= j < i implies #[trigger] masks_of(r@)[j] == v@.subrange(0, i as int)[j] by {
            if j < i - 1 {
                assert(r@[j] == prev[j]);
                assert(masks_of(prev)[j] == v@.subrange(0, i - 1)[j]);
            }
        }
        assert(masks_of(r@) =~= v@.subrange(0, i as int));
    }
    assert(v@.subrange(0, i as int) =~= v@);
    r
}

} // verus!
