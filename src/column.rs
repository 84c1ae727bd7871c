use vstd::prelude::*;
use vstd::std_specs::bits::{u32_trailing_zeros, axiom_u32_trailing_zeros};

verus! {

/// Note number that row 0 of a column stands for.
pub const BASE_NOTE: i32 = 36;

/// The mask left by selecting row `index` in a column holding mask `m`:
/// the row alone when it was clear, nothing when it was set.
pub open spec fn select_mask(m: u32, index: u32) -> u32 {
    if m & (1u32 << index) == 0 {
        1u32 << index
    } else {
        0u32
    }
}

/// The lowest set row of a non-empty mask.
pub open spec fn lowest_row(m: u32) -> u32 {
    u32_trailing_zeros(m)
}

/// The note a mask stands for: -1 when empty, else its lowest row above `BASE_NOTE`.
pub open spec fn note_of_mask(m: u32) -> int {
    if m == 0 {
        -1
    } else {
        lowest_row(m) + BASE_NOTE
    }
}

/// One time slot of one channel. Each bit is a note row; selecting keeps at
/// most one row set.
#[derive(Clone, Copy, Debug)]
pub struct WaveColumn {
    column: u32,
}

impl View for WaveColumn {
    type V = u32;

    closed spec fn view(&self) -> u32 {
        self.column
    }
}

impl WaveColumn {
    /// An empty slot.
    pub fn new() -> (r: WaveColumn)
        ensures
            r@ == 0,
    {
        WaveColumn { column: 0 }
    }

    /// A slot holding the given raw mask.
    pub fn from_mask(mask: u32) -> (r: WaveColumn)
        ensures
            r@ == mask,
    {
        WaveColumn { column: mask }
    }

    /// The raw mask of the slot.
    pub fn mask(&self) -> (r: u32)
        ensures
            r == self@,
    {
        self.column
    }

    /// Toggle row `index`, clearing every other row.
    pub fn select(&mut self, index: u32)
        requires
            index < 32,
        ensures
            final(self)@ == select_mask(old(self)@, index),
    {
        let b: u32 = 1u32 << index;
        let m: u32 = self.column;
        assert((m & b) ^ b == (if m & b == 0 { b } else { 0u32 })) by (bit_vector)
            requires
                b == 1u32 << index,
                index < 32,
        ;
        self.column &= b;
        self.column ^= b;
    }

    /// Whether row `index` is the one row selected.
    pub fn is_selected(&self, index: u32) -> (r: bool)
        requires
            index < 32,
        ensures
            r == (self@ == 1u32 << index),
    {
        self.column == 1u32 << index
    }

    /// The note of the slot, or -1 when no row is selected.
    pub fn get_index(&self) -> (r: i32)
        ensures
            r == note_of_mask(self@),
    {
        let index = self.column.trailing_zeros();
        proof {
            axiom_u32_trailing_zeros(self.column);
        }
        if index == 32 {
            return -1;
        }
        index as i32 + BASE_NOTE
    }
}

impl Default for WaveColumn {
    fn default() -> (r: WaveColumn)
        ensures
            r@ == 0,
    {
        WaveColumn::new()
    }
}

/// The lowest set row of the one-row mask `1 << i` is `i`.
pub proof fn lemma_lowest_row_single(i: u32)
    requires
        i < 32,
    ensures
        (1u32 << i) != 0,
        lowest_row(1u32 << i) == i,
{
    let m: u32 = 1u32 << i;
    assert(m != 0) by (bit_vector)
        requires
            m == 1u32 << i,
            i < 32,
    ;
    axiom_u32_trailing_zeros(m);
    let t: u32 = u32_trailing_zeros(m);
    assert(t < 32 && (m >> t) & 1u32 == 1u32 && (forall|j: u32| 0 <= j < t ==> #[trigger] (m >> j) & 1u32 == 0u32));
    if t < i {
        assert((m >> t) & 1u32 == 0u32) by (bit_vector)
            requires
                m == 1u32 << i,
                i < 32,
                t < i,
        ;
    } else if t > i {
        assert((m >> i) & 1u32 == 1u32) by (bit_vector)
            requires
                m == 1u32 << i,
                i < 32,
        ;
    }
}

/// Selecting the same row twice leaves only that row's bit of the starting
/// mask, so it restores the mask exactly when the mask was empty or held that
/// row alone; selecting one row and then another leaves only the second.
pub proof fn lemma_select_toggle(m: u32, i: u32, j: u32)
    requires
        i < 32,
        j < 32,
    ensures
        select_mask(select_mask(m, i), i) == m & (1u32 << i),
        select_mask(select_mask(m, i), i) == m <==> (m == 0 || m == 1u32 << i),
        i != j ==> select_mask(select_mask(m, i), j) == 1u32 << j,
{
    let bi: u32 = 1u32 << i;
    let bj: u32 = 1u32 << j;
    let s: u32 = select_mask(m, i);
    assert(s == (if m & bi == 0 { bi } else { 0u32 }));
    assert((if (if m & bi == 0 { bi } else { 0u32 }) & bi == 0 { bi } else { 0u32 }) == m & bi)
        by (bit_vector)
        requires
            bi == 1u32 << i,
            i < 32,
    ;
    assert(m & bi == m <==> (m == 0 || m == bi)) by (bit_vector)
        requires
            bi == 1u32 << i,
            i < 32,
    ;
    assert(i != j ==> (if (if m & bi == 0 { bi } else { 0u32 }) & bj == 0 { bj } else { 0u32 }) == bj)
        by (bit_vector)
        requires
            bi == 1u32 << i,
            bj == 1u32 << j,
            i < 32,
            j < 32,
    ;
}

/// An empty mask has no note; a mask with row `i` alone has note `i + BASE_NOTE`.
pub proof fn lemma_note_of_mask(i: u32)
    requires
        i < 32,
    ensures
        note_of_mask(0) == -1,
        note_of_mask(1u32 << i) == i + BASE_NOTE,
{
    lemma_lowest_row_single(i);
}

} // verus!
