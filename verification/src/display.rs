//! The display bitmap: its two resolutions and the operations that clear,
//! resize, flip, drain and scroll it.

use vstd::prelude::*;

use crate::cpu::{Cpu, Machine};

verus! {

/// Columns of the display in the given resolution.
pub open spec fn cols(hires: bool) -> int {
    if hires { 128 } else { 64 }
}

/// Rows of the display in the given resolution.
pub open spec fn rows(hires: bool) -> int {
    if hires { 64 } else { 32 }
}

/// Pixels of the display in the given resolution.
pub open spec fn pixel_count(hires: bool) -> int {
    if hires { 8192 } else { 2048 }
}

/// An all-off bitmap of the given resolution.
pub open spec fn blank(hires: bool) -> Seq<bool> {
    Seq::new(pixel_count(hires) as nat, |k: int| false)
}

/// The indices `0..n`, in order.
pub open spec fn indices(n: nat) -> Seq<usize> {
    Seq::new(n, |k: int| k as usize)
}

/// The test "pixel `k` of `display` is on".
pub open spec fn is_lit(display: Seq<bool>) -> spec_fn(usize) -> bool {
    |k: usize| display[k as int]
}

/// The indices of the pixels of `display` that are on, in increasing order.
pub open spec fn lit_indices(display: Seq<bool>) -> Seq<usize> {
    indices(display.len()).filter(is_lit(display))
}

/// `display` with every pixel moved `shift` places towards the end of the
/// buffer, those that leave at the end coming back at the start.
pub open spec fn rotated(display: Seq<bool>, shift: int) -> Seq<bool> {
    Seq::new(display.len(), |k: int| display[(k - shift) % (display.len() as int)])
}

/// The pixels among the first `n` of `display` that are on, by index and in
/// increasing order: each entry is below `n`, and a later entry is larger.
proof fn lemma_lit_prefix_increases(display: Seq<bool>, n: nat)
    requires
        n <= usize::MAX,
    ensures
        forall|j: int|
            0 <= j < indices(n).filter(is_lit(display)).len() ==> (#[trigger] indices(n).filter(
                is_lit(display),
            )[j]) < n,
        forall|a: int, b: int|
            0 <= a < b < indices(n).filter(is_lit(display)).len() ==> (#[trigger] indices(n).filter(
                is_lit(display),
            )[a]) < (#[trigger] indices(n).filter(is_lit(display))[b]),
    decreases n,
{
    reveal(Seq::filter);
    let lit = indices(n).filter(is_lit(display));
    if n > 0 {
        let before = indices((n - 1) as nat).filter(is_lit(display));
        lemma_lit_prefix_increases(display, (n - 1) as nat);
        assert(indices(n).drop_last() == indices((n - 1) as nat));
        assert(lit == if display[n - 1] {
            before.push((n - 1) as usize)
        } else {
            before
        });
        assert forall|j: int| 0 <= j < lit.len() implies (#[trigger] lit[j]) < n by {
            if j < before.len() {
                assert(lit[j] == before[j]);
            }
        }
        assert forall|a: int, b: int| 0 <= a < b < lit.len() implies (#[trigger] lit[a]) < (
        #[trigger] lit[b]) by {
            assert(lit[a] == before[a]);
            if b < before.len() {
                assert(lit[b] == before[b]);
            }
        }
    }
}

/// `lit_indices` lists exactly the pixels that are on, in increasing order:
/// each entry is the index of such a pixel, each such pixel's index is an
/// entry, and a later entry is larger.
pub proof fn lemma_lit_indices(display: Seq<bool>)
    requires
        display.len() <= usize::MAX,
    ensures
        forall|j: int|
            0 <= j < lit_indices(display).len() ==> (#[trigger] lit_indices(display)[j])
                < display.len() && display[lit_indices(display)[j] as int],
        forall|k: int|
            0 <= k < display.len() && display[k] ==> lit_indices(display).contains(k as usize),
        forall|a: int, b: int|
            0 <= a < b < lit_indices(display).len() ==> (#[trigger] lit_indices(display)[a]) < (
            #[trigger] lit_indices(display)[b]),
{
    broadcast use vstd::seq_lib::group_filter_ensures;

    let all = indices(display.len());
    let lit = lit_indices(display);
    lemma_lit_prefix_increases(display, display.len());
    assert forall|j: int| 0 <= j < lit.len() implies (#[trigger] lit[j]) < display.len()
        && display[lit[j] as int] by {
        assert(is_lit(display)(lit[j]));
    }
    assert forall|k: int| 0 <= k < display.len() && display[k] implies lit.contains(
        k as usize,
    ) by {
        assert(all[k] == k as usize);
        assert(is_lit(display)(all[k]));
    }
}

/// In a bitmap of either resolution, moving `shift` places forward from `i`
/// arrives at `k` exactly when moving `shift` places back from `k` arrives
/// at `i`.
pub proof fn lemma_rotation_inverse(hires: bool, i: int, k: int, shift: int)
    requires
        0 <= i < pixel_count(hires),
        0 <= k < pixel_count(hires),
        0 <= shift < pixel_count(hires),
    ensures
        (i + shift) % pixel_count(hires) == k <==> i == (k - shift) % pixel_count(hires),
{
}

impl Cpu {
    /// Turns every pixel off.
    pub fn clear_display(&mut self)
        requires
            old(self).wf(),
        ensures
            final(self)@ == (Machine { display: blank(old(self).hires), ..old(self)@ }),
    {
        let len = self.display_buffer.len();
        for k in 0..len
            invariant
                self.display_buffer.len() == len,
                forall|j: int| 0 <= j < k ==> !self.display_buffer[j],
                self@ == (Machine { display: self.display_buffer@, ..old(self)@ }),
        {
            self.display_buffer[k] = false;
        }
    }

    /// Selects the resolution and replaces the bitmap by a blank one of that
    /// resolution's size, whatever the resolution was before.
    pub fn set_resolution(&mut self, hires: bool)
        ensures
            final(self)@ == (Machine { hires: hires, display: blank(hires), ..old(self)@ }),
            final(self).wf(),
    {
        self.hires = hires;
        self.display_buffer = vec![false; if hires { 8192 } else { 2048 }];
    }

    /// Flips the pixel at `row`, `col` and says whether that turned it off.
    pub fn toggle_pixel(&mut self, row: usize, col: usize) -> (collided: bool)
        requires
            old(self).wf(),
            row < rows(old(self).hires),
            col < cols(old(self).hires),
        ensures
            collided == old(self)@.display[row * cols(old(self).hires) + col],
            final(self)@ == (Machine {
                display: old(self)@.display.update(
                    row * cols(old(self).hires) + col,
                    !old(self)@.display[row * cols(old(self).hires) + col],
                ),
                ..old(self)@
            }),
    {
        let cols: usize = if self.hires { 128 } else { 64 };
        let index = row * cols + col;
        let was_on = self.display_buffer[index];
        self.display_buffer[index] = !was_on;
        was_on
    }

    /// Hands out the indices of the pixels that are on, in increasing order,
    /// together with the bitmap's length, and turns those pixels off.
    pub fn get_on_pixels(&mut self) -> (r: (Vec<usize>, usize))
        ensures
            r.0@ == lit_indices(old(self)@.display),
            r.1 == old(self)@.display.len(),
            final(self)@ == (Machine {
                display: Seq::new(old(self)@.display.len(), |k: int| false),
                ..old(self)@
            }),
    {
        let display_length = self.display_buffer.len();
        let mut pixels: Vec<usize> = Vec::new();
        proof {
            reveal(Seq::filter);
            assert(indices(0).filter(is_lit(old(self)@.display)) == Seq::<usize>::empty());
        }
        for k in 0..display_length
            invariant
                self.display_buffer.len() == display_length,
                display_length == old(self)@.display.len(),
                pixels@ == indices(k as nat).filter(is_lit(old(self)@.display)),
                forall|j: int| 0 <= j < k ==> !self.display_buffer[j],
                forall|j: int|
                    k <= j < display_length ==> self.display_buffer[j] == old(self)@.display[j],
                self@ == (Machine { display: self.display_buffer@, ..old(self)@ }),
        {
            proof {
                reveal(Seq::filter);
                assert(indices((k + 1) as nat).drop_last() == indices(k as nat));
            }
            if self.display_buffer[k] {
                pixels.push(k);
                self.display_buffer[k] = false;
            }
        }
        (pixels, display_length)
    }

    /// Moves every pixel `shift` places towards the end of the bitmap, those
    /// that leave at the end coming back at the start.
    pub fn rotate_display(&mut self, shift: usize)
        requires
            old(self).wf(),
            shift < old(self)@.display.len(),
        ensures
            final(self)@ == (Machine {
                display: rotated(old(self)@.display, shift as int),
                ..old(self)@
            }),
    {
        let (pixels, len) = self.get_on_pixels();
        let ghost before = old(self)@.display;
        proof {
            lemma_lit_indices(before);
        }
        for n in 0..pixels.len()
            invariant
                len == before.len(),
                len == pixel_count(self.hires),
                shift < len,
                self.display_buffer.len() == len,
                pixels@ == lit_indices(before),
                forall|j: int|
                    0 <= j < pixels.len() ==> pixels[j] < len && before[pixels[j] as int],
                forall|k: int|
                    0 <= k < len ==> (#[trigger] self.display_buffer[k] <==> exists|j: int|
                        0 <= j < n && (#[trigger] pixels[j] + shift) % (len as int) == k),
                self@ == (Machine { display: self.display_buffer@, ..old(self)@ }),
        {
            let target = (pixels[n] + shift) % len;
            self.display_buffer[target] = true;
        }
        proof {
            assert forall|k: int| 0 <= k < len implies self.display_buffer[k] == rotated(
                before,
                shift as int,
            )[k] by {
                let source = (k - shift) % (len as int);
                lemma_rotation_inverse(self.hires, source, k, shift as int);
                if before[source] {
                    lemma_lit_indices(before);
                    assert(pixels@.contains(source as usize));
                    let j = choose|j: int| 0 <= j < pixels.len() && pixels[j] == source as usize;
                    assert((pixels[j] + shift) % (len as int) == k);
                } else {
                    if self.display_buffer[k] {
                        let j = choose|j: int|
                            0 <= j < pixels.len() && (#[trigger] pixels[j] + shift) % (len as int)
                                == k;
                        lemma_rotation_inverse(self.hires, pixels[j] as int, k, shift as int);
                    }
                }
            }
        }
    }
}

} // verus!
