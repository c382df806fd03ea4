//! The layout pass: from the registry's toasts and the anchor / margin /
//! reverse configuration to one screen position per displayable toast.
//!
//! Toasts are visited in display order — insertion order, or reversed when
//! the reverse flag is set — and stacked away from the anchored corner:
//! downward from a top corner, upward from a bottom corner, with a fixed
//! spacing between entries. While a toast is appearing or disappearing it
//! is additionally pushed out horizontally towards its anchor's side of the
//! screen, in proportion to how far its animation still has to go. Toasts
//! that are already `Removed` or that the host has not measured yet are
//! skipped for the frame.

use vstd::prelude::*;

use crate::anchor::Anchor;
use crate::anchor::Rectangle;
use crate::registry::reaped;
use crate::registry::stepped_all;
use crate::registry::Toasts;
use crate::toast::Toast;
use crate::toast::ToastState;
use crate::toast::PROGRESS_FULL;
use crate::toast::SLIDE_DISTANCE;

verus! {

/// Vertical gap between stacked toasts, in host units.
pub const TOAST_SPACING: u64 = 8;

/// One entry of a computed layout: which registry slot it is, and where its
/// anchored corner goes on screen.
#[derive(Debug, Clone, Copy, PartialEq, Eq, Structural)]
pub struct LaidToast {
    /// Index of the toast in the registry, as the registry stands after
    /// the tick that preceded this layout.
    pub index: usize,
    pub x: i128,
    pub y: i128,
}

/// A toast that takes part in layout this frame: not yet removed, and
/// already measured by the host.
pub open spec fn laid_out(t: Toast) -> bool {
    !(t.state is Removed) && t.height is Some
}

/// The measured height of a laid-out toast.
pub open spec fn spec_height(t: Toast) -> int {
    t.height.unwrap() as int
}

/// The registry slot shown at display position `k`: position `k` itself,
/// or counted from the back when the display order is reversed.
pub open spec fn disp_index(len: int, reverse: bool, k: int) -> int {
    if reverse {
        len - 1 - k
    } else {
        k
    }
}

/// Registry slots of the toasts laid out among the first `k` display
/// positions, in display order.
pub open spec fn laid_indices(s: Seq<Toast>, reverse: bool, k: int) -> Seq<int>
    decreases k,
{
    if k <= 0 {
        Seq::empty()
    } else {
        let prev = laid_indices(s, reverse, k - 1);
        let idx = disp_index(s.len() as int, reverse, k - 1);
        if 0 <= idx < s.len() && laid_out(s[idx]) {
            prev.push(idx)
        } else {
            prev
        }
    }
}

/// Vertical room taken by the first `k` laid-out toasts: their heights
/// plus one spacing each.
pub open spec fn stack_extent(s: Seq<Toast>, idxs: Seq<int>, k: int) -> int
    decreases k,
{
    if k <= 0 {
        0
    } else {
        stack_extent(s, idxs, k - 1) + spec_height(s[idxs[k - 1]]) + TOAST_SPACING
    }
}

/// Horizontal displacement of a toast's slide animation: towards the
/// anchor's side of the screen, in proportion to how much of the entrance
/// or exit animation remains.
pub open spec fn spec_slide_offset(t: Toast, a: Anchor) -> int {
    a.spec_slide_sign() * ((PROGRESS_FULL as int - t.spec_progress()) * (SLIDE_DISTANCE as int)
        / (PROGRESS_FULL as int))
}

/// Everything the layout promises, for one configuration and container:
/// `out` lists exactly the laid-out toasts in display order; each entry
/// names its registry slot, sits at the anchor's x pushed out by its slide
/// animation, and is stacked away from the anchor behind the laid-out
/// toasts displayed before it.
pub open spec fn layout_matches(c: Toasts, rect: Rectangle, out: Seq<LaidToast>) -> bool {
    let s = c.toasts@;
    let idxs = laid_indices(s, c.reverse, s.len() as int);
    let cx = c.anchor.spec_corner_x(rect, c.margin);
    let cy = c.anchor.spec_corner_y(rect, c.margin);
    &&& out.len() == idxs.len()
    &&& forall|k: int|
        0 <= k < out.len() ==> {
            &&& (#[trigger] out[k]).index as int == idxs[k]
            &&& out[k].x as int == cx + spec_slide_offset(s[idxs[k]], c.anchor)
            &&& out[k].y as int == cy + c.anchor.spec_stack_dir() * stack_extent(s, idxs, k)
        }
}

/// Laid-out display slots point at laid-out toasts, and there are no more
/// of them than there are display positions.
pub proof fn lemma_laid_indices_in_range(s: Seq<Toast>, reverse: bool, k: int)
    requires
        0 <= k <= s.len(),
    ensures
        laid_indices(s, reverse, k).len() <= k,
        forall|m: int|
            0 <= m < laid_indices(s, reverse, k).len() ==> {
                &&& 0 <= #[trigger] laid_indices(s, reverse, k)[m] < s.len()
                &&& laid_out(s[laid_indices(s, reverse, k)[m]])
            },
    decreases k,
{
    if k > 0 {
        lemma_laid_indices_in_range(s, reverse, k - 1);
    }
}

/// The vertical extent of a prefix depends only on that prefix of the
/// display list.
proof fn lemma_stack_extent_prefix(s: Seq<Toast>, a: Seq<int>, b: Seq<int>, k: int)
    requires
        0 <= k <= a.len(),
        k <= b.len(),
        forall|j: int| 0 <= j < k ==> a[j] == b[j],
    ensures
        stack_extent(s, a, k) == stack_extent(s, b, k),
    decreases k,
{
    if k > 0 {
        lemma_stack_extent_prefix(s, a, b, k - 1);
    }
}

/// The laid-out slots among `[lo, hi)`, in ascending order.
spec fn asc_range(s: Seq<Toast>, lo: int, hi: int) -> Seq<int>
    decreases hi - lo,
{
    if lo >= hi {
        Seq::empty()
    } else {
        (if laid_out(s[lo]) {
            seq![lo]
        } else {
            Seq::empty()
        }) + asc_range(s, lo + 1, hi)
    }
}

/// `asc_range` can also be peeled from the back.
proof fn lemma_asc_range_snoc(s: Seq<Toast>, lo: int, hi: int)
    requires
        lo < hi,
    ensures
        asc_range(s, lo, hi) == asc_range(s, lo, hi - 1) + (if laid_out(s[hi - 1]) {
            seq![hi - 1]
        } else {
            Seq::<int>::empty()
        }),
    decreases hi - lo,
{
    let e_lo: Seq<int> = if laid_out(s[lo]) {
        seq![lo]
    } else {
        Seq::empty()
    };
    let e_hi: Seq<int> = if laid_out(s[hi - 1]) {
        seq![hi - 1]
    } else {
        Seq::empty()
    };
    if lo < hi - 1 {
        lemma_asc_range_snoc(s, lo + 1, hi);
        assert(asc_range(s, lo, hi) == e_lo + (asc_range(s, lo + 1, hi - 1) + e_hi));
        assert(asc_range(s, lo, hi - 1) == e_lo + asc_range(s, lo + 1, hi - 1));
        assert(e_lo + (asc_range(s, lo + 1, hi - 1) + e_hi) =~= (e_lo + asc_range(
            s,
            lo + 1,
            hi - 1,
        )) + e_hi);
    } else {
        assert(asc_range(s, lo + 1, hi) =~= Seq::<int>::empty());
        assert(asc_range(s, lo, hi - 1) =~= Seq::<int>::empty());
        assert(asc_range(s, lo, hi) =~= asc_range(s, lo, hi - 1) + e_hi);
    }
}

/// In forward display order the laid-out slots are just the ascending scan.
proof fn lemma_fwd_is_asc(s: Seq<Toast>, k: int)
    requires
        0 <= k <= s.len(),
    ensures
        laid_indices(s, false, k) == asc_range(s, 0, k),
    decreases k,
{
    if k > 0 {
        lemma_fwd_is_asc(s, k - 1);
        lemma_asc_range_snoc(s, 0, k);
        assert(laid_indices(s, false, k) =~= asc_range(s, 0, k));
    } else {
        assert(laid_indices(s, false, k) =~= asc_range(s, 0, k));
    }
}

/// Reversing a pushed sequence puts the pushed element first.
proof fn lemma_reverse_push(p: Seq<int>, x: int)
    ensures
        (p.push(x)).reverse() == seq![x] + p.reverse(),
{
    assert((p.push(x)).reverse() =~= seq![x] + p.reverse());
}

/// In reversed display order the laid-out slots are the descending scan of
/// the last `k` registry slots.
proof fn lemma_rev_is_desc(s: Seq<Toast>, k: int)
    requires
        0 <= k <= s.len(),
    ensures
        laid_indices(s, true, k).reverse() == asc_range(s, s.len() - k, s.len() as int),
    decreases k,
{
    let n = s.len() as int;
    if k == 0 {
        assert(laid_indices(s, true, 0).reverse() =~= asc_range(s, n, n));
    } else {
        lemma_rev_is_desc(s, k - 1);
        let prev = laid_indices(s, true, k - 1);
        let idx = n - k;
        if laid_out(s[idx]) {
            lemma_reverse_push(prev, idx);
            assert(laid_indices(s, true, k).reverse() =~= asc_range(s, n - k, n));
        } else {
            assert(laid_indices(s, true, k).reverse() =~= asc_range(s, n - k, n));
        }
    }
}

/// Flipping the reverse flag exactly reverses the display order: the same
/// toasts are laid out, back to front. Their x positions and their own
/// slide offsets depend only on the toast and the anchor, so only the
/// vertical stacking order changes; and dismissal policies never read the
/// flag at all.
pub proof fn lemma_reverse_flag_reverses_display(s: Seq<Toast>)
    ensures
        laid_indices(s, true, s.len() as int) == laid_indices(
            s,
            false,
            s.len() as int,
        ).reverse(),
{
    let n = s.len() as int;
    lemma_rev_is_desc(s, n);
    lemma_fwd_is_asc(s, n);
    assert(laid_indices(s, true, n).reverse().reverse() == laid_indices(s, false, n).reverse());
    assert(laid_indices(s, true, n).reverse().reverse() =~= laid_indices(s, true, n));
}

impl Toasts {
    /// Computes the position of every displayable toast for this frame,
    /// without advancing any state: the registry's laid-out toasts in
    /// display order, stacked from the anchored corner of `rect` moved
    /// inward by the configured margin.
    pub fn layout(&self, rect: &Rectangle) -> (out: Vec<LaidToast>)
        requires
            self.wf(),
        ensures
            layout_matches(*self, *rect, out@),
    {
        let ghost s = self.toasts@;
        let n = self.toasts.len();
        let corner = self.anchor.corner_of(rect, &self.margin);
        let sign = self.anchor.slide_sign();
        let top = match self.anchor {
            Anchor::TopRight | Anchor::TopLeft => true,
            _ => false,
        };
        let mut out: Vec<LaidToast> = Vec::new();
        let mut offset: i128 = 0;
        let mut k: usize = 0;
        while k < n
            invariant
                self.wf(),
                s == self.toasts@,
                n == s.len(),
                0 <= k <= n,
                corner.x as int == self.anchor.spec_corner_x(*rect, self.margin),
                corner.y as int == self.anchor.spec_corner_y(*rect, self.margin),
                -(u64::MAX as int) - 1 <= corner.x as int <= u64::MAX as int,
                -(u64::MAX as int) - 1 <= corner.y as int <= u64::MAX as int,
                sign as int == self.anchor.spec_slide_sign(),
                top == self.anchor.is_top(),
                out@.len() == laid_indices(s, self.reverse, k as int).len(),
                out@.len() <= k,
                offset as int == stack_extent(
                    s,
                    laid_indices(s, self.reverse, k as int),
                    out@.len() as int,
                ),
                0 <= offset as int <= (k as int) * (u32::MAX as int + TOAST_SPACING as int),
                forall|m: int|
                    0 <= m < out@.len() ==> {
                        let idxs = laid_indices(s, self.reverse, k as int);
                        &&& (#[trigger] out@[m]).index as int == idxs[m]
                        &&& out@[m].x as int == corner.x + spec_slide_offset(
                            s[idxs[m]],
                            self.anchor,
                        )
                        &&& out@[m].y as int == corner.y + self.anchor.spec_stack_dir()
                            * stack_extent(s, idxs, m)
                    },
            decreases n - k,
        {
            let idx = if self.reverse {
                n - 1 - k
            } else {
                k
            };
            let ghost idxs_k = laid_indices(s, self.reverse, k as int);
            let ghost idxs_k1 = laid_indices(s, self.reverse, k as int + 1);
            proof {
                assert(disp_index(n as int, self.reverse, k as int) == idx as int);
                lemma_laid_indices_in_range(s, self.reverse, k as int);
            }
            let displayable = match self.toasts[idx].state {
                ToastState::Removed => false,
                _ => true,
            };
            let measured = self.toasts[idx].height.is_some();
            if displayable && measured {
                proof {
                    assert(idxs_k1 == idxs_k.push(idx as int));
                }
                proof {
                    assert(usize::MAX as int <= u64::MAX as int);
                    assert((k as int) * (u32::MAX as int + TOAST_SPACING as int) <= (
                    u64::MAX as int) * (u32::MAX as int + TOAST_SPACING as int))
                        by (nonlinear_arith)
                        requires
                            0 <= k as int <= u64::MAX as int,
                    ;
                }
                let t = &self.toasts[idx];
                let p = t.progress_permille();
                let off_mag = (PROGRESS_FULL - p) * SLIDE_DISTANCE / PROGRESS_FULL;
                let x = if sign >= 0 {
                    corner.x + off_mag as i128
                } else {
                    corner.x - off_mag as i128
                };
                proof {
                    assert(off_mag as int == (PROGRESS_FULL as int - s[idx as int].spec_progress())
                        * (SLIDE_DISTANCE as int) / (PROGRESS_FULL as int));
                    assert(x as int == corner.x + spec_slide_offset(s[idx as int], self.anchor));
                }
                let y = if top {
                    corner.y + offset
                } else {
                    corner.y - offset
                };
                proof {
                    assert forall|m: int| 0 <= m <= out@.len() implies stack_extent(
                        s,
                        idxs_k1,
                        m,
                    ) == stack_extent(s, idxs_k, m) by {
                        lemma_stack_extent_prefix(s, idxs_k, idxs_k1, m);
                    }
                }
                let ghost out_prev = out@;
                let ghost offset_prev = offset as int;
                out.push(LaidToast { index: idx, x, y });
                proof {
                    assert forall|m: int| 0 <= m < out@.len() implies {
                        &&& (#[trigger] out@[m]).index as int == idxs_k1[m]
                        &&& out@[m].x as int == corner.x + spec_slide_offset(
                            s[idxs_k1[m]],
                            self.anchor,
                        )
                        &&& out@[m].y as int == corner.y + self.anchor.spec_stack_dir()
                            * stack_extent(s, idxs_k1, m)
                    } by {
                        if m < out_prev.len() {
                            assert(out@[m] == out_prev[m]);
                            assert(idxs_k1[m] == idxs_k[m]);
                            assert(stack_extent(s, idxs_k1, m) == stack_extent(s, idxs_k, m));
                        } else {
                            assert(out@[m] == (LaidToast { index: idx, x, y }));
                            assert(idxs_k1[m] == idx as int);
                            assert(stack_extent(s, idxs_k1, m) == offset_prev);
                        }
                    }
                }
                let h = match t.height {
                    Option::Some(h) => h,
                    Option::None => 0,
                };
                offset = offset + h as i128 + TOAST_SPACING as i128;
            } else {
                proof {
                    assert(idxs_k1 == idxs_k);
                }
            }
            proof {
                assert(((k as int) + 1) * (u32::MAX as int + TOAST_SPACING as int) == (
                k as int) * (u32::MAX as int + TOAST_SPACING as int) + (u32::MAX as int
                    + TOAST_SPACING as int)) by (nonlinear_arith);
            }
            k = k + 1;
        }
        out
    }

    /// The per-frame entry point for a sub-region of the host canvas:
    /// advances every toast by the elapsed time, reaps the removed ones,
    /// and returns where to paint the survivors inside `rect`.
    pub fn show_inside(&mut self, rect: &Rectangle, delta_ms: u64) -> (out: Vec<LaidToast>)
        requires
            old(self).wf(),
        ensures
            final(self).wf(),
            final(self).toasts@ == reaped(stepped_all(old(self).toasts@, delta_ms)),
            final(self).config_of(*old(self)),
            layout_matches(*final(self), *rect, out@),
    {
        self.tick(delta_ms);
        self.layout(rect)
    }

    /// The per-frame entry point for a whole host canvas of size `width`
    /// by `height`, with its origin at the top left.
    pub fn show(&mut self, width: i64, height: i64, delta_ms: u64) -> (out: Vec<LaidToast>)
        requires
            old(self).wf(),
        ensures
            final(self).wf(),
            final(self).toasts@ == reaped(stepped_all(old(self).toasts@, delta_ms)),
            final(self).config_of(*old(self)),
            layout_matches(
                *final(self),
                Rectangle { min_x: 0, min_y: 0, max_x: width, max_y: height },
                out@,
            ),
    {
        let rect = Rectangle { min_x: 0, min_y: 0, max_x: width, max_y: height };
        self.show_inside(&rect, delta_ms)
    }
}

} // verus!
