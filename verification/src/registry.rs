//! The registry of active toasts and the policies that retire them.
//!
//! Toasts are kept in insertion order. A toast that declares an identifier
//! is unique in the registry: adding another toast with the same identifier
//! resets that entry in place instead of inserting a duplicate, and the
//! entry keeps its original slot. The dismissal policies (all, latest,
//! oldest, individual close) always work on true insertion order; the
//! reverse display flag is read only by the layout pass.

use vstd::prelude::*;

use crate::anchor::Anchor;
use crate::anchor::Margin;
use crate::toast::Toast;
use crate::toast::ToastState;

verus! {

/// Both toasts declare an identifier and the identifiers are equal.
pub open spec fn same_id(a: Toast, b: Toast) -> bool {
    a.id is Some && b.id is Some && a.id.unwrap()@ == b.id.unwrap()@
}

/// The toast declares exactly this identifier.
pub open spec fn has_id(t: Toast, id: Seq<char>) -> bool {
    t.id is Some && t.id.unwrap()@ == id
}

/// Index of the first toast declaring `id`, or `-1` if none does.
pub open spec fn spec_find_id(s: Seq<Toast>, id: Seq<char>) -> int
    decreases s.len(),
{
    if s.len() == 0 {
        -1
    } else if has_id(s[0], id) {
        0
    } else {
        let r = spec_find_id(s.drop_first(), id);
        if r < 0 {
            -1
        } else {
            r + 1
        }
    }
}

/// No two toasts in the sequence declare the same identifier.
pub open spec fn ids_unique(s: Seq<Toast>) -> bool {
    forall|i: int, j: int| 0 <= i < j < s.len() ==> !same_id(s[i], s[j])
}

/// A toast as it (re)enters the registry: content and configuration as
/// given, timers reset, entrance animation restarted. An update-in-place
/// discards any in-flight exit animation this way.
pub open spec fn spec_reset(t: Toast) -> Toast {
    Toast { state: ToastState::Appearing, age_ms: 0, state_since_ms: 0, ..t }
}

/// The slot `add` writes to: the slot of the toast that already declares
/// the same identifier, or a fresh slot at the end.
pub open spec fn added_index(s: Seq<Toast>, t: Toast) -> int {
    match t.id {
        Option::None => s.len() as int,
        Option::Some(id) => {
            let k = spec_find_id(s, id@);
            if k < 0 {
                s.len() as int
            } else {
                k
            }
        },
    }
}

/// The registry contents after `add`: update-in-place on an identifier
/// match, append otherwise.
pub open spec fn added_seq(s: Seq<Toast>, t: Toast) -> Seq<Toast> {
    if added_index(s, t) == s.len() {
        s.push(spec_reset(t))
    } else {
        s.update(added_index(s, t), spec_reset(t))
    }
}

/// Every toast advanced by one tick.
pub open spec fn stepped_all(s: Seq<Toast>, delta_ms: u64) -> Seq<Toast> {
    s.map_values(|t: Toast| t.stepped(delta_ms))
}

/// Every toast dismissed (active ones enter their exit animation, the rest
/// are left alone).
pub open spec fn dismissed_all(s: Seq<Toast>) -> Seq<Toast> {
    s.map_values(|t: Toast| t.spec_dismissed())
}

/// The sequence with every `Removed` toast reaped, order preserved.
pub open spec fn reaped(s: Seq<Toast>) -> Seq<Toast>
    decreases s.len(),
{
    if s.len() == 0 {
        Seq::empty()
    } else {
        reaped(s.drop_last()) + if s.last().state is Removed {
            Seq::empty()
        } else {
            seq![s.last()]
        }
    }
}

/// Index of the earliest-inserted active toast, or `-1` if none is active.
pub open spec fn spec_first_active(s: Seq<Toast>) -> int
    decreases s.len(),
{
    if s.len() == 0 {
        -1
    } else if s[0].is_active() {
        0
    } else {
        let r = spec_first_active(s.drop_first());
        if r < 0 {
            -1
        } else {
            r + 1
        }
    }
}

/// Index of the most-recently-inserted active toast, or `-1` if none.
pub open spec fn spec_last_active(s: Seq<Toast>) -> int
    decreases s.len(),
{
    if s.len() == 0 {
        -1
    } else if s.last().is_active() {
        s.len() - 1
    } else {
        spec_last_active(s.drop_last())
    }
}

/// The toast collection a host owns: the registry plus the layout
/// configuration (anchor corner, margin, reverse display flag).
///
/// The fields are public so a host can inspect a toast's message and style
/// when painting; every verified method requires and preserves the
/// invariant [`Toasts::wf`].
pub struct Toasts {
    pub toasts: Vec<Toast>,
    pub anchor: Anchor,
    pub margin: Margin,
    pub reverse: bool,
}

impl Toasts {
    /// Registry invariant: identifiers are unique and every toast's timers
    /// are consistent.
    pub open spec fn wf(self) -> bool {
        &&& ids_unique(self.toasts@)
        &&& forall|i: int|
            0 <= i < self.toasts@.len() ==> (#[trigger] self.toasts@[i]).timers_wf()
    }

    /// Both collections carry the same layout configuration: registry
    /// operations change toasts, never the anchor, margin or reverse flag.
    pub open spec fn config_of(self, other: Toasts) -> bool {
        self.anchor == other.anchor && self.margin == other.margin && self.reverse
            == other.reverse
    }

    /// An empty collection anchored at the top right with a small margin.
    pub fn new() -> (t: Toasts)
        ensures
            t.toasts@.len() == 0,
            t.anchor == Anchor::TopRight,
            t.margin == (Margin { x: 8, y: 8 }),
            t.reverse == false,
            t.wf(),
    {
        Toasts {
            toasts: Vec::new(),
            anchor: Anchor::TopRight,
            margin: Margin { x: 8, y: 8 },
            reverse: false,
        }
    }

    /// Chooses the corner toasts are stacked from.
    pub fn set_anchor(&mut self, anchor: Anchor)
        ensures
            *final(self) == (Toasts { anchor: anchor, ..*old(self) }),
    {
        self.anchor = anchor;
    }

    /// Sets the inward margin between the container edge and the stack.
    pub fn set_margin(&mut self, margin: Margin)
        ensures
            *final(self) == (Toasts { margin: margin, ..*old(self) }),
    {
        self.margin = margin;
    }

    /// Flips the visual stacking order. Only the layout pass reads this;
    /// dismissal always follows true insertion order.
    pub fn set_reverse(&mut self, reverse: bool)
        ensures
            *final(self) == (Toasts { reverse: reverse, ..*old(self) }),
    {
        self.reverse = reverse;
    }

    /// Number of toasts currently in the registry.
    pub fn len(&self) -> (n: usize)
        ensures
            n == self.toasts@.len(),
    {
        self.toasts.len()
    }

    /// Adds a toast. If it declares an identifier that an existing entry
    /// also declares, that entry is reset in place (keeping its insertion
    /// slot); otherwise the toast is appended. Either way the written slot
    /// holds the new content with timers reset to `Appearing`, and its
    /// index is returned.
    pub fn add(&mut self, toast: Toast) -> (idx: usize)
        requires
            old(self).wf(),
        ensures
            final(self).wf(),
            final(self).toasts@ == added_seq(old(self).toasts@, toast),
            idx as int == added_index(old(self).toasts@, toast),
            final(self).config_of(*old(self)),
    {
        let ghost s = self.toasts@;
        let n = self.toasts.len();
        let has_match: Option<usize> = match &toast.id {
            Option::None => Option::None,
            Option::Some(id) => {
                let mut i: usize = 0;
                let mut found: Option<usize> = Option::None;
                while i < n
                    invariant
                        n == s.len(),
                        self.toasts@ == s,
                        0 <= i <= n,
                        toast.id is Some,
                        id@ == toast.id.unwrap()@,
                        found is None ==> forall|j: int| 0 <= j < i ==> !has_id(s[j], id@),
                        found is Some ==> {
                            &&& 0 <= found.unwrap() < n
                            &&& has_id(s[found.unwrap() as int], id@)
                            &&& forall|j: int| 0 <= j < found.unwrap() ==> !has_id(s[j], id@)
                        },
                        found is Some ==> i == n,
                    decreases n - i,
                {
                    let hit = match &self.toasts[i].id {
                        Option::Some(other) => other.eq(id),
                        Option::None => false,
                    };
                    if hit {
                        found = Option::Some(i);
                        i = n;
                    } else {
                        i = i + 1;
                    }
                }
                found
            },
        };
        proof {
            match has_match {
                Option::Some(k) => {
                    lemma_find_id_at(s, toast.id.unwrap()@, k as int);
                },
                Option::None => {
                    if toast.id is Some {
                        lemma_find_id_at(s, toast.id.unwrap()@, n as int);
                    }
                },
            }
        }
        match has_match {
            Option::Some(k) => {
                let slot = &mut self.toasts[k];
                *slot = reset_exec(toast);
                proof {
                    let rt = spec_reset(toast);
                    assert forall|j: int| 0 <= j < s.len() && j != k implies !same_id(
                        rt,
                        #[trigger] s[j],
                    ) by {
                        if same_id(rt, s[j]) {
                            assert(has_id(s[j], toast.id.unwrap()@));
                            if j < k {
                                assert(!same_id(s[j], s[k as int]));
                            } else {
                                assert(!same_id(s[k as int], s[j]));
                            }
                        }
                    }
                    lemma_wf_update(s, k as int, rt);
                }
                k
            },
            Option::None => {
                self.toasts.push(reset_exec(toast));
                proof {
                    assert forall|i: int, j: int|
                        0 <= i < j < self.toasts@.len() implies !same_id(
                        self.toasts@[i],
                        self.toasts@[j],
                    ) by {}
                }
                n
            },
        }
    }

    /// Advances every toast by `delta_ms` milliseconds, then reaps every
    /// toast that has reached `Removed`. The host calls this once per
    /// frame, before laying the survivors out.
    pub fn tick(&mut self, delta_ms: u64)
        requires
            old(self).wf(),
        ensures
            final(self).wf(),
            final(self).toasts@ == reaped(stepped_all(old(self).toasts@, delta_ms)),
            final(self).config_of(*old(self)),
    {
        let ghost s = self.toasts@;
        let n = self.toasts.len();
        let mut i: usize = 0;
        while i < n
            invariant
                n == s.len(),
                self.toasts@.len() == n,
                0 <= i <= n,
                forall|j: int| 0 <= j < i ==> self.toasts@[j] == s[j].stepped(delta_ms),
                forall|j: int| i <= j < n ==> self.toasts@[j] == s[j],
                self.anchor == old(self).anchor,
                self.margin == old(self).margin,
                self.reverse == old(self).reverse,
            decreases n - i,
        {
            self.toasts[i].tick(delta_ms);
            i = i + 1;
        }
        proof {
            assert(self.toasts@ =~= stepped_all(s, delta_ms));
            lemma_stepped_all_wf(s, delta_ms);
        }
        self.reap();
    }

    /// Drains every toast that has reached `Removed`, keeping the order of
    /// the survivors.
    pub fn reap(&mut self)
        requires
            old(self).wf(),
        ensures
            final(self).wf(),
            final(self).toasts@ == reaped(old(self).toasts@),
            final(self).config_of(*old(self)),
    {
        let ghost s2 = self.toasts@;
        let mut i: usize = 0;
        let ghost mut j: int = 0;
        while i < self.toasts.len()
            invariant
                0 <= j <= s2.len(),
                i as int == reaped(s2.take(j)).len(),
                self.toasts@ == reaped(s2.take(j)) + s2.skip(j),
                self.anchor == old(self).anchor,
                self.margin == old(self).margin,
                self.reverse == old(self).reverse,
            decreases s2.len() - j,
        {
            proof {
                assert(s2.skip(j)[0] == s2[j]);
                assert(self.toasts@[i as int] == s2[j]);
                assert(s2.take(j + 1).drop_last() =~= s2.take(j));
                assert(s2.take(j + 1).last() == s2[j]);
            }
            let remove_it = match self.toasts[i].state {
                ToastState::Removed => true,
                _ => false,
            };
            if remove_it {
                self.toasts.remove(i);
                proof {
                    assert(self.toasts@ =~= reaped(s2.take(j + 1)) + s2.skip(j + 1));
                }
            } else {
                i = i + 1;
                proof {
                    assert(self.toasts@ =~= reaped(s2.take(j + 1)) + s2.skip(j + 1));
                }
            }
            proof {
                j = j + 1;
            }
        }
        proof {
            assert(s2.skip(j).len() == 0);
            assert(j == s2.len());
            assert(s2.take(j) =~= s2);
            lemma_reaped_unique(s2);
            lemma_reaped_timers_wf(s2);
        }
    }

    /// Looks an identifier up: the slot of the toast that declares it, or
    /// `None` exactly when no toast does.
    pub fn find_by_id(&self, id: &String) -> (r: Option<usize>)
        ensures
            r is Some <==> spec_find_id(self.toasts@, id@) >= 0,
            r is Some ==> r.unwrap() as int == spec_find_id(self.toasts@, id@),
    {
        let ghost s = self.toasts@;
        let n = self.toasts.len();
        let mut i: usize = 0;
        while i < n
            invariant
                n == s.len(),
                s == self.toasts@,
                0 <= i <= n,
                forall|j: int| 0 <= j < i ==> !has_id(s[j], id@),
            decreases n - i,
        {
            let hit = match &self.toasts[i].id {
                Option::Some(other) => other.eq(id),
                Option::None => false,
            };
            if hit {
                proof {
                    lemma_find_id_at(s, id@, i as int);
                }
                return Option::Some(i);
            }
            i = i + 1;
        }
        proof {
            lemma_find_id_at(s, id@, n as int);
        }
        Option::None
    }

    /// Dismisses every toast: each active one enters its exit animation,
    /// the rest are left alone. A no-op on an empty registry.
    pub fn dismiss_all(&mut self)
        requires
            old(self).wf(),
        ensures
            final(self).wf(),
            final(self).toasts@ == dismissed_all(old(self).toasts@),
            final(self).config_of(*old(self)),
    {
        let ghost s = self.toasts@;
        let n = self.toasts.len();
        let mut i: usize = 0;
        while i < n
            invariant
                n == s.len(),
                self.toasts@.len() == n,
                0 <= i <= n,
                forall|j: int| 0 <= j < i ==> self.toasts@[j] == s[j].spec_dismissed(),
                forall|j: int| i <= j < n ==> self.toasts@[j] == s[j],
                self.anchor == old(self).anchor,
                self.margin == old(self).margin,
                self.reverse == old(self).reverse,
            decreases n - i,
        {
            self.toasts[i].dismiss();
            i = i + 1;
        }
        proof {
            assert(self.toasts@ =~= dismissed_all(s));
            lemma_dismissed_all_wf(s);
        }
    }

    /// Dismisses the earliest-inserted toast that is still active, by true
    /// insertion order; the reverse display flag plays no part. A no-op
    /// when no toast is active.
    pub fn dismiss_oldest(&mut self)
        requires
            old(self).wf(),
        ensures
            final(self).wf(),
            spec_first_active(old(self).toasts@) < 0 ==> final(self).toasts@ == old(self).toasts@,
            spec_first_active(old(self).toasts@) >= 0 ==> final(self).toasts@ == old(self).toasts@.update(
                spec_first_active(old(self).toasts@),
                old(self).toasts@[spec_first_active(old(self).toasts@)].spec_dismissed(),
            ),
            final(self).config_of(*old(self)),
    {
        let ghost s = self.toasts@;
        let n = self.toasts.len();
        let mut i: usize = 0;
        while i < n
            invariant
                n == s.len(),
                s == old(self).toasts@,
                self.toasts@ == s,
                self.config_of(*old(self)),
                old(self).wf(),
                0 <= i <= n,
                forall|j: int| 0 <= j < i ==> !(#[trigger] s[j]).is_active(),
            decreases n - i,
        {
            let hit = match self.toasts[i].state {
                ToastState::Appearing | ToastState::Visible => true,
                _ => false,
            };
            if hit {
                proof {
                    lemma_first_active_at(s, i as int);
                }
                self.toasts[i].dismiss();
                proof {
                    lemma_wf_update_keeps_id(s, i as int, s[i as int].spec_dismissed());
                }
                return ;
            }
            i = i + 1;
        }
        proof {
            lemma_first_active_at(s, n as int);
        }
    }

    /// Dismisses the most-recently-inserted toast that is still active, by
    /// true insertion order; the reverse display flag plays no part. A
    /// no-op when no toast is active.
    pub fn dismiss_latest(&mut self)
        requires
            old(self).wf(),
        ensures
            final(self).wf(),
            spec_last_active(old(self).toasts@) < 0 ==> final(self).toasts@ == old(self).toasts@,
            spec_last_active(old(self).toasts@) >= 0 ==> final(self).toasts@ == old(self).toasts@.update(
                spec_last_active(old(self).toasts@),
                old(self).toasts@[spec_last_active(old(self).toasts@)].spec_dismissed(),
            ),
            final(self).config_of(*old(self)),
    {
        let ghost s = self.toasts@;
        let mut i = self.toasts.len();
        while i > 0
            invariant
                s == old(self).toasts@,
                self.toasts@ == s,
                self.config_of(*old(self)),
                old(self).wf(),
                0 <= i <= s.len(),
                forall|j: int| i <= j < s.len() ==> !(#[trigger] s[j]).is_active(),
            decreases i,
        {
            i = i - 1;
            let hit = match self.toasts[i].state {
                ToastState::Appearing | ToastState::Visible => true,
                _ => false,
            };
            if hit {
                proof {
                    lemma_last_active_at(s, i as int);
                }
                self.toasts[i].dismiss();
                proof {
                    lemma_wf_update_keeps_id(s, i as int, s[i as int].spec_dismissed());
                }
                return ;
            }
        }
        proof {
            lemma_last_active_at(s, -1);
        }
    }

    /// A user click on the close affordance of the toast in slot `i`: a
    /// closable toast there is dismissed, anything else (a slot out of
    /// range, a non-closable toast, a toast already on its way out) is
    /// left alone.
    pub fn close_at(&mut self, i: usize)
        requires
            old(self).wf(),
        ensures
            final(self).wf(),
            i < old(self).toasts@.len() && old(self).toasts@[i as int].closable ==> final(self).toasts@ == old(self).toasts@.update(
                i as int,
                old(self).toasts@[i as int].spec_dismissed(),
            ),
            !(i < old(self).toasts@.len() && old(self).toasts@[i as int].closable) ==> final(self).toasts@ == old(self).toasts@,
            final(self).config_of(*old(self)),
    {
        if i < self.toasts.len() {
            if self.toasts[i].closable {
                self.toasts[i].dismiss();
                proof {
                    lemma_wf_update_keeps_id(
                        old(self).toasts@,
                        i as int,
                        old(self).toasts@[i as int].spec_dismissed(),
                    );
                }
            }
        }
    }

    /// The host reports the height a toast came out as when painted; the
    /// layout pass skips toasts that were never measured. A slot out of
    /// range is left alone.
    pub fn set_measured_height(&mut self, i: usize, height: u32)
        requires
            old(self).wf(),
        ensures
            final(self).wf(),
            i < old(self).toasts@.len() ==> final(self).toasts@ == old(self).toasts@.update(
                i as int,
                Toast { height: Option::Some(height), ..old(self).toasts@[i as int] },
            ),
            i >= old(self).toasts@.len() ==> final(self).toasts@ == old(self).toasts@,
            final(self).config_of(*old(self)),
    {
        if i < self.toasts.len() {
            self.toasts[i].height = Option::Some(height);
            proof {
                lemma_wf_update_keeps_id(
                    old(self).toasts@,
                    i as int,
                    Toast { height: Option::Some(height), ..old(self).toasts@[i as int] },
                );
            }
        }
    }
}

/// Resets a toast's timers for (re)insertion, keeping its content.
fn reset_exec(t: Toast) -> (r: Toast)
    ensures
        r == spec_reset(t),
{
    let mut t = t;
    t.state = ToastState::Appearing;
    t.age_ms = 0;
    t.state_since_ms = 0;
    t
}

/// Writing a slot with a toast that clashes with no other slot's identifier
/// and has consistent timers keeps the registry invariant.
proof fn lemma_wf_update(s: Seq<Toast>, k: int, t2: Toast)
    requires
        0 <= k < s.len(),
        ids_unique(s),
        forall|i: int| 0 <= i < s.len() ==> (#[trigger] s[i]).timers_wf(),
        t2.timers_wf(),
        forall|j: int| 0 <= j < s.len() && j != k ==> !same_id(t2, #[trigger] s[j]),
    ensures
        ids_unique(s.update(k, t2)),
        forall|i: int|
            0 <= i < s.update(k, t2).len() ==> (#[trigger] s.update(k, t2)[i]).timers_wf(),
{
    let s2 = s.update(k, t2);
    assert forall|i: int, j: int| 0 <= i < j < s2.len() implies !same_id(s2[i], s2[j]) by {
        if i == k {
            assert(s2[j] == s[j]);
            assert(!same_id(t2, s[j]));
        } else if j == k {
            assert(s2[i] == s[i]);
            assert(!same_id(t2, s[i]));
        } else {
            assert(s2[i] == s[i] && s2[j] == s[j]);
            assert(!same_id(s[i], s[j]));
        }
    }
    assert forall|i: int| 0 <= i < s2.len() implies (#[trigger] s2[i]).timers_wf() by {
        if i != k {
            assert(s2[i] == s[i]);
        }
    }
}

/// The common case of `lemma_wf_update`: the new toast keeps the slot's
/// identifier, so it can clash with nothing the old one did not.
proof fn lemma_wf_update_keeps_id(s: Seq<Toast>, k: int, t2: Toast)
    requires
        0 <= k < s.len(),
        ids_unique(s),
        forall|i: int| 0 <= i < s.len() ==> (#[trigger] s[i]).timers_wf(),
        t2.timers_wf(),
        t2.id == s[k].id,
    ensures
        ids_unique(s.update(k, t2)),
        forall|i: int|
            0 <= i < s.update(k, t2).len() ==> (#[trigger] s.update(k, t2)[i]).timers_wf(),
{
    assert forall|j: int| 0 <= j < s.len() && j != k implies !same_id(t2, #[trigger] s[j]) by {
        if j < k {
            assert(!same_id(s[j], s[k]));
        } else {
            assert(!same_id(s[k], s[j]));
        }
    }
    lemma_wf_update(s, k, t2);
}

/// Dismissing every toast keeps identifiers unique and timers consistent.
proof fn lemma_dismissed_all_wf(s: Seq<Toast>)
    requires
        ids_unique(s),
        forall|i: int| 0 <= i < s.len() ==> (#[trigger] s[i]).timers_wf(),
    ensures
        ids_unique(dismissed_all(s)),
        forall|i: int|
            0 <= i < s.len() ==> (#[trigger] dismissed_all(s)[i]).timers_wf(),
{
    let s2 = dismissed_all(s);
    assert forall|i: int| 0 <= i < s.len() implies (#[trigger] s2[i]).timers_wf() by {
        assert(s2[i] == s[i].spec_dismissed());
    }
    assert forall|i: int, j: int| 0 <= i < j < s2.len() implies !same_id(s2[i], s2[j]) by {
        assert(s2[i].id == s[i].id);
        assert(s2[j].id == s[j].id);
        assert(!same_id(s[i], s[j]));
    }
}

/// A linear scan that rules `id` out of every slot before `i` and finds it
/// at `i` has found the first occurrence; one that rules out every slot
/// finds none.
proof fn lemma_find_id_at(s: Seq<Toast>, id: Seq<char>, i: int)
    requires
        0 <= i <= s.len(),
        forall|j: int| 0 <= j < i ==> !has_id(s[j], id),
        i < s.len() ==> has_id(s[i], id),
    ensures
        i < s.len() ==> spec_find_id(s, id) == i,
        i == s.len() ==> spec_find_id(s, id) == -1,
    decreases s.len(),
{
    if s.len() > 0 {
        if i == 0 {
        } else {
            assert(!has_id(s[0], id));
            lemma_find_id_at(s.drop_first(), id, i - 1);
        }
    }
}

/// Same, for the first active toast.
proof fn lemma_first_active_at(s: Seq<Toast>, i: int)
    requires
        0 <= i <= s.len(),
        forall|j: int| 0 <= j < i ==> !(#[trigger] s[j]).is_active(),
        i < s.len() ==> s[i].is_active(),
    ensures
        i < s.len() ==> spec_first_active(s) == i,
        i == s.len() ==> spec_first_active(s) == -1,
    decreases s.len(),
{
    if s.len() > 0 {
        if i == 0 {
        } else {
            assert(!s[0].is_active());
            lemma_first_active_at(s.drop_first(), i - 1);
        }
    }
}

/// A scan from the end that rules out every slot after `i` and finds an
/// active toast at `i` has found the last active one; `i == -1` with every
/// slot ruled out means none is active.
proof fn lemma_last_active_at(s: Seq<Toast>, i: int)
    requires
        -1 <= i < s.len(),
        forall|j: int| i < j < s.len() ==> !(#[trigger] s[j]).is_active(),
        i >= 0 ==> s[i].is_active(),
    ensures
        i >= 0 ==> spec_last_active(s) == i,
        i < 0 ==> spec_last_active(s) == -1,
    decreases s.len(),
{
    if s.len() > 0 {
        if i == s.len() - 1 {
        } else {
            assert(!s.last().is_active());
            lemma_last_active_at(s.drop_last(), i);
        }
    }
}

/// Ticking every toast keeps identifiers unique and timers consistent.
proof fn lemma_stepped_all_wf(s: Seq<Toast>, delta_ms: u64)
    requires
        ids_unique(s),
        forall|i: int| 0 <= i < s.len() ==> (#[trigger] s[i]).timers_wf(),
    ensures
        ids_unique(stepped_all(s, delta_ms)),
        forall|i: int|
            0 <= i < s.len() ==> (#[trigger] stepped_all(s, delta_ms)[i]).timers_wf(),
{
    let s2 = stepped_all(s, delta_ms);
    assert forall|i: int| 0 <= i < s.len() implies (#[trigger] s2[i]).timers_wf() by {
        crate::toast::lemma_tick_preserves_timers_wf(s[i], delta_ms);
    }
    assert forall|i: int, j: int| 0 <= i < j < s2.len() implies !same_id(s2[i], s2[j]) by {
        assert(s2[i].id == s[i].id);
        assert(s2[j].id == s[j].id);
        assert(!same_id(s[i], s[j]));
    }
}

/// Every element of the reaped sequence is an element of the input.
proof fn lemma_reaped_element_of(s: Seq<Toast>, k: int)
    requires
        0 <= k < reaped(s).len(),
    ensures
        exists|i: int| 0 <= i < s.len() && reaped(s)[k] == s[i],
    decreases s.len(),
{
    if s.len() > 0 {
        let r1 = reaped(s.drop_last());
        if k < r1.len() {
            lemma_reaped_element_of(s.drop_last(), k);
            let i = choose|i: int| 0 <= i < s.drop_last().len() && r1[k] == s.drop_last()[i];
            assert(reaped(s)[k] == s[i]);
        } else {
            assert(reaped(s)[k] == s.last());
        }
    }
}

/// Reaping keeps identifiers unique.
proof fn lemma_reaped_unique(s: Seq<Toast>)
    requires
        ids_unique(s),
    ensures
        ids_unique(reaped(s)),
    decreases s.len(),
{
    if s.len() > 0 {
        let s1 = s.drop_last();
        assert(ids_unique(s1));
        lemma_reaped_unique(s1);
        let r = reaped(s);
        let r1 = reaped(s1);
        assert forall|i: int, j: int| 0 <= i < j < r.len() implies !same_id(r[i], r[j]) by {
            if j < r1.len() {
                assert(!same_id(r1[i], r1[j]));
            } else {
                assert(r[j] == s.last());
                lemma_reaped_element_of(s1, i);
                let m = choose|m: int| 0 <= m < s1.len() && r1[i] == s1[m];
                assert(!same_id(s[m], s[s.len() - 1]));
            }
        }
    }
}

/// Reaping keeps every toast's timers consistent.
proof fn lemma_reaped_timers_wf(s: Seq<Toast>)
    requires
        forall|i: int| 0 <= i < s.len() ==> (#[trigger] s[i]).timers_wf(),
    ensures
        forall|k: int| 0 <= k < reaped(s).len() ==> (#[trigger] reaped(s)[k]).timers_wf(),
{
    assert forall|k: int| 0 <= k < reaped(s).len() implies (#[trigger] reaped(s)[k]).timers_wf()
        by {
        lemma_reaped_element_of(s, k);
    }
}

/// Adding a toast under an identifier that is already present leaves the
/// registry with a single entry for it, reset to `Appearing`: two
/// successive adds of the same identifier into an empty registry end at
/// exactly one entry, holding the second toast's content with its timers
/// restarted.
pub proof fn lemma_add_same_id_updates_in_place(t1: Toast, t2: Toast)
    requires
        t1.id is Some,
        t2.id is Some,
        t1.id.unwrap()@ == t2.id.unwrap()@,
    ensures
        added_seq(added_seq(Seq::empty(), t1), t2).len() == 1,
        added_seq(added_seq(Seq::empty(), t1), t2)[0] == spec_reset(t2),
        added_seq(added_seq(Seq::empty(), t1), t2)[0].state == ToastState::Appearing,
        added_seq(added_seq(Seq::empty(), t1), t2)[0].age_ms == 0,
{
    let s0 = Seq::<Toast>::empty();
    let s1 = added_seq(s0, t1);
    assert(spec_find_id(s0, t1.id.unwrap()@) == -1);
    assert(s1 =~= seq![spec_reset(t1)]);
    assert(has_id(s1[0], t2.id.unwrap()@));
    assert(spec_find_id(s1, t2.id.unwrap()@) == 0);
}

/// Dismiss-oldest retires toasts in true insertion order: once every slot
/// before `k` is already inactive and slot `k` is active, the policy
/// targets exactly slot `k`, after which every slot up to and including
/// `k` is inactive and every later slot is untouched — so repeated calls
/// walk the registry front to back. The reverse display flag plays no
/// part in this.
pub proof fn lemma_dismiss_oldest_in_order(s: Seq<Toast>, k: int)
    requires
        0 <= k < s.len(),
        forall|j: int| 0 <= j < k ==> !(#[trigger] s[j]).is_active(),
        s[k].is_active(),
    ensures
        spec_first_active(s) == k,
        forall|j: int|
            0 <= j <= k ==> !(#[trigger] s.update(k, s[k].spec_dismissed())[j]).is_active(),
        forall|j: int| k < j < s.len() ==> s.update(k, s[k].spec_dismissed())[j] == s[j],
{
    lemma_first_active_at(s, k);
}

/// Dismiss-latest targets exactly the most-recently-inserted active toast
/// and leaves every other slot untouched. The reverse display flag plays
/// no part in this.
pub proof fn lemma_dismiss_latest_targets_newest(s: Seq<Toast>, k: int)
    requires
        0 <= k < s.len(),
        forall|j: int| k < j < s.len() ==> !(#[trigger] s[j]).is_active(),
        s[k].is_active(),
    ensures
        spec_last_active(s) == k,
        !s.update(k, s[k].spec_dismissed())[k].is_active(),
        forall|j: int|
            0 <= j < s.len() && j != k ==> s.update(k, s[k].spec_dismissed())[j] == s[j],
{
    lemma_last_active_at(s, k);
}


} // verus!
