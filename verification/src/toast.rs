//! A single toast and its lifecycle state machine.
//!
//! A toast moves through `Appearing -> Visible -> Disappearing -> Removed`.
//! All timing is carried as accumulated milliseconds handed in by the host
//! once per frame, so the machine is deterministic: the same sequence of
//! deltas always produces the same states. Animation progress is recomputed
//! from the time spent in the current state on every tick; it is never an
//! internally advancing counter.

use vstd::prelude::*;

verus! {

/// Milliseconds the fixed entrance animation runs.
pub const APPEAR_MS: u64 = 200;

/// Milliseconds the fixed exit animation runs.
pub const DISAPPEAR_MS: u64 = 200;

/// Animation progress is reported in thousandths, from 0 to this value.
pub const PROGRESS_FULL: u64 = 1000;

/// How far (in host units) a toast slides in from its anchor's side while
/// appearing or disappearing.
pub const SLIDE_DISTANCE: u64 = 64;

/// What a toast is: its severity, or a custom label with a color.
#[derive(Debug)]
pub enum ToastKind {
    Success,
    Info,
    Warning,
    Error,
    Basic,
    /// Free-form label and an RGBA color packed as `0xRRGGBBAA`.
    Custom(String, u32),
}

/// Lifecycle state of a toast.
#[derive(Debug, Clone, Copy, PartialEq, Eq, Structural)]
pub enum ToastState {
    /// Entrance animation running.
    Appearing,
    /// Steady state; the configured duration, if any, counts down here.
    Visible,
    /// Exit animation running.
    Disappearing,
    /// Terminal; the registry reaps the toast on its next tick.
    Removed,
}

/// One transient notification.
///
/// `age_ms` is the time since the toast was created (or last reset by an
/// update-in-place), accumulated from the host's per-frame deltas;
/// `state_since_ms` is the value `age_ms` had when the current state was
/// entered. Both saturate at `u64::MAX` rather than wrap.
pub struct Toast {
    /// Optional explicit identifier; toasts without one are never matched
    /// for update-in-place.
    pub id: Option<String>,
    pub kind: ToastKind,
    pub message: String,
    /// Display duration in milliseconds; `None` means the toast never
    /// auto-expires.
    pub duration_ms: Option<u64>,
    /// Whether the host should offer a close affordance.
    pub closable: bool,
    /// Whether the host should draw a progress bar for the countdown.
    pub show_progress: bool,
    /// Font size in host units.
    pub font_size: u32,
    /// Optional text color override, packed as `0xRRGGBBAA`.
    pub text_color: Option<u32>,
    pub state: ToastState,
    pub age_ms: u64,
    pub state_since_ms: u64,
    /// Height in host units, reported back by the host after the first
    /// paint; a toast is not laid out until it is measured.
    pub height: Option<u32>,
}

/// Addition on the millisecond clock: saturates at `u64::MAX` instead of
/// wrapping.
pub open spec fn sat_add64(a: u64, b: u64) -> u64 {
    if a + b > u64::MAX {
        u64::MAX
    } else {
        (a + b) as u64
    }
}

impl Toast {
    /// Timers are consistent: the current state was entered no later than
    /// the toast's age.
    pub open spec fn timers_wf(self) -> bool {
        self.state_since_ms <= self.age_ms
    }

    /// A toast that has neither begun its exit animation nor ended: the
    /// dismissal policies act exactly on these.
    pub open spec fn is_active(self) -> bool {
        self.state == ToastState::Appearing || self.state == ToastState::Visible
    }

    /// The toast one tick of `delta_ms` milliseconds later. At most one
    /// transition happens per tick, so a toast whose duration has already
    /// passed when it becomes `Visible` still spends that one tick visible
    /// and expires on the next.
    pub open spec fn stepped(self, delta_ms: u64) -> Toast {
        let age2 = sat_add64(self.age_ms, delta_ms);
        match self.state {
            ToastState::Appearing => {
                if age2 >= APPEAR_MS {
                    Toast { state: ToastState::Visible, age_ms: age2, state_since_ms: age2, ..self }
                } else {
                    Toast { age_ms: age2, ..self }
                }
            },
            ToastState::Visible => {
                match self.duration_ms {
                    Option::None => Toast { age_ms: age2, ..self },
                    Option::Some(d) => {
                        if age2 >= sat_add64(self.state_since_ms, d) {
                            Toast {
                                state: ToastState::Disappearing,
                                age_ms: age2,
                                state_since_ms: age2,
                                ..self
                            }
                        } else {
                            Toast { age_ms: age2, ..self }
                        }
                    },
                }
            },
            ToastState::Disappearing => {
                if age2 >= sat_add64(self.state_since_ms, DISAPPEAR_MS) {
                    Toast { state: ToastState::Removed, age_ms: age2, state_since_ms: age2, ..self }
                } else {
                    Toast { age_ms: age2, ..self }
                }
            },
            ToastState::Removed => self,
        }
    }

    /// The toast after a forced dismissal: an active toast enters its exit
    /// animation, any other toast is left alone.
    pub open spec fn spec_dismissed(self) -> Toast {
        if self.is_active() {
            Toast { state: ToastState::Disappearing, state_since_ms: self.age_ms, ..self }
        } else {
            self
        }
    }

    /// Animation progress in thousandths: ramps 0 up to `PROGRESS_FULL`
    /// while appearing, stays there while visible, ramps back down to 0
    /// while disappearing, and is 0 once removed.
    pub open spec fn spec_progress(self) -> int {
        let e = self.age_ms - self.state_since_ms;
        match self.state {
            ToastState::Appearing => {
                if e >= APPEAR_MS {
                    PROGRESS_FULL as int
                } else {
                    e * (PROGRESS_FULL as int) / (APPEAR_MS as int)
                }
            },
            ToastState::Visible => PROGRESS_FULL as int,
            ToastState::Disappearing => {
                if e >= DISAPPEAR_MS {
                    0
                } else {
                    (PROGRESS_FULL as int) - e * (PROGRESS_FULL as int) / (DISAPPEAR_MS as int)
                }
            },
            ToastState::Removed => 0,
        }
    }

    /// What a freshly created toast looks like: not yet measured, no
    /// identifier, no auto-expiry, entering its entrance animation.
    pub open spec fn spec_fresh(kind: ToastKind, message: String) -> Toast {
        Toast {
            id: Option::None,
            kind: kind,
            message: message,
            duration_ms: Option::None,
            closable: true,
            show_progress: false,
            font_size: 16,
            text_color: Option::None,
            state: ToastState::Appearing,
            age_ms: 0,
            state_since_ms: 0,
            height: Option::None,
        }
    }

    /// Fresh toast of the given kind and message: not yet measured, no
    /// identifier, no auto-expiry, entering its entrance animation.
    pub fn new(kind: ToastKind, message: String) -> (t: Toast)
        ensures
            t == Toast::spec_fresh(kind, message),
    {
        Toast {
            id: Option::None,
            kind,
            message,
            duration_ms: Option::None,
            closable: true,
            show_progress: false,
            font_size: 16,
            text_color: Option::None,
            state: ToastState::Appearing,
            age_ms: 0,
            state_since_ms: 0,
            height: Option::None,
        }
    }

    /// A success toast.
    pub fn success(message: String) -> (t: Toast)
        ensures
            t == Toast::spec_fresh(ToastKind::Success, message),
    {
        Toast::new(ToastKind::Success, message)
    }

    /// An informational toast.
    pub fn info(message: String) -> (t: Toast)
        ensures
            t == Toast::spec_fresh(ToastKind::Info, message),
    {
        Toast::new(ToastKind::Info, message)
    }

    /// A warning toast.
    pub fn warning(message: String) -> (t: Toast)
        ensures
            t == Toast::spec_fresh(ToastKind::Warning, message),
    {
        Toast::new(ToastKind::Warning, message)
    }

    /// An error toast.
    pub fn error(message: String) -> (t: Toast)
        ensures
            t == Toast::spec_fresh(ToastKind::Error, message),
    {
        Toast::new(ToastKind::Error, message)
    }

    /// An unstyled toast.
    pub fn basic(message: String) -> (t: Toast)
        ensures
            t == Toast::spec_fresh(ToastKind::Basic, message),
    {
        Toast::new(ToastKind::Basic, message)
    }

    /// A toast with a free-form label and color.
    pub fn custom(message: String, label: String, color: u32) -> (t: Toast)
        ensures
            t == Toast::spec_fresh(ToastKind::Custom(label, color), message),
    {
        Toast::new(ToastKind::Custom(label, color), message)
    }

    /// Sets the explicit identifier used for update-in-place.
    pub fn with_id(self, id: String) -> (t: Toast)
        ensures
            t == (Toast { id: Option::Some(id), ..self }),
    {
        let mut t = self;
        t.id = Option::Some(id);
        t
    }

    /// Sets or clears the display duration.
    pub fn with_duration(self, duration_ms: Option<u64>) -> (t: Toast)
        ensures
            t == (Toast { duration_ms: duration_ms, ..self }),
    {
        let mut t = self;
        t.duration_ms = duration_ms;
        t
    }

    /// Sets whether the host should offer a close affordance.
    pub fn with_closable(self, closable: bool) -> (t: Toast)
        ensures
            t == (Toast { closable: closable, ..self }),
    {
        let mut t = self;
        t.closable = closable;
        t
    }

    /// Sets whether the host should draw a countdown progress bar.
    pub fn with_show_progress(self, show_progress: bool) -> (t: Toast)
        ensures
            t == (Toast { show_progress: show_progress, ..self }),
    {
        let mut t = self;
        t.show_progress = show_progress;
        t
    }

    /// Sets the font size.
    pub fn with_font_size(self, font_size: u32) -> (t: Toast)
        ensures
            t == (Toast { font_size: font_size, ..self }),
    {
        let mut t = self;
        t.font_size = font_size;
        t
    }

    /// Sets or clears the text color override.
    pub fn with_text_color(self, text_color: Option<u32>) -> (t: Toast)
        ensures
            t == (Toast { text_color: text_color, ..self }),
    {
        let mut t = self;
        t.text_color = text_color;
        t
    }

    /// Advances this toast by `delta_ms` milliseconds of host time.
    pub fn tick(&mut self, delta_ms: u64)
        ensures
            *final(self) == old(self).stepped(delta_ms),
    {
        let age2: u64 = if self.age_ms > u64::MAX - delta_ms {
            u64::MAX
        } else {
            self.age_ms + delta_ms
        };
        match self.state {
            ToastState::Appearing => {
                self.age_ms = age2;
                if age2 >= APPEAR_MS {
                    self.state = ToastState::Visible;
                    self.state_since_ms = age2;
                }
            },
            ToastState::Visible => {
                self.age_ms = age2;
                match self.duration_ms {
                    Option::None => {},
                    Option::Some(d) => {
                        let deadline: u64 = if self.state_since_ms > u64::MAX - d {
                            u64::MAX
                        } else {
                            self.state_since_ms + d
                        };
                        if age2 >= deadline {
                            self.state = ToastState::Disappearing;
                            self.state_since_ms = age2;
                        }
                    },
                }
            },
            ToastState::Disappearing => {
                self.age_ms = age2;
                let deadline: u64 = if self.state_since_ms > u64::MAX - DISAPPEAR_MS {
                    u64::MAX
                } else {
                    self.state_since_ms + DISAPPEAR_MS
                };
                if age2 >= deadline {
                    self.state = ToastState::Removed;
                    self.state_since_ms = age2;
                }
            },
            ToastState::Removed => {},
        }
    }

    /// Forces an active toast into its exit animation; a no-op on a toast
    /// already disappearing or removed.
    pub fn dismiss(&mut self)
        ensures
            *final(self) == old(self).spec_dismissed(),
    {
        match self.state {
            ToastState::Appearing | ToastState::Visible => {
                self.state = ToastState::Disappearing;
                self.state_since_ms = self.age_ms;
            },
            _ => {},
        }
    }

    /// Current animation progress in thousandths.
    pub fn progress_permille(&self) -> (p: u64)
        requires
            self.timers_wf(),
        ensures
            p as int == self.spec_progress(),
            p <= PROGRESS_FULL,
    {
        let e = self.age_ms - self.state_since_ms;
        match self.state {
            ToastState::Appearing => {
                if e >= APPEAR_MS {
                    PROGRESS_FULL
                } else {
                    e * PROGRESS_FULL / APPEAR_MS
                }
            },
            ToastState::Visible => PROGRESS_FULL,
            ToastState::Disappearing => {
                if e >= DISAPPEAR_MS {
                    0
                } else {
                    PROGRESS_FULL - e * PROGRESS_FULL / DISAPPEAR_MS
                }
            },
            ToastState::Removed => 0,
        }
    }
}

/// Ticking preserves timer consistency.
pub proof fn lemma_tick_preserves_timers_wf(t: Toast, delta_ms: u64)
    requires
        t.timers_wf(),
    ensures
        t.stepped(delta_ms).timers_wf(),
{
}

/// Ticking never changes what a toast says, only when and how it shows:
/// identifier, kind, message, configuration and measured height all survive.
pub proof fn lemma_tick_changes_only_timing(t: Toast, delta_ms: u64)
    ensures
        t.stepped(delta_ms).id == t.id,
        t.stepped(delta_ms).kind == t.kind,
        t.stepped(delta_ms).message == t.message,
        t.stepped(delta_ms).duration_ms == t.duration_ms,
        t.stepped(delta_ms).closable == t.closable,
        t.stepped(delta_ms).show_progress == t.show_progress,
        t.stepped(delta_ms).font_size == t.font_size,
        t.stepped(delta_ms).text_color == t.text_color,
        t.stepped(delta_ms).height == t.height,
{
}

/// Runs a toast through a whole sequence of ticks, first delta first.
pub open spec fn run_ticks(t: Toast, deltas: Seq<u64>) -> Toast
    decreases deltas.len(),
{
    if deltas.len() == 0 {
        t
    } else {
        run_ticks(t.stepped(deltas[0]), deltas.drop_first())
    }
}

/// A visible toast with no configured duration stays visible across any
/// number of ticks: only an explicit dismissal can retire it.
pub proof fn lemma_no_duration_stays_visible(t: Toast, deltas: Seq<u64>)
    requires
        t.state == ToastState::Visible,
        t.duration_ms is None,
    ensures
        run_ticks(t, deltas).state == ToastState::Visible,
        run_ticks(t, deltas).duration_ms is None,
    decreases deltas.len(),
{
    if deltas.len() > 0 {
        lemma_no_duration_stays_visible(t.stepped(deltas[0]), deltas.drop_first());
    }
}

/// Total milliseconds in a sequence of tick deltas, as an unbounded integer.
pub open spec fn total_ms(deltas: Seq<u64>) -> int
    decreases deltas.len(),
{
    if deltas.len() == 0 {
        0
    } else {
        deltas[0] + total_ms(deltas.drop_first())
    }
}

/// A toast does not leave `Visible` before its configured duration has run
/// down: across any run of ticks whose total still falls short of the
/// deadline, it stays visible.
pub proof fn lemma_visible_until_duration(t: Toast, deltas: Seq<u64>)
    requires
        t.state == ToastState::Visible,
        t.duration_ms is Some,
        t.age_ms + total_ms(deltas) < t.state_since_ms + t.duration_ms.unwrap(),
        t.age_ms + total_ms(deltas) < u64::MAX,
    ensures
        run_ticks(t, deltas).state == ToastState::Visible,
    decreases deltas.len(),
{
    if deltas.len() > 0 {
        let t1 = t.stepped(deltas[0]);
        lemma_total_ms_nonneg(deltas.drop_first());
        assert(t.age_ms + deltas[0] <= t.age_ms + total_ms(deltas));
        assert(t1.age_ms == t.age_ms + deltas[0]);
        assert(t1.state == ToastState::Visible);
        lemma_visible_until_duration(t1, deltas.drop_first());
    }
}

/// A total of tick deltas is never negative.
pub proof fn lemma_total_ms_nonneg(deltas: Seq<u64>)
    ensures
        total_ms(deltas) >= 0,
    decreases deltas.len(),
{
    if deltas.len() > 0 {
        lemma_total_ms_nonneg(deltas.drop_first());
    }
}

/// A visible toast leaves `Visible` on the very tick that carries it past
/// its deadline: expiry is never later than one tick after the duration
/// elapses.
pub proof fn lemma_expires_when_duration_elapses(t: Toast, delta_ms: u64)
    requires
        t.state == ToastState::Visible,
        t.duration_ms is Some,
        sat_add64(t.age_ms, delta_ms) >= sat_add64(t.state_since_ms, t.duration_ms.unwrap()),
    ensures
        t.stepped(delta_ms).state == ToastState::Disappearing,
{
}

} // verus!
