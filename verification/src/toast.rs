//! Transient notifications, drawn over the viewport.
//!
//! The app has **no modal dialogs**, by design: the simulation is always running
//! and a modal would stop the user interacting with a live system to acknowledge
//! something they already knew. But some events genuinely must not be missed,
//! above all a **statistics reset**, because averaging across a
//! boundary-condition change produces a confidently wrong number with a small
//! error bar.
//!
//! A toast threads that needle: impossible to miss, impossible to be blocked by.
//! The severities differ in how long they stay, and a [`Severity::Critical`]
//! toast does not fade at all until it is dismissed.
//!
//! # Coalescing
//!
//! Dragging the inlet slider produces a statistics reset on *every frame*. Sixty
//! toasts a second is not a notification, it is a strobe. Toasts carry an
//! optional [`Toast::key`]; pushing one whose key matches a live toast restarts
//! that toast's timer and increments its repeat count instead of stacking a new
//! one.
use std::collections::VecDeque;
use vstd::arithmetic::power2::{lemma2_to64, pow2};
use vstd::prelude::*;
use vstd::string::StringExecFns;
use crate::binary32::{
    is_sum, lemma_at_least, lemma_at_most, lemma_multiple_of_one, lemma_ordered, size_of, sum,
    value_of, STEPS,
};
use crate::config::ONE;
use crate::float_order::{
    at_most32, clamp32, clamped32, eq32, finite32, greater32, le32, max32, nan32, neg32, negated32,
};
use crate::text::{decimal, decimal_string};
use crate::view::ResetCause;

verus! {

#[derive(Clone, Copy, Debug, PartialEq, Eq, PartialOrd, Ord, Structural)]
pub enum Severity {
    Info,
    /// Something the user must know but need not act on. Statistics resets
    /// live here.
    Notice,
    Warning,
    /// Stays until dismissed.
    Critical,
}

impl Severity {
    /// RGBA for the title, as `f32` bits.
    pub fn color(self) -> (c: [u32; 4])
        ensures
            c@ == (match self {
                Severity::Info => seq![0x3f1e_b852u32, 0x3f2e_147b, 0x3f47_ae14, 0x3f80_0000],
                Severity::Notice => seq![0x3ee6_6666u32, 0x3f42_8f5c, 0x3f73_3333, 0x3f80_0000],
                Severity::Warning => seq![0x3f73_3333u32, 0x3f38_51ec, 0x3e38_51ec, 0x3f80_0000],
                Severity::Critical => seq![0x3f70_a3d7u32, 0x3ea8_f5c3, 0x3e9e_b852, 0x3f80_0000],
            }),
    {
        match self {
            Severity::Info => [0x3f1e_b852, 0x3f2e_147b, 0x3f47_ae14, 0x3f80_0000],
            Severity::Notice => [0x3ee6_6666, 0x3f42_8f5c, 0x3f73_3333, 0x3f80_0000],
            Severity::Warning => [0x3f73_3333, 0x3f38_51ec, 0x3e38_51ec, 0x3f80_0000],
            Severity::Critical => [0x3f70_a3d7, 0x3ea8_f5c3, 0x3e9e_b852, 0x3f80_0000],
        }
    }

    /// Place in the order of severities.
    pub open spec fn rank(self) -> int {
        match self {
            Severity::Info => 0,
            Severity::Notice => 1,
            Severity::Warning => 2,
            Severity::Critical => 3,
        }
    }

    /// The worse of two.
    pub open spec fn worse(self, other: Severity) -> Severity {
        if other.rank() > self.rank() {
            other
        } else {
            self
        }
    }

    fn worst(self, other: Severity) -> (s: Severity)
        ensures
            s == self.worse(other),
    {
        match (self, other) {
            (_, Severity::Critical) => Severity::Critical,
            (Severity::Critical, _) => Severity::Critical,
            (_, Severity::Warning) => Severity::Warning,
            (Severity::Warning, _) => Severity::Warning,
            (_, Severity::Notice) => Severity::Notice,
            (Severity::Notice, _) => Severity::Notice,
            (Severity::Info, Severity::Info) => Severity::Info,
        }
    }

    /// Seconds on screen, as `f32` bits.
    pub open spec fn lifetime(self) -> Option<u32> {
        match self {
            Severity::Info => Some(0x4040_0000),
            Severity::Notice => Some(0x40a0_0000),
            Severity::Warning => Some(0x4110_0000),
            Severity::Critical => None,
        }
    }

    /// Seconds on screen, as `f32` bits: 3, 5 or 9. `None` means "until dismissed".
    pub fn lifetime_s(self) -> (r: Option<u32>)
        ensures
            r == self.lifetime(),
    {
        match self {
            Severity::Info => Some(0x4040_0000),
            Severity::Notice => Some(0x40a0_0000),
            Severity::Warning => Some(0x4110_0000),
            Severity::Critical => None,
        }
    }

    /// What stands before the title.
    pub open spec fn heading(self) -> Seq<char> {
        match self {
            Severity::Info => ""@,
            Severity::Notice => ""@,
            Severity::Warning => "warning: "@,
            Severity::Critical => "ERROR: "@,
        }
    }

    pub fn prefix(self) -> (s: &'static str)
        ensures
            s@ == self.heading(),
    {
        match self {
            Severity::Info => "",
            Severity::Notice => "",
            Severity::Warning => "warning: ",
            Severity::Critical => "ERROR: ",
        }
    }
}

/// One message on screen.
#[derive(Clone, Debug)]
pub struct Toast {
    pub severity: Severity,
    pub title: String,
    /// Optional second line, for the detail that would make the title too long.
    pub detail: String,
    /// Coalescing key. Two toasts with the same non-empty key are the same
    /// toast.
    pub key: String,
    /// Seconds this toast has been alive, as `f32` bits.
    pub age_s: u32,
    /// How many times it has been re-raised while alive.
    pub repeats: u32,
}

impl Toast {
    pub fn new(severity: Severity, title: &str) -> (t: Self)
        ensures
            t.severity == severity,
            t.title@ == title@,
            t.detail@.len() == 0,
            t.key@.len() == 0,
            t.age_s == 0,
            t.repeats == 0,
    {
        Toast {
            severity,
            title: String::from_str(title),
            detail: String::new(),
            key: String::new(),
            age_s: 0,
            repeats: 0,
        }
    }

    pub fn with_detail(self, detail: &str) -> (t: Self)
        ensures
            t.detail@ == detail@,
            t == (Toast { detail: t.detail, ..self }),
    {
        Toast { detail: String::from_str(detail), ..self }
    }

    /// Give the toast a coalescing key.
    pub fn with_key(self, key: &str) -> (t: Self)
        ensures
            t.key@ == key@,
            t == (Toast { key: t.key, ..self }),
    {
        Toast { key: String::from_str(key), ..self }
    }

    /// The statistics-reset toast. Made here rather than at each call site so
    /// every reset, wherever it comes from, is announced identically, and so the
    /// key is guaranteed to coalesce across a slider drag.
    pub fn statistics_reset(cause: ResetCause) -> (t: Self)
        ensures
            t.is_reset_of(cause),
            t.age_s == 0,
            t.repeats == 0,
    {
        let mut detail: String = String::from_str(cause.message());
        detail.append(" - averages and error bars start again from zero");
        Toast::new(Severity::Notice, "Statistics reset").with_detail(detail.as_str()).with_key(
            "stats-reset",
        )
    }

    /// Whether this announces a statistics reset with the given cause.
    pub open spec fn is_reset_of(&self, cause: ResetCause) -> bool {
        &&& self.severity == Severity::Notice
        &&& self.title@ == "Statistics reset"@
        &&& self.detail@ == cause.text() + " - averages and error bars start again from zero"@
        &&& self.key@ == "stats-reset"@
    }

    /// Whether `r` is the remaining life as a fraction: one less the part of the
    /// lifetime that is over, held between zero and one. Always one for a critical
    /// toast, which never fades.
    pub open spec fn remains<D: Fn(u32, u32) -> u32>(&self, divide: D, r: u32) -> bool {
        match self.severity.lifetime() {
            Some(life) => exists|over: u32, left: u32| #[trigger]
                divide.ensures((self.age_s, life), over) && #[trigger] is_sum(
                    ONE,
                    negated32(over),
                    left,
                ) && r == clamped32(left, 0, ONE),
            None => r == ONE,
        }
    }

    /// Remaining life as a fraction, for the fade-out. Always 1 for a critical toast,
    /// which never fades.
    #[verifier::spinoff_prover]
    #[verifier::rlimit(80)]
    pub fn remaining<D: Fn(u32, u32) -> u32>(&self, divide: &D) -> (r: u32)
        requires
            forall|a: u32, b: u32| #[trigger] divide.requires((a, b)),
        ensures
            self.remains(*divide, r),
    {
        match self.severity.lifetime_s() {
            Some(life) => {
                let over: u32 = divide(self.age_s, life);
                let left: u32 = sum(ONE, neg32(over));
                clamp32(left, 0, ONE)
            },
            None => ONE,
        }
    }

    /// Whether the toast has had its time.
    pub open spec fn is_over(&self) -> bool {
        self.severity.lifetime() matches Some(life) && le32(life, self.age_s)
    }

    pub fn expired(&self) -> (r: bool)
        ensures
            r == self.is_over(),
    {
        match self.severity.lifetime_s() {
            Some(life) => at_most32(life, self.age_s),
            None => false,
        }
    }

    /// Title with the repeat count appended, so a coalesced burst still shows
    /// how big it was.
    pub fn display_title(&self) -> (s: String)
        ensures
            s@ == if self.repeats > 0 {
                self.severity.heading() + self.title@ + " (x"@ + decimal(self.repeats + 1) + ")"@
            } else {
                self.severity.heading() + self.title@
            },
    {
        let mut s: String = String::from_str(self.severity.prefix());
        s.append(self.title.as_str());
        if self.repeats > 0 {
            s.append(" (x");
            s.append(decimal_string(self.repeats as u64 + 1).as_str());
            s.append(")");
        }
        s
    }
}

/// Hard cap on simultaneous toasts. Beyond this the oldest non-critical one is
/// dropped: a stack taller than the viewport hides the thing it is reporting
/// on.
pub const MAX_TOASTS: usize = 5;

/// The live queue, oldest first.
#[derive(Clone, Debug)]
pub struct Toasts {
    pub items: VecDeque<Toast>,
}

/// The first toast from `i` on that is not critical, or the length where there
/// is none.
pub open spec fn first_expirable(s: Seq<Toast>, i: int) -> int
    decreases s.len() - i,
{
    if i >= s.len() {
        s.len() as int
    } else if s[i].severity != Severity::Critical {
        i
    } else {
        first_expirable(s, i + 1)
    }
}

/// The queue with one toast dropped: the oldest that is not critical, or the
/// oldest of all where every one is.
pub open spec fn evicted(s: Seq<Toast>) -> Seq<Toast> {
    let i = first_expirable(s, 0);
    s.remove(
        if i < s.len() {
            i
        } else {
            0
        },
    )
}

/// A live toast after it has been raised again.
pub open spec fn raised_again(existing: Toast, toast: Toast) -> Toast {
    Toast {
        repeats: (existing.repeats + 1) as u32,
        age_s: 0,
        severity: existing.severity.worse(toast.severity),
        detail: toast.detail,
        ..existing
    }
}

/// Whether `t` is the toast `before` with more time on screen; time never runs
/// backwards.
pub open spec fn is_aged(before: Toast, dt: u32, t: Toast) -> bool {
    &&& is_sum(before.age_s, greater32(dt, 0), t.age_s)
    &&& t == Toast { age_s: t.age_s, ..before }
}

/// Whether `after` holds every toast of `before` with more time on screen.
pub open spec fn are_aged(before: Seq<Toast>, dt: u32, after: Seq<Toast>) -> bool {
    &&& after.len() == before.len()
    &&& forall|i: int| 0 <= i < after.len() ==> is_aged(before[i], dt, #[trigger] after[i])
}

impl Default for Toasts {
    fn default() -> (t: Self)
        ensures
            t.items@.len() == 0,
            t.wf(),
    {
        Toasts { items: VecDeque::new() }
    }
}

impl Toasts {
    /// Never more than the cap, and no two with the same key.
    pub open spec fn wf(&self) -> bool {
        &&& self.items@.len() <= MAX_TOASTS
        &&& forall|i: int, j: int|
            0 <= i < j < self.items@.len() && self.items@[i].key@.len() > 0
                ==> self.items@[i].key@ != self.items@[j].key@
    }

    /// Whether a live toast has this key.
    pub open spec fn live(&self, key: Seq<char>) -> bool {
        exists|i: int| 0 <= i < self.items@.len() && #[trigger] self.items@[i].key@ == key
    }

    /// Whether `after` is what raising `toast` makes of this stack. A live toast
    /// with the same key is raised again, under the worse of the two severities;
    /// otherwise the toast goes on top, and a full stack gives one up.
    pub open spec fn pushed(&self, toast: Toast, after: Toasts) -> bool {
        if toast.key@.len() > 0 && self.live(toast.key@) {
            exists|i: int|
                0 <= i < self.items@.len() && #[trigger] self.items@[i].key@ == toast.key@
                    && after.items@ == self.items@.update(i, raised_again(self.items@[i], toast))
        } else if self.items@.len() < MAX_TOASTS {
            after.items@ == self.items@.push(toast)
        } else {
            after.items@ == evicted(self.items@.push(toast))
        }
    }

    /// Whether the live toast with this key, where there is one, can be counted up once
    /// more.
    pub open spec fn countable(&self, key: Seq<char>) -> bool {
        key.len() > 0 ==> forall|i: int|
            0 <= i < self.items@.len() && (#[trigger] self.items@[i]).key@ == key
                ==> self.items@[i].repeats < u32::MAX
    }

    pub fn new() -> (t: Self)
        ensures
            t.items@.len() == 0,
            t.wf(),
    {
        Toasts::default()
    }

    /// Raise a toast, coalescing onto a live one with the same key.
    pub fn push(&mut self, toast: Toast)
        requires
            old(self).wf(),
            old(self).countable(toast.key@),
        ensures
            final(self).wf(),
            old(self).pushed(toast, *final(self)),
    {
        if toast.key.as_str().is_empty() == false {
            let mut i: usize = 0;
            while i < self.items.len()
                invariant
                    *self == *old(self),
                    old(self).wf(),
                    toast.key@.len() > 0,
                    old(self).countable(toast.key@),
                    i <= self.items@.len(),
                    forall|j: int| 0 <= j < i ==> #[trigger] self.items@[j].key@ != toast.key@,
                decreases self.items@.len() - i,
            {
                if self.items[i].key == toast.key {
                    if let Some(existing) = self.items.remove(i) {
                        let severity: Severity = existing.severity.worst(toast.severity);
                        let again: Toast = Toast {
                            repeats: existing.repeats + 1,
                            age_s: 0,
                            severity,
                            detail: toast.detail,
                            ..existing
                        };
                        self.items.insert(i, again);
                    }
                    proof {
                        assert(self.items@ =~= old(self).items@.update(
                            i as int,
                            raised_again(old(self).items@[i as int], toast),
                        ));
                        assert(old(self).items@[i as int].key@ == toast.key@);
                    }
                    return;
                }
                i += 1;
            }
        }
        self.items.push_back(toast);
        if self.items.len() > MAX_TOASTS {
            // Drop the oldest expirable one; never silently drop a critical.
            let mut i: usize = 0;
            while i < self.items.len() && self.items[i].severity == Severity::Critical
                invariant
                    i <= self.items@.len(),
                    first_expirable(self.items@, 0) == first_expirable(self.items@, i as int),
                decreases self.items@.len() - i,
            {
                i += 1;
            }
            let ghost all = self.items@;
            if i < self.items.len() {
                let _gone: Option<Toast> = self.items.remove(i);
            } else {
                let _gone: Option<Toast> = self.items.pop_front();
            }
            proof {
                assert(self.items@ =~= evicted(all));
            }
        }
    }

    pub fn info(&mut self, title: &str)
        requires
            old(self).wf(),
        ensures
            final(self).wf(),
            old(self).raises(*final(self), Severity::Info, title@),
    {
        self.raise(Severity::Info, title);
    }

    pub fn warn(&mut self, title: &str)
        requires
            old(self).wf(),
        ensures
            final(self).wf(),
            old(self).raises(*final(self), Severity::Warning, title@),
    {
        self.raise(Severity::Warning, title);
    }

    pub fn error(&mut self, title: &str)
        requires
            old(self).wf(),
        ensures
            final(self).wf(),
            old(self).raises(*final(self), Severity::Critical, title@),
    {
        self.raise(Severity::Critical, title);
    }

    /// Whether `after` is the queue with a new keyless toast raised.
    pub open spec fn raises(&self, after: Toasts, severity: Severity, title: Seq<char>) -> bool {
        exists|t: Toast|
            #![trigger self.items@.push(t)]
            t.severity == severity && t.title@ == title && t.detail@.len() == 0 && t.key@.len() == 0
                && t.age_s == 0 && t.repeats == 0 && after.items@ == if self.items@.len()
                < MAX_TOASTS {
                self.items@.push(t)
            } else {
                evicted(self.items@.push(t))
            }
    }

    fn raise(&mut self, severity: Severity, title: &str)
        requires
            old(self).wf(),
        ensures
            final(self).wf(),
            old(self).raises(*final(self), severity, title@),
    {
        let t: Toast = Toast::new(severity, title);
        let ghost made = t;
        self.push(t);
        proof {
            assert(old(self).items@.push(made).len() > 0);
        }
    }

    /// Age every toast and drop the expired ones.
    #[verifier::spinoff_prover]
    #[verifier::rlimit(80)]
    pub fn update(&mut self, dt: u32)
        requires
            old(self).wf(),
        ensures
            final(self).wf(),
            exists|aged: Seq<Toast>| #[trigger]
                are_aged(old(self).items@, dt, aged) && final(self).items@ == aged.filter(
                    |t: Toast| !t.is_over(),
                ),
    {
        let ghost keep = |t: Toast| !t.is_over();
        let ghost before = self.items@;
        let ghost mut aged = Seq::<Toast>::empty();
        let step: u32 = max32(dt, 0);
        let mut i: usize = 0;
        proof {
            assert(aged.filter(keep) =~= Seq::<Toast>::empty()) by {
                reveal(Seq::filter);
            }
            assert(self.items@ =~= aged.filter(keep) + before.skip(0));
            assert(before.take(0) =~= Seq::<Toast>::empty());
        }
        while i < self.items.len()
            invariant
                self.wf(),
                step == greater32(dt, 0),
                aged.len() <= before.len(),
                are_aged(before.take(aged.len() as int), dt, aged),
                aged.filter(keep).len() == i,
                self.items@ == aged.filter(keep) + before.skip(aged.len() as int),
                keep == (|t: Toast| !t.is_over()),
            decreases before.len() - aged.len(),
        {
            let ghost kept = aged.filter(keep);
            let ghost seen = aged.len() as int;
            assert(seen < before.len());
            assert(self.items@[i as int] == before[seen]);
            if let Some(t) = self.items.remove(i) {
                let older: Toast = Toast { age_s: sum(t.age_s, step), ..t };
                proof {
                    assert(is_aged(before[seen], dt, older));
                    lemma_filter_push(aged, older, keep);
                    aged = aged.push(older);
                    assert(before.take(seen + 1) =~= before.take(seen).push(before[seen]));
                }
                if !older.expired() {
                    self.items.insert(i, older);
                    i += 1;
                }
                assert(self.items@ =~= aged.filter(keep) + before.skip(seen + 1));
            }
        }
        proof {
            assert(aged.len() == before.len()) by {
                if aged.len() < before.len() {
                    assert(self.items@.len() == i + (before.len() - aged.len()));
                }
            }
            assert(before.take(aged.len() as int) =~= before);
            assert(self.items@ =~= aged.filter(keep));
        }
    }

    pub fn dismiss(&mut self, index: usize)
        requires
            old(self).wf(),
        ensures
            final(self).wf(),
            final(self).items@ == if index < old(self).items@.len() {
                old(self).items@.remove(index as int)
            } else {
                old(self).items@
            },
    {
        if index < self.items.len() {
            let _gone: Option<Toast> = self.items.remove(index);
        }
    }

    pub fn clear(&mut self)
        ensures
            final(self).items@.len() == 0,
            final(self).wf(),
    {
        self.items.clear();
    }

    /// The live toasts one after the other, oldest first.
    pub fn iter(&self) -> (i: std::collections::vec_deque::Iter<'_, Toast>)
        ensures
            i == vstd::std_specs::vecdeque::spec_iter(&self.items),
    {
        self.items.iter()
    }

    /// The live toasts, oldest first.
    pub fn items(&self) -> (t: &VecDeque<Toast>)
        ensures
            t@ == self.items@,
    {
        &self.items
    }

    pub fn len(&self) -> (n: usize)
        ensures
            n == self.items@.len(),
    {
        self.items.len()
    }

    pub fn is_empty(&self) -> (r: bool)
        ensures
            r == (self.items@.len() == 0),
    {
        self.items.len() == 0
    }
}

proof fn lemma_filter_push(s: Seq<Toast>, t: Toast, keep: spec_fn(Toast) -> bool)
    ensures
        s.push(t).filter(keep) == if keep(t) {
            s.filter(keep).push(t)
        } else {
            s.filter(keep)
        },
{
    reveal(Seq::filter);
    assert(s.push(t).drop_last() =~= s);
    assert(s.push(t).last() == t);
}

/// Eviction drops a critical toast only where every toast is critical.
pub proof fn eviction_spares_criticals(s: Seq<Toast>, k: int)
    requires
        0 <= k < s.len(),
        s[k].severity == Severity::Critical,
        exists|j: int| 0 <= j < s.len() && (#[trigger] s[j]).severity != Severity::Critical,
    ensures
        evicted(s).contains(s[k]),
        evicted(s).len() == s.len() - 1,
{
    lemma_first_expirable(s, 0);
    let i = first_expirable(s, 0);
    if k < i {
        assert(evicted(s)[k] == s[k]);
    } else {
        assert(evicted(s)[k - 1] == s[k]);
    }
}

proof fn lemma_first_expirable(s: Seq<Toast>, i: int)
    requires
        0 <= i <= s.len(),
    ensures
        i <= first_expirable(s, i) <= s.len(),
        first_expirable(s, i) < s.len() ==> s[first_expirable(s, i)].severity != Severity::Critical,
        forall|j: int|
            i <= j < first_expirable(s, i) ==> (#[trigger] s[j]).severity == Severity::Critical,
    decreases s.len() - i,
{
    if i < s.len() && s[i].severity == Severity::Critical {
        lemma_first_expirable(s, i + 1);
    }
}

/// A critical toast never expires on its own, however long it is on screen; a
/// repeat never lowers a severity; and a repeat starts the time again.
pub proof fn criticals_stay(t: Toast, again: Toast, dt: u32, older: Toast)
    ensures
        t.severity == Severity::Critical && is_aged(t, dt, older) ==> !older.is_over(),
        raised_again(t, again).severity.rank() >= t.severity.rank(),
        raised_again(t, again).severity.rank() >= again.severity.rank(),
        !raised_again(t, again).is_over(),
        raised_again(t, again).key == t.key,
{
}

/// A toast never comes back by itself: one that has expired stays expired.
#[verifier::spinoff_prover]
#[verifier::rlimit(80)]
pub proof fn the_expired_stay_expired(t: Toast, dt: u32, older: Toast)
    requires
        t.is_over(),
        is_aged(t, dt, older),
    ensures
        older.is_over(),
{
    let d = greater32(dt, 0);
    lemma_ordered(0, t.age_s as int);
    lemma_ordered(0, d as int % 0x8000_0000);
    if finite32(t.age_s) && finite32(d) {
        assert(value_of(d) >= 0);
        lemma_at_least(
            value_of(t.age_s) + value_of(d),
            1,
            older.age_s as int,
            t.age_s as int,
        );
    }
}

/// What remains of a toast is a fraction, unless the division gave no number, and all
/// of it for a critical one.
#[verifier::spinoff_prover]
#[verifier::rlimit(80)]
pub proof fn what_remains_is_a_fraction<D: Fn(u32, u32) -> u32>(t: Toast, divide: D, r: u32)
    requires
        t.remains(divide, r),
    ensures
        nan32(r) || (le32(0, r) && le32(r, ONE)),
        t.severity == Severity::Critical ==> r == ONE,
{
}

/// Raising a toast disturbs no other. Where one with its key is live, that one counts it,
/// stands fresh under the worse severity with the new detail, and keeps its title and its
/// place; otherwise the newcomer stands on top, and at most one toast has left.
pub proof fn raising_a_toast_disturbs_no_other(before: Toasts, toast: Toast, after: Toasts, i: int)
    requires
        before.wf(),
        before.countable(toast.key@),
        before.pushed(toast, after),
        0 <= i < before.items@.len(),
    ensures
        after.items@.len() <= MAX_TOASTS,
        toast.key@.len() > 0 && before.items@[i].key@ == toast.key@ ==> {
            let t = after.items@[i];
            &&& after.items@.len() == before.items@.len()
            &&& t.repeats == before.items@[i].repeats + 1
            &&& t.age_s == 0
            &&& t.title == before.items@[i].title
            &&& t.detail == toast.detail
            &&& t.severity == before.items@[i].severity || t.severity == toast.severity
            &&& before.items@[i].severity == Severity::Critical || toast.severity
                == Severity::Critical ==> t.severity == Severity::Critical
        },
        toast.key@.len() > 0 && before.live(toast.key@) && before.items@[i].key@ != toast.key@
            ==> after.items@[i] == before.items@[i],
        (toast.key@.len() == 0 || !before.live(toast.key@)) && before.items@.len() < MAX_TOASTS
            ==> after.items@.len() == before.items@.len() + 1 && after.items@.last() == toast
            && after.items@[i] == before.items@[i],
        (toast.key@.len() == 0 || !before.live(toast.key@)) && before.items@.len() == MAX_TOASTS
            ==> after.items@.len() == MAX_TOASTS && (toast.severity == Severity::Critical
            || before.items@[i].severity != Severity::Critical ==> after.items@.last() == toast),
{
    if toast.key@.len() > 0 && before.live(toast.key@) {
        let k = choose|k: int|
            0 <= k < before.items@.len() && #[trigger] before.items@[k].key@ == toast.key@
                && after.items@ == before.items@.update(k, raised_again(before.items@[k], toast));
        if before.items@[i].key@ == toast.key@ {
            assert(i == k) by {
                if i < k {
                    assert(before.items@[i].key@ != before.items@[k].key@);
                } else if k < i {
                    assert(before.items@[k].key@ != before.items@[i].key@);
                }
            }
        }
    } else if before.items@.len() == MAX_TOASTS {
        let all = before.items@.push(toast);
        lemma_first_expirable(all, 0);
        assert(all[i] == before.items@[i]);
        assert(all[all.len() - 1] == toast);
    }
}

/// A time reaches so many seconds exactly where its pattern reaches theirs.
proof fn lemma_seconds(age: u32, life: u32, n: int)
    requires
        finite32(age),
        age < 0x8000_0000,
        ONE <= life < 0x7f80_0000,
        value_of(life) == n * value_of(ONE),
    ensures
        le32(life, age) <==> value_of(age) >= n * value_of(ONE),
{
    if life <= age {
        lemma_ordered(life as int, age as int);
    } else {
        lemma_ordered(age as int, life as int);
    }
}

/// A toast stays the longer the worse it is: three seconds for a piece of news, five for a
/// notice, nine for a warning, and a critical one until it is dismissed.
pub proof fn the_worse_a_toast_the_longer_it_stays(t: Toast)
    requires
        finite32(t.age_s),
        t.age_s < 0x8000_0000,
    ensures
        t.severity == Severity::Info ==> (t.is_over() <==> value_of(t.age_s) >= 3 * value_of(ONE)),
        t.severity == Severity::Notice ==> (t.is_over() <==> value_of(t.age_s) >= 5 * value_of(
            ONE,
        )),
        t.severity == Severity::Warning ==> (t.is_over() <==> value_of(t.age_s) >= 9 * value_of(
            ONE,
        )),
        t.severity == Severity::Critical ==> !t.is_over(),
{
    lemma2_to64();
    assert(0x4040_0000u32 / STEPS == 128 && 0x4040_0000u32 % STEPS == 0x40_0000);
    assert(0x40a0_0000u32 / STEPS == 129 && 0x40a0_0000u32 % STEPS == 0x20_0000);
    assert(0x4110_0000u32 / STEPS == 130 && 0x4110_0000u32 % STEPS == 0x10_0000);
    assert(pow2(1) == 2 && pow2(2) == 4 && pow2(3) == 8);
    lemma_multiple_of_one(0x4040_0000, 3);
    lemma_multiple_of_one(0x40a0_0000, 5);
    lemma_multiple_of_one(0x4110_0000, 9);
    lemma_seconds(t.age_s, 0x4040_0000, 3);
    lemma_seconds(t.age_s, 0x40a0_0000, 5);
    lemma_seconds(t.age_s, 0x4110_0000, 9);
}

/// A plain message stands on top under its own title and severity, and joins no other.
pub proof fn a_plain_message_stands_by_itself(
    before: Toasts,
    after: Toasts,
    severity: Severity,
    title: Seq<char>,
    i: int,
)
    requires
        before.wf(),
        before.raises(after, severity, title),
        before.items@.len() < MAX_TOASTS,
    ensures
        after.items@.len() == before.items@.len() + 1,
        after.items@.last().title@ == title,
        after.items@.last().severity == severity,
        after.items@.last().key@.len() == 0,
        !after.items@.last().is_over(),
        0 <= i < before.items@.len() ==> after.items@[i] == before.items@[i],
{
}

/// A toast fades as its time runs: it stands in full when fresh, and is gone when its time
/// is over.
#[verifier::spinoff_prover]
#[verifier::rlimit(80)]
pub proof fn a_toast_fades_as_its_time_runs<D: Fn(u32, u32) -> u32>(t: Toast, divide: D, r: u32)
    requires
        t.remains(divide, r),
        t.severity != Severity::Critical,
        forall|x: u32, y: u32, q: u32|
            #![trigger divide.ensures((x, y), q)]
            divide.ensures((x, y), q) ==> {
                &&& x == 0 ==> q == 0
                &&& finite32(x) && le32(y, x) ==> finite32(q) && le32(ONE, q)
            },
    ensures
        t.age_s == 0 ==> r == ONE,
        finite32(t.age_s) && t.is_over() ==> eq32(r, 0),
{
    let life = t.severity.lifetime()->Some_0;
    let (over, left) = choose|over: u32, left: u32| #[trigger]
        divide.ensures((t.age_s, life), over) && #[trigger] is_sum(ONE, negated32(over), left) && r
            == clamped32(left, 0, ONE);
    if t.age_s == 0 {
        lemma_less_nothing(left);
    } else if finite32(t.age_s) && t.is_over() {
        lemma_less_one(over, left);
    }
}

#[verifier::spinoff_prover]
proof fn lemma_less_nothing(left: u32)
    requires
        is_sum(ONE, negated32(0), left),
    ensures
        left == ONE,
{
    lemma_ordered(0, ONE as int);
    assert(value_of(negated32(0)) == 0);
    assert(value_of(ONE) == size_of(ONE as int));
    lemma_at_least(value_of(ONE), 1, left as int, ONE as int);
    lemma_at_most(value_of(ONE), 1, left as int, ONE as int);
}

#[verifier::spinoff_prover]
proof fn lemma_less_one(over: u32, left: u32)
    requires
        finite32(over),
        le32(ONE, over),
        is_sum(ONE, negated32(over), left),
    ensures
        le32(left, 0),
{
    lemma_ordered(ONE as int, over as int);
    assert(value_of(negated32(over)) == -size_of(over as int));
    assert(value_of(ONE) == size_of(ONE as int));
}

} // verus!
