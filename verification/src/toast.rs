//! Time-boxed notifications. Wall-clock time enters the model as plain
//! milliseconds, handed in by the caller; an entry expires once its age
//! strictly exceeds its time-to-live.

use vstd::prelude::*;

verus! {

/// Severity of a notification.
#[derive(Clone, Copy, PartialEq, Eq, Structural, Debug)]
pub enum ToastType {
    Info,
    Success,
    Warning,
    Error,
}

/// An ephemeral message: created at `created_at` milliseconds, shown until
/// its age exceeds `duration` milliseconds.
pub struct Toast {
    pub message: String,
    pub created_at: u64,
    pub duration: u64,
    pub toast_type: ToastType,
}

impl Toast {
    /// True when, at time `now`, the entry's age strictly exceeds its
    /// time-to-live.
    pub open spec fn expired_spec(&self, now: u64) -> bool {
        now - self.created_at > self.duration
    }

    pub fn new(message: &str, duration_ms: u64, toast_type: ToastType, created_at: u64) -> (t:
        Toast)
        ensures
            t.message@ == message@,
            t.duration == duration_ms,
            t.toast_type == toast_type,
            t.created_at == created_at,
    {
        Toast { message: message.to_owned(), created_at, duration: duration_ms, toast_type }
    }

    /// Whether the entry has outlived its time-to-live at time `now`.
    pub fn is_expired(&self, now: u64) -> (r: bool)
        ensures
            r == self.expired_spec(now),
    {
        now > self.created_at && now - self.created_at > self.duration
    }
}

/// The entries of `ts` that are still alive at time `now`, in order.
pub open spec fn fresh_toasts(ts: Seq<Toast>, now: u64) -> Seq<Toast>
    decreases ts.len(),
{
    if ts.len() == 0 {
        Seq::empty()
    } else if ts[0].expired_spec(now) {
        fresh_toasts(ts.drop_first(), now)
    } else {
        seq![ts[0]] + fresh_toasts(ts.drop_first(), now)
    }
}

/// A surviving entry is one of the originals, alive at `now`.
pub proof fn lemma_fresh_toasts_alive(ts: Seq<Toast>, now: u64, i: int)
    requires
        0 <= i < fresh_toasts(ts, now).len(),
    ensures
        !fresh_toasts(ts, now)[i].expired_spec(now),
        ts.contains(fresh_toasts(ts, now)[i]),
    decreases ts.len(),
{
    if ts.len() == 0 {
    } else if ts[0].expired_spec(now) {
        lemma_fresh_toasts_alive(ts.drop_first(), now, i);
        assert(ts.drop_first().contains(fresh_toasts(ts, now)[i]) ==> ts.contains(
            fresh_toasts(ts, now)[i],
        ));
    } else {
        if i == 0 {
            assert(ts.contains(ts[0]));
        } else {
            lemma_fresh_toasts_alive(ts.drop_first(), now, i - 1);
            assert(ts.drop_first().contains(fresh_toasts(ts, now)[i]) ==> ts.contains(
                fresh_toasts(ts, now)[i],
            ));
        }
    }
}

} // verus!
