use vstd::prelude::*;

verus! {

/// The reason recorded when `abort()` is called without one.
pub open spec fn aborted_text() -> Seq<char> {
    "The operation was aborted"@
}

/// The reason recorded when a timeout signal fires.
pub open spec fn timed_out_text() -> Seq<char> {
    "The operation timed out"@
}

/// The reason an `abort(reason)` call records: the one given, else the
/// default.
pub fn abort_reason(reason: Option<String>) -> (r: String)
    ensures
        r@ == match reason {
            Some(v) => v@,
            None => aborted_text(),
        },
{
    match reason {
        Some(v) => v,
        None => {
            let r = String::from_str("The operation was aborted");
            proof {
                reveal_strlit("The operation was aborted");
            }
            r
        },
    }
}

/// The reason a timeout signal records when its delay has passed.
pub fn timeout_reason() -> (r: String)
    ensures
        r@ == timed_out_text(),
{
    let r = String::from_str("The operation timed out");
    proof {
        reveal_strlit("The operation timed out");
    }
    r
}

/// What an abort signal holds: whether it fired, and why.
pub struct AbortState {
    pub aborted: bool,
    pub reason: String,
}

impl AbortState {
    /// A signal that has not fired, with an empty reason.
    pub fn new() -> (s: Self)
        ensures
            !s.aborted,
            s.reason@ == Seq::<char>::empty(),
    {
        AbortState { aborted: false, reason: String::new() }
    }

    /// Fires the signal with `reason`; a later abort replaces the reason.
    pub fn abort(&mut self, reason: String)
        ensures
            final(self).aborted,
            final(self).reason@ == reason@,
    {
        self.aborted = true;
        self.reason = reason;
    }

    /// `AbortController.abort(reason)`: fires the signal with the reason
    /// given, or the default one.
    pub fn abort_with(&mut self, reason: Option<String>)
        ensures
            final(self).aborted,
            final(self).reason@ == match reason {
                Some(v) => v@,
                None => aborted_text(),
            },
    {
        let r = abort_reason(reason);
        self.abort(r);
    }

    /// Fires the signal as a timeout does once its delay has passed.
    pub fn time_out(&mut self)
        ensures
            final(self).aborted,
            final(self).reason@ == timed_out_text(),
    {
        let r = timeout_reason();
        self.abort(r);
    }

    /// Whether the signal fired.
    pub fn is_aborted(&self) -> (b: bool)
        ensures
            b == self.aborted,
    {
        self.aborted
    }
}

} // verus!
