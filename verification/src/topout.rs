use vstd::prelude::*;
use crate::board::LockVisibility;

verus! {

#[derive(Clone, Copy, Debug, PartialEq, Eq, Structural)]
pub enum TopOutReason {
    BlockOut,
    LockOut,
    PartialLockOut,
    GarbageOut,
}

/// Profile-controlled lock-out variants. Block-out is always authoritative
/// because a colliding active piece cannot enter the timing kernel.
#[derive(Clone, Copy, Debug, PartialEq, Eq, Structural)]
pub struct TopOutRules {
    pub lock_out: bool,
    pub partial_lock_out: bool,
}

pub open spec fn lock_reason_spec(rules: TopOutRules, visibility: LockVisibility) -> Option<TopOutReason> {
    match visibility {
        LockVisibility::FullyHidden => if rules.lock_out { Some(TopOutReason::LockOut) } else { None },
        LockVisibility::PartiallyHidden => if rules.partial_lock_out {
            Some(TopOutReason::PartialLockOut)
        } else {
            None
        },
        LockVisibility::Visible => None,
    }
}

impl TopOutRules {
    pub fn block_out_only() -> (r: Self)
        ensures
            r == (TopOutRules { lock_out: false, partial_lock_out: false }),
    {
        TopOutRules { lock_out: false, partial_lock_out: false }
    }

    pub fn with_lock_out(lock_out: bool, partial_lock_out: bool) -> (r: Self)
        ensures
            r == (TopOutRules { lock_out, partial_lock_out }),
    {
        TopOutRules { lock_out, partial_lock_out }
    }

    pub fn lock_reason(self, visibility: LockVisibility) -> (r: Option<TopOutReason>)
        ensures
            r == lock_reason_spec(self, visibility),
    {
        match visibility {
            LockVisibility::FullyHidden => if self.lock_out {
                Some(TopOutReason::LockOut)
            } else {
                None
            },
            LockVisibility::PartiallyHidden => if self.partial_lock_out {
                Some(TopOutReason::PartialLockOut)
            } else {
                None
            },
            LockVisibility::Visible => None,
        }
    }
}

impl Default for TopOutRules {
    fn default() -> (r: Self)
        ensures
            r == (TopOutRules { lock_out: false, partial_lock_out: false }),
    {
        TopOutRules::block_out_only()
    }
}

/// A visible lock never tops out, and with block-out-only rules no lock does.
pub proof fn lemma_lock_out_only_when_configured(rules: TopOutRules, v: LockVisibility)
    ensures
        v == LockVisibility::Visible ==> lock_reason_spec(rules, v) is None,
        !rules.lock_out && !rules.partial_lock_out ==> lock_reason_spec(rules, v) is None,
{
}

} // verus!
