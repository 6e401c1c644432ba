//! When changed configuration files are read again.
use vstd::prelude::*;

verus! {

/// How long files have to stay unchanged before they are read again.
pub const DEBOUNCE_MS: u64 = 2000;

/// Waits until no more files change.
#[derive(Debug, Clone, Copy, PartialEq, Eq, Structural)]
pub struct ReloadTimer {
    /// When the files are to be read, if any of them has changed.
    pub due_ms: Option<u64>,
}

/// The timer after an event: only a modification sets it, and sets it anew.
pub open spec fn timer_after(t: ReloadTimer, modified: bool, now_ms: u64) -> ReloadTimer {
    if !modified {
        t
    } else if now_ms + DEBOUNCE_MS <= u64::MAX {
        ReloadTimer { due_ms: Some((now_ms + DEBOUNCE_MS) as u64) }
    } else {
        ReloadTimer { due_ms: Some(u64::MAX) }
    }
}

impl ReloadTimer {
    /// A timer that nothing has set.
    pub fn new() -> (r: ReloadTimer)
        ensures
            r.due_ms is None,
    {
        ReloadTimer { due_ms: None }
    }

    /// Whether the files are to be read now.
    pub open spec fn is_due(self, now_ms: u64) -> bool {
        self.due_ms is Some && self.due_ms->0 <= now_ms
    }

    /// Takes an event of the directory.
    pub fn on_event(&mut self, modified: bool, now_ms: u64)
        ensures
            *final(self) == timer_after(*old(self), modified, now_ms),
            !modified ==> final(self).due_ms == old(self).due_ms,
            modified && now_ms + 2000 <= u64::MAX ==> final(self).due_ms == Some(
                (now_ms + 2000) as u64,
            ),
            modified && now_ms + 2000 > u64::MAX ==> final(self).due_ms == Some(u64::MAX),
    {
        if modified {
            self.due_ms = Some(now_ms.saturating_add(DEBOUNCE_MS));
        }
    }

    /// Tells whether the files are to be read now, and then waits for the next change.
    pub fn take_due(&mut self, now_ms: u64) -> (r: bool)
        ensures
            r == old(self).is_due(now_ms),
            r <==> (old(self).due_ms matches Some(due) && due <= now_ms),
            r ==> final(self).due_ms is None,
            !r ==> *final(self) == *old(self),
    {
        match self.due_ms {
            Some(due) => {
                if due <= now_ms {
                    self.due_ms = None;
                    true
                } else {
                    false
                }
            },
            None => false,
        }
    }
}

/// After a modification the files are not read before the whole window has passed, and they
/// are read once it has, unless another modification comes.
pub proof fn law_reload_waits_out_the_window(t: ReloadTimer, changed_ms: u64, now_ms: u64)
    requires
        changed_ms + DEBOUNCE_MS <= u64::MAX,
    ensures
        timer_after(t, true, changed_ms).is_due(now_ms) <==> now_ms >= changed_ms + DEBOUNCE_MS,
{
}

/// Events that modify nothing never lead to a reload.
pub proof fn law_only_modifications_reload(t: ReloadTimer, event_ms: u64, now_ms: u64)
    requires
        t.due_ms is None,
    ensures
        !timer_after(t, false, event_ms).is_due(now_ms),
{
}

} // verus!
