use vstd::prelude::*;

use crate::types::BoardChange;

verus! {

/// How long the occupancy must stay unchanged before an event is reported, in milliseconds.
pub const EVENT_TIMEOUT_MS: u64 = 1000;

/// Groups raw occupancy scans into events: an event starts at the first change, collects every
/// square that changes, and is reported once no square has changed for `EVENT_TIMEOUT_MS`.
#[derive(Clone, Copy, Debug, PartialEq, Eq, Structural)]
pub struct Debouncer {
    pub current_state: u64,
    pub last_change: Option<u64>,
    pub event_active: bool,
    pub event_mask: u64,
}

/// The time from `last` to `now`, or zero when `now` is earlier.
pub open spec fn elapsed(now: u64, last: u64) -> int {
    if now >= last {
        now - last
    } else {
        0
    }
}

/// The debouncer after taking in a scan, before deciding whether the event is over.
pub open spec fn absorb(d: Debouncer, scan: u64, now: u64) -> Debouncer {
    let diff = d.current_state ^ scan;
    if diff != 0 {
        Debouncer {
            current_state: scan,
            last_change: Some(now),
            event_active: true,
            event_mask: (if d.event_active {
                d.event_mask
            } else {
                0
            }) | diff,
        }
    } else {
        d
    }
}

/// The active event is over: the last change lies at least `EVENT_TIMEOUT_MS` back.
pub open spec fn event_over(d: Debouncer, now: u64) -> bool {
    d.event_active && (d.last_change matches Some(l) && elapsed(now, l) >= EVENT_TIMEOUT_MS)
}

impl Debouncer {
    /// A debouncer that has seen an empty board and no event.
    pub fn new() -> (r: Debouncer)
        ensures
            r == (Debouncer { current_state: 0, last_change: None, event_active: false, event_mask: 0 }),
    {
        Debouncer { current_state: 0, last_change: None, event_active: false, event_mask: 0 }
    }

    /// Takes in the occupancy `scan` read at time `now` (milliseconds), and reports the event
    /// once it is over: the squares that changed during it and the occupancy it ended with.
    pub fn tick(&mut self, scan: u64, now: u64) -> (r: Option<BoardChange>)
        ensures
            ({
                let a = absorb(*old(self), scan, now);
                if event_over(a, now) {
                    &&& r == Some(BoardChange { mask: a.event_mask, state: a.current_state })
                    &&& *final(self) == (Debouncer {
                        current_state: a.current_state,
                        last_change: None,
                        event_active: false,
                        event_mask: 0,
                    })
                } else {
                    r is None && *final(self) == a
                }
            }),
    {
        let diff = self.current_state ^ scan;
        if diff != 0 {
            self.current_state = scan;
            if !self.event_active {
                self.event_active = true;
                self.event_mask = 0;
            }
            self.event_mask = self.event_mask | diff;
            self.last_change = Some(now);
        }
        if self.event_active {
            if let Some(last) = self.last_change {
                let waited = if now >= last {
                    now - last
                } else {
                    0
                };
                if waited >= EVENT_TIMEOUT_MS {
                    self.event_active = false;
                    let mask = self.event_mask;
                    self.event_mask = 0;
                    self.last_change = None;
                    return Some(BoardChange { mask, state: self.current_state });
                }
            }
        }
        None
    }
}

} // verus!
