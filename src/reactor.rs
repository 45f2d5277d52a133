//! The reconciliation state machine behind the event loop.
//!
//! The loop that owns the native resources performs the waits, reads and
//! display writes; every decision it makes is taken here: which levels to
//! read again, whether the ramp has to be written, how long to wait, and
//! what each observed event changes.
use crate::fraction::{fraction_of, fraction_spec, scale_for, scale_spec, BrightnessError};
use crate::level::{level_of, parse_level};
use vstd::prelude::*;

verus! {

/// How many forced re-applications follow a bus signal.
pub const SETTLE_RETRIES: u64 = 10;

/// The wait, in milliseconds, between forced re-applications.
pub const SETTLE_TIMEOUT_MS: i32 = 100;

/// A wait without a time limit.
pub const WAIT_FOREVER: i32 = -1;

/// The two backlight levels.
#[derive(Debug, Clone, Copy, PartialEq, Eq, Structural)]
pub enum LevelSource {
    /// The level the user asked for.
    Requested,
    /// The largest level the backlight accepts.
    Maximum,
}

/// What one wait of the loop observed.
#[derive(Debug, Clone, Copy, PartialEq, Eq, Structural)]
pub enum Event {
    /// The file holding this level was modified.
    LevelChanged(LevelSource),
    /// The display server reported a change of output configuration.
    DisplayChanged,
    /// A color-management or display-configuration signal arrived on a
    /// message bus; the compositor is about to reset the gamma ramp.
    BusSignal,
    /// The wait ended with no event.
    TimedOut,
}

/// The state of the reconciliation loop.
#[derive(Debug, Clone, Copy, PartialEq, Eq, Structural)]
pub struct Reactor {
    /// The requested level must be read again.
    pub requested_dirty: bool,
    /// The maximum level must be read again.
    pub max_dirty: bool,
    /// The requested level last read.
    pub requested: u64,
    /// The maximum level last read.
    pub maximum: u64,
    /// The percentage last written to the display; `None` means unknown,
    /// so the next reconciliation writes unconditionally.
    pub applied: Option<u64>,
    /// Forced re-applications left in the settle window.
    pub settle_retries: u64,
}

/// The state on entering the loop: both levels unread, nothing applied.
pub open spec fn initial() -> Reactor {
    Reactor {
        requested_dirty: true,
        max_dirty: true,
        requested: 0,
        maximum: 0,
        applied: None,
        settle_retries: 0,
    }
}

/// The state once `source` has been read as `v`: the level is stored and
/// its dirty flag cleared.
pub open spec fn with_level(s: Reactor, source: LevelSource, v: u64) -> Reactor {
    match source {
        LevelSource::Requested => Reactor { requested: v, requested_dirty: false, ..s },
        LevelSource::Maximum => Reactor { maximum: v, max_dirty: false, ..s },
    }
}

/// The state after one event.
pub open spec fn after_event(s: Reactor, e: Event) -> Reactor {
    match e {
        Event::LevelChanged(LevelSource::Requested) => Reactor { requested_dirty: true, ..s },
        Event::LevelChanged(LevelSource::Maximum) => Reactor { max_dirty: true, ..s },
        Event::DisplayChanged => Reactor { applied: None, ..s },
        Event::BusSignal => Reactor { applied: None, settle_retries: SETTLE_RETRIES, ..s },
        Event::TimedOut => if s.settle_retries > 0 {
            Reactor { applied: None, settle_retries: (s.settle_retries - 1) as u64, ..s }
        } else {
            s
        },
    }
}

/// The wait before the next event: short while settling, unbounded
/// otherwise.
pub open spec fn wait_spec(s: Reactor) -> i32 {
    if s.settle_retries > 0 {
        SETTLE_TIMEOUT_MS
    } else {
        WAIT_FOREVER
    }
}

/// What reconciling asks for: an error when no percentage can be derived,
/// `Ok(None)` when the display already shows the target, otherwise the ramp
/// scale to write.
pub open spec fn reconcile_result(s: Reactor) -> Result<Option<Option<u64>>, BrightnessError> {
    match fraction_spec(s.requested, s.maximum) {
        Err(e) => Err(e),
        Ok(next) => if s.applied == Some(next) {
            Ok(None)
        } else {
            Ok(Some(scale_spec(next)))
        },
    }
}

/// The state after reconciling: the target percentage is recorded as
/// applied.
pub open spec fn reconciled(s: Reactor) -> Reactor {
    match fraction_spec(s.requested, s.maximum) {
        Err(_) => s,
        Ok(next) => Reactor { applied: Some(next), ..s },
    }
}

/// The state after `k` loop cycles that each reconcile and then time out.
pub open spec fn idle_cycles(s: Reactor, k: nat) -> Reactor
    decreases k,
{
    if k == 0 {
        s
    } else {
        after_event(reconciled(idle_cycles(s, (k - 1) as nat)), Event::TimedOut)
    }
}

/// Reconciling twice in a row writes at most once: when the applied
/// percentage already equals the target, reconciling asks for nothing and
/// leaves the state as it is.
pub proof fn lemma_reconcile_idempotent(s: Reactor)
    ensures
        (fraction_spec(s.requested, s.maximum) matches Ok(next) && s.applied == Some(next))
            ==> reconcile_result(s) == Ok::<Option<Option<u64>>, BrightnessError>(None)
            && reconciled(s) == s,
        fraction_spec(s.requested, s.maximum) is Ok ==> reconcile_result(reconciled(s)) == Ok::<
            Option<Option<u64>>,
            BrightnessError,
        >(None) && reconciled(reconciled(s)) == reconciled(s),
{
}

proof fn lemma_settle_countdown(b: Reactor, k: nat)
    requires
        b.settle_retries == SETTLE_RETRIES,
        k <= SETTLE_RETRIES,
    ensures
        idle_cycles(b, k).settle_retries == SETTLE_RETRIES - k,
        k > 0 ==> idle_cycles(b, k).applied is None,
    decreases k,
{
    if k > 0 {
        lemma_settle_countdown(b, (k - 1) as nat);
    }
}

/// The settle window. A bus signal makes the very next reconciliation write
/// the ramp whatever was applied before. If nothing else happens, exactly
/// `SETTLE_RETRIES` waits follow with the short timeout, each ending in a
/// forced re-application; after them the loop waits without a time limit.
pub proof fn lemma_settle_window(s: Reactor)
    ensures
        after_event(s, Event::BusSignal).applied is None,
        fraction_spec(s.requested, s.maximum) is Ok ==> reconcile_result(
            after_event(s, Event::BusSignal),
        ) matches Ok(Some(_)),
        forall|k: nat|
            k < SETTLE_RETRIES ==> wait_spec(
                reconciled(#[trigger] idle_cycles(after_event(s, Event::BusSignal), k)),
            ) == SETTLE_TIMEOUT_MS,
        forall|k: nat|
            0 < k <= SETTLE_RETRIES ==> (#[trigger] idle_cycles(
                after_event(s, Event::BusSignal),
                k,
            )).applied is None,
        wait_spec(reconciled(idle_cycles(after_event(s, Event::BusSignal), SETTLE_RETRIES as nat)))
            == WAIT_FOREVER,
{
    let b = after_event(s, Event::BusSignal);
    assert forall|k: nat| k <= SETTLE_RETRIES implies (#[trigger] idle_cycles(b, k)).settle_retries
        == SETTLE_RETRIES - k && (k > 0 ==> idle_cycles(b, k).applied is None) by {
        lemma_settle_countdown(b, k);
    }
    lemma_settle_countdown(b, SETTLE_RETRIES as nat);
}

impl Reactor {
    /// The state on entering the loop.
    pub fn new() -> (r: Reactor)
        ensures
            r == initial(),
    {
        Reactor {
            requested_dirty: true,
            max_dirty: true,
            requested: 0,
            maximum: 0,
            applied: None,
            settle_retries: 0,
        }
    }

    /// Whether `source` must be read before the next reconciliation.
    pub fn needs_read(&self, source: LevelSource) -> (r: bool)
        ensures
            r == match source {
                LevelSource::Requested => self.requested_dirty,
                LevelSource::Maximum => self.max_dirty,
            },
    {
        match source {
            LevelSource::Requested => self.requested_dirty,
            LevelSource::Maximum => self.max_dirty,
        }
    }

    /// Records the freshly read contents of a level source. On success the
    /// level is stored and its dirty flag cleared; a malformed level is an
    /// error and leaves the state as it was.
    pub fn record_level(&mut self, source: LevelSource, text: &[u8]) -> (r: Result<
        (),
        BrightnessError,
    >)
        ensures
            level_of(text@) is None ==> r == Err::<(), BrightnessError>(
                BrightnessError::MalformedLevel,
            ),
            level_of(text@) is None ==> *final(self) == *old(self),
            level_of(text@) matches Some(v) ==> r == Ok::<(), BrightnessError>(()),
            level_of(text@) matches Some(v) ==> *final(self) == with_level(*old(self), source, v as u64),
    {
        match parse_level(text) {
            Err(e) => Err(e),
            Ok(v) => {
                match source {
                    LevelSource::Requested => {
                        self.requested = v;
                        self.requested_dirty = false;
                    },
                    LevelSource::Maximum => {
                        self.maximum = v;
                        self.max_dirty = false;
                    },
                }
                Ok(())
            },
        }
    }

    /// Decides whether the ramp has to be written. When the target
    /// percentage differs from the one applied (or that one is unknown), it
    /// is recorded as applied and the scale to write is returned (`None`
    /// for the identity ramp at full brightness). When it already matches,
    /// nothing is written and nothing changes.
    pub fn reconcile(&mut self) -> (r: Result<Option<Option<u64>>, BrightnessError>)
        ensures
            r == reconcile_result(*old(self)),
            *final(self) == reconciled(*old(self)),
    {
        let next = match fraction_of(self.requested, self.maximum) {
            Err(e) => {
                return Err(e);
            },
            Ok(n) => n,
        };
        if self.applied == Some(next) {
            return Ok(None);
        }
        self.applied = Some(next);
        Ok(Some(scale_for(next)))
    }

    /// The timeout of the next wait, in milliseconds (`-1`: none).
    pub fn wait_timeout(&self) -> (r: i32)
        ensures
            r == wait_spec(*self),
    {
        if self.settle_retries > 0 {
            SETTLE_TIMEOUT_MS
        } else {
            WAIT_FOREVER
        }
    }

    /// Takes one observed event into account.
    pub fn handle(&mut self, event: Event)
        ensures
            *final(self) == after_event(*old(self), event),
    {
        match event {
            Event::LevelChanged(LevelSource::Requested) => {
                self.requested_dirty = true;
            },
            Event::LevelChanged(LevelSource::Maximum) => {
                self.max_dirty = true;
            },
            Event::DisplayChanged => {
                self.applied = None;
            },
            Event::BusSignal => {
                self.applied = None;
                self.settle_retries = SETTLE_RETRIES;
            },
            Event::TimedOut => {
                if self.settle_retries > 0 {
                    self.applied = None;
                    self.settle_retries = self.settle_retries - 1;
                }
            },
        }
    }
}

/// Whether a display-server event, of type `event_type`, is a RandR
/// notification: the extension numbers its events from `event_base`, and
/// its notification is number `notify_code` among them.
pub open spec fn is_randr_notify(event_type: i32, event_base: i32, notify_code: i32) -> bool {
    event_type >= event_base && event_type - event_base == notify_code
}

/// Classifies a display-server event: a RandR notification means the
/// output configuration changed.
pub fn classify_display_event(event_type: i32, event_base: i32, notify_code: i32) -> (r: Option<
    Event,
>)
    ensures
        r == if is_randr_notify(event_type, event_base, notify_code) {
            Some(Event::DisplayChanged)
        } else {
            None::<Event>
        },
{
    if event_type >= event_base && (event_type as i64) - (event_base as i64) == notify_code as i64 {
        Some(Event::DisplayChanged)
    } else {
        None
    }
}

} // verus!
