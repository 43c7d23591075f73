use vstd::prelude::*;

use crate::preference::{
    downcast_u32, preference_of_payload, preference_of_payload_spec, u32_payload, ThemePreference,
};
use zbus::zvariant::OwnedValue;
use crate::terminal::ApplyError;

verus! {

/// Why the current preference could not be read from the settings service.
#[derive(Clone, Copy, Debug, PartialEq, Eq, Structural)]
pub enum WatchError {
    /// The settings service could not be reached.
    Unreachable,
    /// The settings service has no such namespace and key.
    KeyMissing,
}

/// Whether the engine is between passes or waiting for one to finish.
#[derive(Clone, Copy, Debug, PartialEq, Eq, Structural)]
pub enum Phase {
    Idle,
    Applying,
}

/// What the caller is to do next.
#[derive(Clone, Copy, Debug, PartialEq, Eq, Structural)]
pub enum Action {
    /// Nothing: wait for the next event.
    Wait,
    /// Run every adapter with this preference, then report with `finish_pass`.
    ApplyAll(ThemePreference),
    /// The event sequence has ended: stop watching.
    Stop,
}

/// One element of the settings service's change notifications, or the end of
/// them (the connection was lost).
pub enum WatchEvent {
    Changed { namespace: String, key: String, payload: Option<u32> },
    Ended,
}

impl WatchEvent {
    /// The event for a change notification of setting `namespace`/`key` whose
    /// new value is `value`.
    pub fn from_setting(namespace: String, key: String, value: &OwnedValue) -> (r: WatchEvent)
        ensures
            r == (WatchEvent::Changed { namespace, key, payload: u32_payload(*value) }),
    {
        let payload = downcast_u32(value);
        WatchEvent::Changed { namespace, key, payload }
    }
}

/// The namespace of the watched setting.
pub open spec fn watched_namespace() -> Seq<char> {
    "org.freedesktop.appearance"@
}

/// The key of the watched setting.
pub open spec fn watched_key() -> Seq<char> {
    "color-scheme"@
}

/// A change notification is about the watched namespace and key.
pub open spec fn is_watched_pair(namespace: Seq<char>, key: Seq<char>) -> bool {
    namespace == watched_namespace() && key == watched_key()
}

/// Whether a change notification is about the watched namespace and key.
pub fn is_watched(namespace: &String, key: &String) -> (r: bool)
    ensures
        r == is_watched_pair(namespace@, key@),
{
    let ns = "org.freedesktop.appearance".to_owned();
    let k = "color-scheme".to_owned();
    *namespace == ns && *key == k
}

/// The number of failures among the adapters' results.
pub open spec fn failures(results: Seq<Result<(), ApplyError>>) -> nat
    decreases results.len(),
{
    if results.len() == 0 {
        0
    } else {
        failures(results.drop_last()) + if results.last() is Err {
            1nat
        } else {
            0nat
        }
    }
}

/// Decides, for each event from the settings service, whether to run the
/// adapters. Adapters are run by the caller, one pass at a time.
pub struct SyncEngine {
    pub phase: Phase,
    /// The preference of the last pass that finished.
    pub last_applied: Option<ThemePreference>,
    /// The preference of the pass under way.
    pub pending: Option<ThemePreference>,
    /// Re-apply on every watched event, not only when the preference changed.
    /// Passes are cheap and idempotent, so this is the default.
    pub reapply_always: bool,
    /// The event sequence has ended.
    pub ended: bool,
}

impl SyncEngine {
    /// Between passes, a pass is pending exactly when one is being applied.
    pub open spec fn wf(&self) -> bool {
        (self.phase == Phase::Applying) == (self.pending is Some)
    }

    /// Whether a watched event with preference `pref` starts a pass. Every
    /// preference is applied, `Unknown` included: the adapters map it to their
    /// fallback theme.
    pub open spec fn wants(&self, pref: ThemePreference) -> bool {
        self.reapply_always || self.last_applied != Some(pref)
    }

    /// The engine once a pass for `pref` has begun.
    pub open spec fn applying(&self, pref: ThemePreference) -> SyncEngine {
        SyncEngine {
            phase: Phase::Applying,
            last_applied: self.last_applied,
            pending: Some(pref),
            reapply_always: self.reapply_always,
            ended: self.ended,
        }
    }

    /// The engine once the pass under way has finished.
    pub open spec fn finished(&self) -> SyncEngine {
        SyncEngine {
            phase: Phase::Idle,
            last_applied: self.pending,
            pending: None,
            reapply_always: self.reapply_always,
            ended: self.ended,
        }
    }

    /// The engine and the action after `event`.
    pub open spec fn transition(&self, event: WatchEvent) -> (SyncEngine, Action) {
        match event {
            WatchEvent::Ended => (
                SyncEngine {
                    phase: self.phase,
                    last_applied: self.last_applied,
                    pending: self.pending,
                    reapply_always: self.reapply_always,
                    ended: true,
                },
                Action::Stop,
            ),
            WatchEvent::Changed { namespace, key, payload } => {
                let pref = preference_of_payload_spec(payload);
                if is_watched_pair(namespace@, key@) && self.wants(pref) {
                    (self.applying(pref), Action::ApplyAll(pref))
                } else {
                    (*self, Action::Wait)
                }
            },
        }
    }

    /// The preferences handed to the adapters, in order, when the events are
    /// handled one after another and each pass finishes before the next event.
    pub open spec fn applied_over(&self, events: Seq<WatchEvent>) -> Seq<ThemePreference>
        decreases events.len(),
    {
        if events.len() == 0 {
            Seq::empty()
        } else {
            let t = self.transition(events[0]);
            match t.1 {
                Action::ApplyAll(pref) => seq![pref] + t.0.finished().applied_over(
                    events.drop_first(),
                ),
                _ => t.0.applied_over(events.drop_first()),
            }
        }
    }

    /// An idle engine that has applied nothing yet.
    pub fn new(reapply_always: bool) -> (r: SyncEngine)
        ensures
            r.wf(),
            r.phase == Phase::Idle,
            r.last_applied is None,
            r.reapply_always == reapply_always,
            !r.ended,
    {
        SyncEngine {
            phase: Phase::Idle,
            last_applied: None,
            pending: None,
            reapply_always,
            ended: false,
        }
    }

    /// The engine with default policy: re-apply on every watched event.
    pub fn with_default_policy() -> (r: SyncEngine)
        ensures
            r.wf(),
            r.phase == Phase::Idle,
            r.last_applied is None,
            r.reapply_always,
            !r.ended,
    {
        SyncEngine::new(true)
    }

    fn begin(&mut self, pref: ThemePreference) -> (r: Action)
        requires
            old(self).wf(),
            old(self).phase == Phase::Idle,
        ensures
            final(self).wf(),
            r == Action::ApplyAll(pref),
            *final(self) == old(self).applying(pref),
    {
        self.phase = Phase::Applying;
        self.pending = Some(pref);
        Action::ApplyAll(pref)
    }

    /// Handles the startup read of the current preference. A failed read is
    /// not fatal: nothing is applied. A preference that was read is applied.
    pub fn start(&mut self, current: Result<ThemePreference, WatchError>) -> (r: Action)
        requires
            old(self).wf(),
            old(self).phase == Phase::Idle,
        ensures
            final(self).wf(),
            match current {
                Ok(pref) => r == Action::ApplyAll(pref) && *final(self) == old(self).applying(pref),
                Err(_) => r == Action::Wait && *final(self) == *old(self),
            },
    {
        match current {
            Ok(pref) => self.begin(pref),
            Err(_) => Action::Wait,
        }
    }

    /// Handles one event from the settings service. A change of another
    /// setting is ignored, with the engine left as it was; the end of the
    /// sequence stops the engine; a change of the watched setting starts a
    /// pass when `wants` says so, which by default is always.
    pub fn step(&mut self, event: &WatchEvent) -> (r: Action)
        requires
            old(self).wf(),
            old(self).phase == Phase::Idle,
        ensures
            final(self).wf(),
            (*final(self), r) == old(self).transition(*event),
    {
        match event {
            WatchEvent::Ended => {
                self.ended = true;
                Action::Stop
            },
            WatchEvent::Changed { namespace, key, payload } => {
                if !is_watched(namespace, key) {
                    return Action::Wait;
                }
                let pref = preference_of_payload(*payload);
                let fresh = match self.last_applied {
                    Some(last) => last != pref,
                    None => true,
                };
                if self.reapply_always || fresh {
                    self.begin(pref)
                } else {
                    Action::Wait
                }
            },
        }
    }

    /// Records the adapters' results of the pass under way, each on its own:
    /// one failure does not hide the others. Returns how many failed.
    pub fn finish_pass(&mut self, results: &Vec<Result<(), ApplyError>>) -> (r: usize)
        requires
            old(self).wf(),
            old(self).phase == Phase::Applying,
        ensures
            final(self).wf(),
            *final(self) == old(self).finished(),
            r == failures(results@),
    {
        let mut count: usize = 0;
        let mut i: usize = 0;
        while i < results.len()
            invariant
                i <= results@.len(),
                count == failures(results@.subrange(0, i as int)),
                count <= i,
            decreases results@.len() - i,
        {
            assert(results@.subrange(0, i + 1).drop_last() =~= results@.subrange(0, i as int));
            if results[i].is_err() {
                count = count + 1;
            }
            i = i + 1;
        }
        assert(results@.subrange(0, results@.len() as int) =~= results@);
        self.last_applied = self.pending;
        self.pending = None;
        self.phase = Phase::Idle;
        count
    }
}

/// The decoded preferences of the events that are changes of the watched
/// setting, in order, repeats kept.
pub open spec fn watched_prefs(events: Seq<WatchEvent>) -> Seq<ThemePreference>
    decreases events.len(),
{
    if events.len() == 0 {
        Seq::empty()
    } else {
        match events[0] {
            WatchEvent::Changed { namespace, key, payload } if is_watched_pair(namespace@, key@) => seq![
                preference_of_payload_spec(payload),
            ] + watched_prefs(events.drop_first()),
            _ => watched_prefs(events.drop_first()),
        }
    }
}

/// A change of any setting but the watched one leaves the engine as it was
/// and runs no adapter.
pub proof fn lemma_other_setting_ignored(
    engine: SyncEngine,
    namespace: String,
    key: String,
    payload: Option<u32>,
)
    requires
        !is_watched_pair(namespace@, key@),
    ensures
        engine.transition(WatchEvent::Changed { namespace, key, payload }) == (engine, Action::Wait),
{
}

/// The end of the event sequence (the connection was lost) stops the engine:
/// it yields no pass and no error.
pub proof fn lemma_end_stops(engine: SyncEngine)
    ensures
        engine.transition(WatchEvent::Ended).1 == Action::Stop,
        engine.transition(WatchEvent::Ended).0.ended,
{
}

/// With re-apply on every event, the adapters get exactly the decoded value of
/// each change of the watched setting, one pass per change, in the order the
/// changes came, repeats and `Unknown` included.
pub proof fn lemma_every_watched_change_applied(engine: SyncEngine, events: Seq<WatchEvent>)
    requires
        engine.reapply_always,
    ensures
        engine.applied_over(events) == watched_prefs(events),
    decreases events.len(),
{
    if events.len() > 0 {
        let t = engine.transition(events[0]);
        lemma_every_watched_change_applied(t.0, events.drop_first());
        lemma_every_watched_change_applied(t.0.finished(), events.drop_first());
    }
}

} // verus!
