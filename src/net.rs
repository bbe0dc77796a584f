use crate::text::same_text;
use tokio::task::JoinHandle;
use vstd::prelude::*;

verus! {

/// A forwarding rule: connections accepted on `local_port` are relayed to
/// `remote_address` (a `host:port` string, resolved only when connecting).
#[derive(Debug, PartialEq, Eq)]
pub struct ForwardRule {
    pub id: String,
    pub local_port: u16,
    pub remote_address: String,
    pub active: bool,
}

/// The mathematical value of a rule.
pub struct RuleView {
    pub id: Seq<char>,
    pub local_port: u16,
    pub remote_address: Seq<char>,
    pub active: bool,
}

impl View for ForwardRule {
    type V = RuleView;

    open spec fn view(&self) -> RuleView {
        RuleView {
            id: self.id@,
            local_port: self.local_port,
            remote_address: self.remote_address@,
            active: self.active,
        }
    }
}

impl Clone for ForwardRule {
    fn clone(&self) -> (r: Self)
        ensures
            r@ == self@,
    {
        ForwardRule {
            id: self.id.clone(),
            local_port: self.local_port,
            remote_address: self.remote_address.clone(),
            active: self.active,
        }
    }
}

impl ForwardRule {
    /// The same rule with its status flag set to `active`.
    pub fn with_active(self, active: bool) -> (r: ForwardRule)
        ensures
            r@ == (RuleView { active, ..self@ }),
    {
        ForwardRule { active, ..self }
    }
}

/// Why a rule could not be started. Both are decided before any listener
/// task exists; failures inside running tasks never reach the caller.
#[derive(Debug, PartialEq, Eq)]
pub enum ForwardError {
    /// A listener for this rule id is already running.
    Duplicate,
    /// The local port could not be bound; `reason` is the system's account.
    Bind { port: u16, reason: String },
}

/// The outcome of binding a rule's port and spawning its listener task:
/// the task's handle, or the system's reason for refusing the bind.
pub type BindOutcome = Result<JoinHandle<()>, String>;

/// What a bind outcome means for the bookkeeping: success, or the reason.
pub open spec fn bind_view(bound: &BindOutcome) -> Result<(), String> {
    match bound {
        Ok(_) => Ok(()),
        Err(reason) => Err(*reason),
    }
}

/// The result of a start, given whether its id already has a live listener
/// and the outcome of the bind that was tried for it.
pub open spec fn start_result(live: bool, port: u16, bound: Result<(), String>) -> Result<
    (),
    ForwardError,
> {
    if live {
        Err(ForwardError::Duplicate)
    } else {
        match bound {
            Ok(_) => Ok(()),
            Err(reason) => Err(ForwardError::Bind { port, reason }),
        }
    }
}

/// What a listener task does after one attempt to accept a connection.
#[derive(Clone, Copy, Debug, PartialEq, Eq, Structural)]
pub enum ListenerAction {
    /// Hand the connection to a new relay task, without waiting for it.
    SpawnRelay,
    /// Report the failure and accept again: a failed accept never ends
    /// the listener, only a stop does.
    ReportAndContinue,
}

/// The accept loop's step: a connection is relayed, a failure is reported.
pub fn after_accept(accepted: bool) -> (r: ListenerAction)
    ensures
        r == (if accepted { ListenerAction::SpawnRelay } else { ListenerAction::ReportAndContinue }),
{
    if accepted {
        ListenerAction::SpawnRelay
    } else {
        ListenerAction::ReportAndContinue
    }
}

/// What a relay task does once it tried to reach the remote address.
#[derive(Clone, Copy, Debug, PartialEq, Eq, Structural)]
pub enum RelayAction {
    /// Copy bytes both ways until either side closes, then close both.
    CopyBothWays,
    /// Report the failure and drop the inbound connection; never retried.
    ReportAndDrop,
}

/// The relay's step: a connected remote is relayed to, a failed connect
/// ends the task.
pub fn after_connect(connected: bool) -> (r: RelayAction)
    ensures
        r == (if connected { RelayAction::CopyBothWays } else { RelayAction::ReportAndDrop }),
{
    if connected {
        RelayAction::CopyBothWays
    } else {
        RelayAction::ReportAndDrop
    }
}

/// The table of live listener tasks, keyed by rule id.
pub struct Forwarder {
    handles: Vec<(String, JoinHandle<()>)>,
}

impl View for Forwarder {
    type V = Set<Seq<char>>;

    /// The ids that have a live listener.
    closed spec fn view(&self) -> Set<Seq<char>> {
        Set::new(|k: Seq<char>| self.keys().contains(k))
    }
}

impl Forwarder {
    spec fn keys(&self) -> Seq<Seq<char>> {
        self.handles@.map_values(|e: (String, JoinHandle<()>)| e.0@)
    }

    /// Each id has at most one listener.
    pub closed spec fn wf(&self) -> bool {
        self.keys().no_duplicates()
    }

    pub fn new() -> (r: Forwarder)
        ensures
            r.wf(),
            r@ == Set::<Seq<char>>::empty(),
    {
        let r = Forwarder { handles: Vec::new() };
        assert(r@ =~= Set::<Seq<char>>::empty());
        r
    }

    fn find(&self, id: &str) -> (r: Option<usize>)
        ensures
            match r {
                Some(i) => i < self.handles@.len() && self.keys()[i as int] == id@,
                None => !self.keys().contains(id@),
            },
    {
        let mut i: usize = 0;
        while i < self.handles.len()
            invariant
                i <= self.handles@.len(),
                forall|j: int| 0 <= j < i ==> self.keys()[j] != id@,
            decreases self.handles@.len() - i,
        {
            if same_text(self.handles[i].0.as_str(), id) {
                return Some(i);
            }
            i = i + 1;
        }
        None
    }

    /// Whether a listener for `id` is running.
    pub fn is_active(&self, id: &str) -> (r: bool)
        ensures
            r == self@.contains(id@),
    {
        self.find(id).is_some()
    }

    /// The check made before any I/O: a rule whose id already has a listener
    /// is refused.
    pub fn check_start(&self, rule: &ForwardRule) -> (r: Result<(), ForwardError>)
        ensures
            r == start_result(self@.contains(rule.id@), rule.local_port, Ok(())),
    {
        if self.is_active(rule.id.as_str()) {
            Err(ForwardError::Duplicate)
        } else {
            Ok(())
        }
    }

    /// Records the listener for `rule`, once its port was bound and its task
    /// spawned. The duplicate check is made again here, together with the
    /// insertion, so that two starts of one id can never both be recorded:
    /// the loser's task is cancelled.
    pub fn start(&mut self, rule: &ForwardRule, bound: BindOutcome) -> (r: Result<(), ForwardError>)
        requires
            old(self).wf(),
        ensures
            final(self).wf(),
            r == start_result(old(self)@.contains(rule.id@), rule.local_port, bind_view(&bound)),
            r is Ok ==> final(self)@ == old(self)@.insert(rule.id@),
            r is Err ==> final(self)@ == old(self)@,
    {
        if self.is_active(rule.id.as_str()) {
            if let Ok(handle) = &bound {
                handle.abort();
            }
            return Err(ForwardError::Duplicate);
        }
        match bound {
            Ok(handle) => {
                let ghost before = self.keys();
                self.handles.push((rule.id.clone(), handle));
                assert(self.keys() =~= before.push(rule.id@));
                assert forall|k: Seq<char>| self@.contains(k) <==> old(self)@.insert(rule.id@).contains(k) by {
                    if k == rule.id@ {
                        assert(self.keys()[before.len() as int] == k);
                    }
                    if before.contains(k) {
                        let j = choose|j: int| 0 <= j < before.len() && before[j] == k;
                        assert(self.keys()[j] == k);
                    }
                }
                assert(self@ =~= old(self)@.insert(rule.id@));
                Ok(())
            },
            Err(reason) => Err(ForwardError::Bind { port: rule.local_port, reason }),
        }
    }

    /// Removes the listener for `id`, if there is one, and cancels its task.
    /// Relays it already spawned are left to end on their own. Returns
    /// whether there was one.
    pub fn stop(&mut self, id: &str) -> (r: bool)
        requires
            old(self).wf(),
        ensures
            final(self).wf(),
            r == old(self)@.contains(id@),
            final(self)@ == old(self)@.remove(id@),
    {
        match self.find(id) {
            Some(i) => {
                let ghost before = self.keys();
                let (_, handle) = self.handles.remove(i);
                handle.abort();
                assert(self.keys() =~= before.remove(i as int));
                assert forall|k: Seq<char>| self@.contains(k) <==> old(self)@.remove(id@).contains(k) by {
                    if before.remove(i as int).contains(k) {
                        let j = choose|j: int| 0 <= j < before.len() - 1 && before.remove(i as int)[j] == k;
                        if j < i {
                            assert(before[j] == k);
                        } else {
                            assert(before[j + 1] == k);
                        }
                    }
                    if k != id@ && before.contains(k) {
                        let j = choose|j: int| 0 <= j < before.len() && before[j] == k;
                        if j < i {
                            assert(before.remove(i as int)[j] == k);
                        } else {
                            assert(before.remove(i as int)[j - 1] == k);
                        }
                    }
                }
                assert(self@ =~= old(self)@.remove(id@));
                true
            },
            None => {
                assert(self@ =~= old(self)@.remove(id@));
                false
            },
        }
    }
}

} // verus!
