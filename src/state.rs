use crate::net::{bind_view, start_result, BindOutcome, ForwardError, ForwardRule, Forwarder, RuleView};
use crate::registry::{
    has_id, lemma_without_id_has, lemma_without_id_unique, unique_ids, without_id, RuleRegistry,
};
use vstd::prelude::*;

verus! {

/// A rule list as the registry holds it: ids unique, every rule active.
pub open spec fn valid_rules(rules: Seq<RuleView>) -> bool {
    &&& unique_ids(rules)
    &&& forall|i: int| 0 <= i < rules.len() ==> (#[trigger] rules[i]).active
}

/// The rule as the registry records it once its listener runs.
pub open spec fn activated(rule: RuleView) -> RuleView {
    RuleView { active: true, ..rule }
}

/// The registry after a start of `rule` whose bind came out as `bound`.
pub open spec fn after_start(rules: Seq<RuleView>, rule: RuleView, bound: Result<(), String>) -> Seq<
    RuleView,
> {
    if start_result(has_id(rules, rule.id), rule.local_port, bound) is Ok {
        rules.push(activated(rule))
    } else {
        rules
    }
}

/// The registry after a stop of `id`.
pub open spec fn after_stop(rules: Seq<RuleView>, id: Seq<char>) -> Seq<RuleView> {
    without_id(rules, id)
}

/// The engine's shared state: the listener table and the registry, which
/// are changed together so that a rule is listed exactly while its
/// listener runs.
pub struct ForwardState {
    forwarder: Forwarder,
    registry: RuleRegistry,
}

impl View for ForwardState {
    type V = Seq<RuleView>;

    /// The rules, as listed.
    closed spec fn view(&self) -> Seq<RuleView> {
        self.registry@
    }
}

impl ForwardState {
    /// The table holds a listener for exactly the listed ids, and the
    /// listed rules are valid.
    pub closed spec fn wf(&self) -> bool {
        &&& self.forwarder.wf()
        &&& valid_rules(self.registry@)
        &&& forall|k: Seq<char>| #[trigger] self.forwarder@.contains(k) <==> has_id(self.registry@, k)
    }

    pub fn new() -> (r: ForwardState)
        ensures
            r.wf(),
            r@ == Seq::<RuleView>::empty(),
    {
        ForwardState { forwarder: Forwarder::new(), registry: RuleRegistry::new() }
    }

    /// Whether a rule with this id is running.
    pub fn is_active(&self, id: &str) -> (r: bool)
        requires
            self.wf(),
        ensures
            r == has_id(self@, id@),
    {
        self.forwarder.is_active(id)
    }

    /// The check to make before binding `rule`'s port: `Duplicate` exactly
    /// when a rule with its id is running.
    pub fn check_start(&self, rule: &ForwardRule) -> (r: Result<(), ForwardError>)
        requires
            self.wf(),
        ensures
            r == start_result(has_id(self@, rule.id@), rule.local_port, Ok(())),
    {
        self.forwarder.check_start(rule)
    }

    /// Completes a start once the port bind was tried: on success the
    /// listener is recorded and the rule appended, marked active; a
    /// duplicate id or a failed bind leaves everything as it was.
    pub fn start_forward(&mut self, rule: ForwardRule, bound: BindOutcome) -> (r: Result<(), ForwardError>)
        requires
            old(self).wf(),
        ensures
            final(self).wf(),
            r == start_result(has_id(old(self)@, rule@.id), rule.local_port, bind_view(&bound)),
            final(self)@ == after_start(old(self)@, rule@, bind_view(&bound)),
    {
        let r = self.forwarder.start(&rule, bound);
        if r.is_ok() {
            let ghost before = self.registry@;
            self.registry.add(rule.with_active(true));
            assert forall|k: Seq<char>| #[trigger] self.forwarder@.contains(k) <==> has_id(self.registry@, k) by {
                if k == rule.id@ {
                    assert(self.registry@[before.len() as int].id == k);
                }
                if has_id(before, k) {
                    let i = choose|i: int| 0 <= i < before.len() && before[i].id == k;
                    assert(self.registry@[i].id == k);
                }
                if has_id(self.registry@, k) && k != rule.id@ {
                    let i = choose|i: int| 0 <= i < self.registry@.len() && self.registry@[i].id == k;
                    assert(before[i].id == k);
                }
            }
            assert forall|i: int, j: int| 0 <= i < j < self.registry@.len() implies self.registry@[i].id
                != self.registry@[j].id by {
                if j == before.len() {
                    assert(has_id(before, before[i].id));
                }
            }
        }
        r
    }

    /// Stops the rule with this id: its listener is cancelled and it leaves
    /// the registry. An unknown id changes nothing.
    pub fn stop_forward(&mut self, id: &str)
        requires
            old(self).wf(),
        ensures
            final(self).wf(),
            final(self)@ == after_stop(old(self)@, id@),
    {
        let ghost before = self.registry@;
        self.forwarder.stop(id);
        self.registry.remove(id);
        proof {
            lemma_without_id_unique(before, id@);
            assert forall|k: Seq<char>| #[trigger] self.forwarder@.contains(k) <==> has_id(self.registry@, k) by {
                lemma_without_id_has(before, id@, k);
            }
            assert forall|i: int| 0 <= i < self.registry@.len() implies (#[trigger] self.registry@[i]).active by {
                assert(before.contains(self.registry@[i]));
            }
        }
    }

    /// A snapshot of the rules, in the order they were started.
    pub fn get_forward_rules(&self) -> (r: Vec<ForwardRule>)
        ensures
            r@.map_values(|x: ForwardRule| x@) == self@,
    {
        self.registry.list()
    }
}

} // verus!
