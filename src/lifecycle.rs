use crate::net::{start_result, ForwardError, RuleView};
use crate::registry::{has_id, lemma_without_absent_id, unique_ids};
use crate::state::{activated, after_start, after_stop, valid_rules};
use vstd::prelude::*;

verus! {

/// A start whose bind succeeded leaves the rule list valid, with the rule's
/// id present.
pub proof fn lemma_start_keeps_valid(rules: Seq<RuleView>, rule: RuleView)
    requires
        valid_rules(rules),
    ensures
        valid_rules(after_start(rules, rule, Ok(()))),
        has_id(after_start(rules, rule, Ok(())), rule.id),
{
    let s = after_start(rules, rule, Ok(()));
    if !has_id(rules, rule.id) {
        assert(s[rules.len() as int].id == rule.id);
        assert forall|i: int, j: int| 0 <= i < j < s.len() implies s[i].id != s[j].id by {
            if j == rules.len() {
                assert(rules[i].id == s[i].id);
            }
        }
    }
}

/// Starting a rule twice with no stop between: the second start is refused
/// as a duplicate and changes nothing, and exactly one active entry has the
/// id.
pub proof fn lemma_second_start_is_duplicate(
    rules: Seq<RuleView>,
    rule: RuleView,
    second: Result<(), String>,
)
    requires
        valid_rules(rules),
    ensures
        ({
            let once = after_start(rules, rule, Ok(()));
            &&& start_result(has_id(once, rule.id), rule.local_port, second) == Err::<(), ForwardError>(
                ForwardError::Duplicate,
            )
            &&& after_start(once, rule, second) == once
            &&& exists|i: int|
                0 <= i < once.len() && once[i].id == rule.id && once[i].active && forall|j: int|
                    0 <= j < once.len() && j != i ==> once[j].id != rule.id
        }),
{
    lemma_start_keeps_valid(rules, rule);
    let once = after_start(rules, rule, Ok(()));
    let i = choose|i: int| 0 <= i < once.len() && once[i].id == rule.id;
    assert(once[i].active);
    assert forall|j: int| 0 <= j < once.len() && j != i implies once[j].id != rule.id by {
        if j < i {
            assert(once[j].id != once[i].id);
        } else {
            assert(once[i].id != once[j].id);
        }
    }
}

/// A start whose bind failed is refused (as a duplicate if the id runs,
/// else with the port and the reason) and leaves the rules as they were.
pub proof fn lemma_failed_bind_changes_nothing(rules: Seq<RuleView>, rule: RuleView, reason: String)
    ensures
        after_start(rules, rule, Err(reason)) == rules,
        start_result(has_id(rules, rule.id), rule.local_port, Err(reason)) == (if has_id(
            rules,
            rule.id,
        ) {
            Err::<(), ForwardError>(ForwardError::Duplicate)
        } else {
            Err(ForwardError::Bind { port: rule.local_port, reason })
        }),
{
}

/// Stopping an id that is not running leaves the rules as they were.
pub proof fn lemma_stop_unknown_is_noop(rules: Seq<RuleView>, id: Seq<char>)
    requires
        !has_id(rules, id),
    ensures
        after_stop(rules, id) == rules,
{
    lemma_without_absent_id(rules, id);
}

/// From no rules, starting `a` and then `b` (distinct ids, both binds
/// succeeding) and stopping `a` lists only `b`, active.
pub proof fn lemma_start_start_stop(a: RuleView, b: RuleView)
    requires
        a.id != b.id,
    ensures
        ({
            let one = after_start(Seq::empty(), a, Ok(()));
            let two = after_start(one, b, Ok(()));
            after_stop(two, a.id) == seq![activated(b)]
        }),
{
    let one = after_start(Seq::<RuleView>::empty(), a, Ok(()));
    assert(!has_id(Seq::<RuleView>::empty(), a.id));
    assert(one == seq![activated(a)]);
    assert(!has_id(one, b.id));
    let two = after_start(one, b, Ok(()));
    assert(two == seq![activated(a), activated(b)]);
    reveal_with_fuel(Seq::filter, 3);
    assert(two.drop_last() =~= seq![activated(a)]);
    assert(two.drop_last().drop_last() =~= Seq::<RuleView>::empty());
    assert(after_stop(two, a.id) =~= seq![activated(b)]);
}

/// The rules after starting each of `new` in turn, every bind succeeding.
pub open spec fn after_starts(rules: Seq<RuleView>, new: Seq<RuleView>) -> Seq<RuleView>
    decreases new.len(),
{
    if new.len() == 0 {
        rules
    } else {
        after_start(after_starts(rules, new.drop_last()), new.last(), Ok(()))
    }
}

/// Starting rules with distinct ids, none of them running, on ports that
/// bind: every start succeeds and all of them are listed, active, after
/// the rules that were there, in the order they were started.
pub proof fn lemma_distinct_starts_all_succeed(rules: Seq<RuleView>, new: Seq<RuleView>)
    requires
        valid_rules(rules),
        unique_ids(new),
        forall|i: int| 0 <= i < new.len() ==> !has_id(rules, #[trigger] new[i].id),
    ensures
        after_starts(rules, new) == rules + new.map_values(|r: RuleView| activated(r)),
        forall|i: int|
            0 <= i < new.len() ==> start_result(
                has_id(after_starts(rules, new.subrange(0, i)), #[trigger] new[i].id),
                new[i].local_port,
                Ok(()),
            ) is Ok,
    decreases new.len(),
{
    if new.len() > 0 {
        let rest = new.drop_last();
        lemma_distinct_starts_all_succeed(rules, rest);
        let before = after_starts(rules, rest);
        let last = new.last();
        assert(!has_id(before, last.id)) by {
            if has_id(before, last.id) {
                let k = choose|k: int| 0 <= k < before.len() && before[k].id == last.id;
                if k < rules.len() {
                    assert(rules[k] == before[k]);
                    assert(has_id(rules, new[new.len() - 1].id));
                } else {
                    assert(before[k] == activated(rest[k - rules.len()]));
                    assert(new[k - rules.len()].id != new[new.len() - 1].id);
                }
            }
        }
        assert(after_starts(rules, new) == before.push(activated(last)));
        assert(after_starts(rules, new) =~= rules + new.map_values(|r: RuleView| activated(r)));
        assert forall|i: int|
            0 <= i < new.len() implies start_result(
            has_id(after_starts(rules, new.subrange(0, i)), #[trigger] new[i].id),
            new[i].local_port,
            Ok(()),
        ) is Ok by {
            if i < new.len() - 1 {
                assert(new.subrange(0, i) =~= rest.subrange(0, i));
                assert(new[i] == rest[i]);
            } else {
                assert(new.subrange(0, i) =~= rest);
            }
        }
    }
}

} // verus!
