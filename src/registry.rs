use crate::net::{ForwardRule, RuleView};
use crate::text::same_text;
use vstd::prelude::*;

verus! {

broadcast use vstd::seq_lib::group_filter_ensures;

/// The predicate kept by removing `id`: the rule has another id.
pub open spec fn keeps(id: Seq<char>) -> spec_fn(RuleView) -> bool {
    |r: RuleView| r.id != id
}

/// Whether some rule in `rules` has the id `id`.
pub open spec fn has_id(rules: Seq<RuleView>, id: Seq<char>) -> bool {
    exists|i: int| 0 <= i < rules.len() && rules[i].id == id
}

/// No two rules share an id.
pub open spec fn unique_ids(rules: Seq<RuleView>) -> bool {
    forall|i: int, j: int| 0 <= i < j < rules.len() ==> rules[i].id != rules[j].id
}

/// What removing the rules with id `id` leaves: the others, in order.
pub open spec fn without_id(rules: Seq<RuleView>, id: Seq<char>) -> Seq<RuleView> {
    rules.filter(keeps(id))
}

/// Removing an id keeps exactly the ids that differ from it.
pub proof fn lemma_without_id_has(rules: Seq<RuleView>, id: Seq<char>, k: Seq<char>)
    ensures
        has_id(without_id(rules, id), k) <==> (has_id(rules, k) && k != id),
{
    let out = without_id(rules, id);
    if has_id(rules, k) && k != id {
        let i = choose|i: int| 0 <= i < rules.len() && rules[i].id == k;
        assert(keeps(id)(rules[i]));
        assert(out.contains(rules[i]));
        let j = choose|j: int| 0 <= j < out.len() && out[j] == rules[i];
        assert(out[j].id == k);
    }
    if has_id(out, k) {
        let j = choose|j: int| 0 <= j < out.len() && out[j].id == k;
        assert(keeps(id)(out[j]));
        assert(out.contains(out[j]));
        rules.lemma_filter_contains_rev(keeps(id), out[j]);
        let i = choose|i: int| 0 <= i < rules.len() && rules[i] == out[j];
        assert(rules[i].id == k);
    }
}

/// Removing an id keeps the ids unique and every kept rule as it was.
pub proof fn lemma_without_id_unique(rules: Seq<RuleView>, id: Seq<char>)
    requires
        unique_ids(rules),
    ensures
        unique_ids(without_id(rules, id)),
        forall|j: int| 0 <= j < without_id(rules, id).len() ==> rules.contains(#[trigger] without_id(rules, id)[j]),
    decreases rules.len(),
{
    reveal(Seq::filter);
    let out = without_id(rules, id);
    assert forall|j: int| 0 <= j < out.len() implies rules.contains(#[trigger] out[j]) by {
        assert(out.contains(out[j]));
        rules.lemma_filter_contains_rev(keeps(id), out[j]);
    }
    if rules.len() > 0 {
        let rest = rules.drop_last();
        assert(unique_ids(rest));
        lemma_without_id_unique(rest, id);
        let sub = without_id(rest, id);
        if keeps(id)(rules.last()) {
            assert(out == sub.push(rules.last()));
            assert forall|i: int, j: int| 0 <= i < j < out.len() implies out[i].id != out[j].id by {
                if j == out.len() - 1 {
                    assert(rest.contains(sub[i]));
                    let m = choose|m: int| 0 <= m < rest.len() && rest[m] == sub[i];
                    assert(rules[m] == sub[i]);
                }
            }
        }
    }
}

/// A rule list with nothing to remove is left as it is.
pub proof fn lemma_without_absent_id(rules: Seq<RuleView>, id: Seq<char>)
    requires
        !has_id(rules, id),
    ensures
        without_id(rules, id) == rules,
    decreases rules.len(),
{
    reveal(Seq::filter);
    if rules.len() > 0 {
        let rest = rules.drop_last();
        assert(!has_id(rest, id)) by {
            if has_id(rest, id) {
                let i = choose|i: int| 0 <= i < rest.len() && rest[i].id == id;
                assert(rules[i].id == id);
            }
        }
        lemma_without_absent_id(rest, id);
        assert(rules.last().id != id);
        assert(rest.push(rules.last()) =~= rules);
    }
}

/// The rules offered to users, in the order they were added.
pub struct RuleRegistry {
    rules: Vec<ForwardRule>,
}

impl View for RuleRegistry {
    type V = Seq<RuleView>;

    closed spec fn view(&self) -> Seq<RuleView> {
        self.rules@.map_values(|r: ForwardRule| r@)
    }
}

impl RuleRegistry {
    pub fn new() -> (r: RuleRegistry)
        ensures
            r@ == Seq::<RuleView>::empty(),
    {
        let r = RuleRegistry { rules: Vec::new() };
        assert(r@ =~= Seq::<RuleView>::empty());
        r
    }

    /// Appends `rule`.
    pub fn add(&mut self, rule: ForwardRule)
        ensures
            final(self)@ == old(self)@.push(rule@),
    {
        self.rules.push(rule);
        assert(self@ =~= old(self)@.push(rule@));
    }

    /// Deletes every rule with the id `id`, keeping the others in order.
    pub fn remove(&mut self, id: &str)
        ensures
            final(self)@ == without_id(old(self)@, id@),
    {
        let ghost all = self@;
        let mut kept: Vec<ForwardRule> = Vec::new();
        let mut i: usize = 0;
        while i < self.rules.len()
            invariant
                i <= self.rules@.len(),
                all == self@,
                kept@.map_values(|r: ForwardRule| r@) == without_id(all.subrange(0, i as int), id@),
            decreases self.rules@.len() - i,
        {
            let ghost before = kept@.map_values(|r: ForwardRule| r@);
            proof {
                reveal(Seq::filter);
                assert(all.subrange(0, i + 1).drop_last() =~= all.subrange(0, i as int));
                assert(all.subrange(0, i + 1).last() == all[i as int]);
            }
            if !same_text(self.rules[i].id.as_str(), id) {
                let rule = self.rules[i].clone();
                kept.push(rule);
                assert(kept@.map_values(|r: ForwardRule| r@) =~= before.push(all[i as int]));
            }
            i = i + 1;
        }
        assert(all.subrange(0, i as int) =~= all);
        self.rules = kept;
    }

    /// A snapshot of the rules, in order.
    pub fn list(&self) -> (r: Vec<ForwardRule>)
        ensures
            r@.map_values(|x: ForwardRule| x@) == self@,
    {
        let mut out: Vec<ForwardRule> = Vec::new();
        let mut i: usize = 0;
        while i < self.rules.len()
            invariant
                i <= self.rules@.len(),
                out@.map_values(|x: ForwardRule| x@) == self@.subrange(0, i as int),
            decreases self.rules@.len() - i,
        {
            let ghost before = out@.map_values(|x: ForwardRule| x@);
            let rule = self.rules[i].clone();
            assert(rule@ == self@[i as int]);
            out.push(rule);
            assert(out@.map_values(|x: ForwardRule| x@) =~= before.push(self@[i as int]));
            assert(self@.subrange(0, i + 1) =~= self@.subrange(0, i as int).push(self@[i as int]));
            i = i + 1;
        }
        assert(self@.subrange(0, i as int) =~= self@);
        out
    }
}

} // verus!
