//! Properties of the mutator and of the change-detecting update, stated over
//! the same spec functions their contracts use.

use vstd::prelude::*;
use crate::condition::{ConditionChange, ConditionView, same_state, unknown_view, updated};
use crate::list::{
    canonical, first_index, insert_unique, lemma_canonical_sorted, lemma_insert_unique_sorted,
    lemma_lookup_canonical, lemma_lookup_push, lookup, lookup_behind, strictly_sorted, unique_types,
    upserted,
};
use crate::order::{lemma_name_lt_irreflexive, lemma_name_lt_transitive, name_lt};
use crate::time::Time;

verus! {

proof fn lemma_insert_unique_greatest(s: Seq<ConditionView>, c: ConditionView)
    requires
        forall|j: int| 0 <= j < s.len() ==> name_lt(#[trigger] s[j].type_, c.type_),
    ensures
        insert_unique(s, c) == s.push(c),
    decreases s.len(),
{
    if s.len() == 0 {
        assert(seq![c] =~= s.push(c));
    } else {
        lemma_name_lt_irreflexive(c.type_);
        if name_lt(c.type_, s[0].type_) {
            lemma_name_lt_transitive(c.type_, s[0].type_, c.type_);
        }
        assert forall|j: int| 0 <= j < s.drop_first().len() implies name_lt(#[trigger] s.drop_first()[j].type_, c.type_) by {
            assert(s.drop_first()[j] == s[j + 1]);
        }
        lemma_insert_unique_greatest(s.drop_first(), c);
        assert(seq![s[0]] + s.drop_first().push(c) =~= s.push(c));
    }
}

proof fn lemma_canonical_of_sorted(s: Seq<ConditionView>)
    requires
        strictly_sorted(s),
    ensures
        canonical(s) == s,
    decreases s.len(),
{
    if s.len() > 0 {
        let init = s.drop_last();
        assert(strictly_sorted(init)) by {
            assert forall|i: int, j: int| 0 <= i < j < init.len() implies name_lt(#[trigger] init[i].type_, #[trigger] init[j].type_) by {
                assert(init[i] == s[i] && init[j] == s[j]);
            }
        }
        lemma_canonical_of_sorted(init);
        assert forall|j: int| 0 <= j < init.len() implies name_lt(#[trigger] init[j].type_, s.last().type_) by {
            assert(init[j] == s[j]);
        }
        lemma_insert_unique_greatest(init, s.last());
        assert(init.push(s.last()) =~= s);
    }
}

/// The mutator is idempotent: asking a second time for a type leaves the list
/// as the first call left it, whatever time the second call would stamp.
pub proof fn law_upsert_idempotent(s: Seq<ConditionView>, t: Seq<char>, first: Time, second: Time)
    ensures
        upserted(upserted(s, t, first), t, second) == upserted(s, t, first),
{
    let n = upserted(s, t, first);
    lemma_canonical_sorted(s.push(unknown_view(t, first)));
    lemma_canonical_of_sorted(n);
    assert(s.push(unknown_view(t, first)).drop_last() =~= s);
    lemma_canonical_sorted(s);
    lemma_insert_unique_sorted(canonical(s), unknown_view(t, first));
    assert(n.push(unknown_view(t, second)).drop_last() =~= n);
    lemma_insert_unique_sorted(n, unknown_view(t, second));
}

/// Asking twice for the same type on an empty list leaves one condition.
pub proof fn law_upsert_twice_on_empty(t: Seq<char>, first: Time, second: Time)
    ensures
        upserted(upserted(Seq::empty(), t, first), t, second).len() == 1,
{
    law_upsert_idempotent(Seq::empty(), t, first, second);
    let s = Seq::<ConditionView>::empty().push(unknown_view(t, first));
    assert(s.drop_last() =~= Seq::<ConditionView>::empty());
    assert(canonical(Seq::<ConditionView>::empty()) == Seq::<ConditionView>::empty());
    assert(canonical(s) == insert_unique(Seq::<ConditionView>::empty(), unknown_view(t, first)));
    assert(upserted(Seq::empty(), t, first).len() == 1);
}

/// Whatever list the mutator starts from, it leaves one sorted by type, with
/// no two conditions of one type, and holding the type asked for.
pub proof fn law_upsert_sorted_unique(s: Seq<ConditionView>, t: Seq<char>, at: Time)
    ensures
        strictly_sorted(upserted(s, t, at)),
        unique_types(upserted(s, t, at)),
        first_index(upserted(s, t, at), t) is Some,
{
    let n = upserted(s, t, at);
    lemma_canonical_sorted(s.push(unknown_view(t, at)));
    assert(s.push(unknown_view(t, at)).drop_last() =~= s);
    lemma_canonical_sorted(s);
    lemma_insert_unique_sorted(canonical(s), unknown_view(t, at));
    assert forall|i: int, j: int| 0 <= i < n.len() && 0 <= j < n.len() && i != j implies #[trigger] n[i].type_ != #[trigger] n[j].type_ by {
        lemma_name_lt_irreflexive(n[i].type_);
        if i < j {
            assert(name_lt(n[i].type_, n[j].type_));
        } else {
            assert(name_lt(n[j].type_, n[i].type_));
        }
    }
}

/// The mutator loses no type and adds none but the one asked for: under each
/// type, the list it leaves holds the first condition of that type in the
/// list it was given, or, for the type asked for where that list held none,
/// the new "Unknown" condition.
pub proof fn law_upsert_keeps_first(s: Seq<ConditionView>, t: Seq<char>, at: Time, x: Seq<char>)
    ensures
        lookup(upserted(s, t, at), x) == lookup_behind(s, unknown_view(t, at), x),
{
    lemma_lookup_canonical(s.push(unknown_view(t, at)), x);
    lemma_lookup_push(s, unknown_view(t, at), x);
}

/// A change that leaves the state as it was leaves the condition, its
/// transition time included, as it was; one that changes the state stamps
/// the given time, so the transition time does not go back where that time
/// is no earlier than the old one.
pub proof fn law_update_stamps_only_changes(c: ConditionView, change: ConditionChange, at: Time)
    ensures
        same_state(change.applied_to(c), c) ==> updated(c, change, at) == c,
        !same_state(change.applied_to(c), c) ==> updated(c, change, at).last_transition_time == at,
        c.last_transition_time.no_later_than(at) ==> c.last_transition_time.no_later_than(
            updated(c, change, at).last_transition_time,
        ),
{
}

/// Setting the reason a condition already has changes nothing, its
/// transition time included; setting another one stamps the given time.
pub proof fn law_same_reason_keeps_time(c: ConditionView, reason: String, at: Time)
    ensures
        reason@ == c.reason ==> updated(c, ConditionChange::Reason(reason), at) == c,
        reason@ != c.reason ==> updated(c, ConditionChange::Reason(reason), at).reason == reason@,
        reason@ != c.reason ==> updated(c, ConditionChange::Reason(reason), at).last_transition_time == at,
{
}

/// After the generation setter, the condition is current at that generation.
pub proof fn law_generation_setter_makes_current(c: ConditionView, generation: Option<i64>, at: Time)
    ensures
        updated(c, ConditionChange::ObservedGeneration(generation), at).observed_generation == generation,
{
}

} // verus!
