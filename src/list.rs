//! Condition lists: reading a condition by type, with a default when absent,
//! and the mutator that keeps a list sorted by type and free of duplicates.

use vstd::prelude::*;
use crate::condition::{Condition, ConditionView, unknown_view};
use crate::order::{compare_names, lemma_name_lt_irreflexive, name_lt, same_text};
use crate::time::{now, Time};
use core::cmp::Ordering;

verus! {

/// What each condition of a list holds.
pub open spec fn views(s: Seq<Condition>) -> Seq<ConditionView> {
    s.map_values(|c: Condition| c@)
}

/// The index of the first condition of type `t`, if there is one.
pub open spec fn first_index(s: Seq<ConditionView>, t: Seq<char>) -> Option<int>
    decreases s.len(),
{
    if s.len() == 0 {
        None
    } else if s[0].type_ == t {
        Some(0)
    } else {
        match first_index(s.drop_first(), t) {
            Some(i) => Some(i + 1),
            None => None,
        }
    }
}

/// The first condition of type `t`, or the "Unknown" one stamped `at`.
pub open spec fn condition_or_unknown(s: Seq<ConditionView>, t: Seq<char>, at: Time) -> ConditionView {
    match first_index(s, t) {
        Some(i) => s[i],
        None => unknown_view(t, at),
    }
}

/// `s` with `c` put in its place by type, unless `s` already holds a
/// condition of that type, in which case `s` as it is.
pub open spec fn insert_unique(s: Seq<ConditionView>, c: ConditionView) -> Seq<ConditionView>
    decreases s.len(),
{
    if s.len() == 0 {
        seq![c]
    } else if s[0].type_ == c.type_ {
        s
    } else if name_lt(c.type_, s[0].type_) {
        seq![c] + s
    } else {
        seq![s[0]] + insert_unique(s.drop_first(), c)
    }
}

/// The conditions of `s` sorted by type, keeping of each type the one that
/// comes first in `s`: a stable sort followed by removing adjacent duplicates.
pub open spec fn canonical(s: Seq<ConditionView>) -> Seq<ConditionView>
    decreases s.len(),
{
    if s.len() == 0 {
        Seq::empty()
    } else {
        insert_unique(canonical(s.drop_last()), s.last())
    }
}

/// The list the mutator leaves for type `t`: `s` with an "Unknown" condition
/// of type `t`, stamped `at`, added behind it, sorted by type, deduplicated.
pub open spec fn upserted(s: Seq<ConditionView>, t: Seq<char>, at: Time) -> Seq<ConditionView> {
    canonical(s.push(unknown_view(t, at)))
}

/// Every condition's type comes strictly before the types of those behind it.
pub open spec fn strictly_sorted(s: Seq<ConditionView>) -> bool {
    forall|i: int, j: int| 0 <= i < j < s.len() ==> name_lt(#[trigger] s[i].type_, #[trigger] s[j].type_)
}

/// No two conditions share a type.
pub open spec fn unique_types(s: Seq<ConditionView>) -> bool {
    forall|i: int, j: int| 0 <= i < s.len() && 0 <= j < s.len() && i != j ==> #[trigger] s[i].type_ != #[trigger] s[j].type_
}

pub proof fn lemma_first_index(s: Seq<ConditionView>, t: Seq<char>, i: int)
    requires
        0 <= i <= s.len(),
        forall|k: int| 0 <= k < i ==> #[trigger] s[k].type_ != t,
    ensures
        i < s.len() && s[i].type_ == t ==> first_index(s, t) == Some(i),
        i == s.len() ==> first_index(s, t) is None,
    decreases i,
{
    if i > 0 {
        lemma_first_index(s.drop_first(), t, i - 1);
    } else if s.len() > 0 && s[0].type_ != t {
    }
}

pub proof fn lemma_insert_unique_skip(s: Seq<ConditionView>, c: ConditionView, j: int)
    requires
        0 <= j <= s.len(),
        forall|k: int| 0 <= k < j ==> name_lt(#[trigger] s[k].type_, c.type_),
    ensures
        insert_unique(s, c) == s.take(j) + insert_unique(s.skip(j), c),
    decreases j,
{
    if j == 0 {
        assert(s.skip(0) =~= s);
        assert(s.take(0) + insert_unique(s.skip(0), c) =~= insert_unique(s, c));
    } else {
        lemma_name_lt_irreflexive(c.type_);
        if name_lt(c.type_, s[0].type_) {
            crate::order::lemma_name_lt_transitive(c.type_, s[0].type_, c.type_);
        }
        assert forall|k: int| 0 <= k < j - 1 implies name_lt(#[trigger] s.drop_first()[k].type_, c.type_) by {
            assert(s.drop_first()[k] == s[k + 1]);
        }
        lemma_insert_unique_skip(s.drop_first(), c, j - 1);
        assert(s.drop_first().skip(j - 1) =~= s.skip(j));
        assert(seq![s[0]] + s.drop_first().take(j - 1) =~= s.take(j));
        assert(seq![s[0]] + (s.drop_first().take(j - 1) + insert_unique(s.skip(j), c))
            =~= s.take(j) + insert_unique(s.skip(j), c));
    }
}

/// Puts `c` in its place by type in `list`, unless `list` already holds a
/// condition of that type.
fn insert_unique_into(list: &mut Vec<Condition>, c: Condition)
    ensures
        views(final(list)@) == insert_unique(views(old(list)@), c@),
{
    let ghost s = views(list@);
    let mut j: usize = 0;
    while j < list.len()
        invariant
            j <= list@.len(),
            list@ == old(list)@,
            s == views(list@),
            forall|k: int| 0 <= k < j ==> name_lt(#[trigger] s[k].type_, c@.type_),
        decreases list@.len() - j,
    {
        match compare_names(list[j].type_.as_str(), c.type_.as_str()) {
            Ordering::Less => {
                j = j + 1;
            },
            Ordering::Equal => {
                proof {
                    lemma_insert_unique_skip(s, c@, j as int);
                    assert(s.take(j as int) + s.skip(j as int) =~= s);
                }
                return;
            },
            Ordering::Greater => {
                proof {
                    lemma_insert_unique_skip(s, c@, j as int);
                }
                list.insert(j, c);
                proof {
                    assert(views(list@) =~= s.take(j as int) + (seq![c@] + s.skip(j as int)));
                }
                return;
            },
        }
    }
    proof {
        lemma_insert_unique_skip(s, c@, j as int);
        assert(s.skip(j as int) =~= Seq::<ConditionView>::empty());
    }
    list.push(c);
    proof {
        assert(views(list@) =~= s.take(j as int) + seq![c@]);
    }
}

/// The conditions of `list` sorted by type, keeping of each type the one
/// that comes first.
fn canonicalize(list: &Vec<Condition>) -> (r: Vec<Condition>)
    ensures
        views(r@) == canonical(views(list@)),
{
    let ghost s = views(list@);
    let mut acc: Vec<Condition> = Vec::new();
    let mut i: usize = 0;
    proof {
        assert(s.take(0) =~= Seq::<ConditionView>::empty());
        assert(views(acc@) =~= Seq::<ConditionView>::empty());
    }
    while i < list.len()
        invariant
            i <= list@.len(),
            s == views(list@),
            views(acc@) == canonical(s.take(i as int)),
        decreases list@.len() - i,
    {
        insert_unique_into(&mut acc, list[i].clone());
        proof {
            assert(s.take(i + 1).drop_last() =~= s.take(i as int));
        }
        i = i + 1;
    }
    proof {
        assert(s.take(i as int) =~= s);
    }
    acc
}

/// The index of the first condition of type `t` in `list`, if any.
pub fn find_index(list: &Vec<Condition>, t: &str) -> (r: Option<usize>)
    ensures
        match r {
            Some(i) => i < list@.len() && first_index(views(list@), t@) == Some(i as int),
            None => first_index(views(list@), t@) is None,
        },
{
    let ghost s = views(list@);
    let mut i: usize = 0;
    while i < list.len()
        invariant
            i <= list@.len(),
            s == views(list@),
            forall|k: int| 0 <= k < i ==> #[trigger] s[k].type_ != t@,
        decreases list@.len() - i,
    {
        if same_text(list[i].type_.as_str(), t) {
            proof {
                lemma_first_index(s, t@, i as int);
            }
            return Some(i);
        }
        i = i + 1;
    }
    proof {
        lemma_first_index(s, t@, i as int);
    }
    None
}

/// The first condition of type `t` in `list`, copied; where there is none, a
/// condition of type `t` with status "Unknown" stamped `at`. The list is
/// left as it is.
pub fn condition_at(list: &Vec<Condition>, t: &str, at: Time) -> (r: Condition)
    ensures
        r@ == condition_or_unknown(views(list@), t@, at),
{
    match find_index(list, t) {
        Some(i) => {
            let r = list[i].clone();
            proof {
                assert(r@ == views(list@)[i as int]);
            }
            r
        },
        None => Condition::unknown(t, at),
    }
}

/// Makes sure `list` holds exactly one condition of type `t`, adding an
/// "Unknown" one stamped `at` where it holds none, and leaves it sorted by
/// type with one condition per type; returns that condition to be changed
/// in place.
pub fn condition_mut_at<'a>(list: &'a mut Vec<Condition>, t: &str, at: Time) -> (r: &'a mut Condition)
    ensures
        ({
            let n = upserted(views(old(list)@), t@, at);
            &&& first_index(n, t@) is Some
            &&& final(list)@.len() == n.len()
            &&& r@ == n[first_index(n, t@)->0]
            &&& views(final(list)@) == n.update(first_index(n, t@)->0, final(r)@)
        }),
{
    let ghost s = views(list@);
    let mut sorted = canonicalize(list);
    insert_unique_into(&mut sorted, Condition::unknown(t, at));
    proof {
        assert(s.push(unknown_view(t@, at)).drop_last() =~= s);
        lemma_canonical_sorted(s);
        lemma_insert_unique_sorted(canonical(s), unknown_view(t@, at));
        assert(upserted(s, t@, at) == views(sorted@));
    }
    *list = sorted;
    match find_index(list, t) {
        Some(i) => {
            let ghost current = list@;
            proof {
                assert(views(current)[i as int] == current[i as int]@);
                assert(views(current) == upserted(s, t@, at));
                assert(first_index(upserted(s, t@, at), t@) == Some(i as int));
                assert forall|x: Condition| #[trigger] views(current.update(i as int, x)) == views(current).update(i as int, x@) by {
                    assert(views(current.update(i as int, x)) =~= views(current).update(i as int, x@));
                }
            }
            &mut list[i]
        },
        None => {
            // The type was put in the list just above, so it is found.
            proof {
                assert(false);
            }
            &mut list[0]
        },
    }
}

/// Returns the first condition of type `t` in `list`, copied; where there is
/// none, a condition of type `t` with status "Unknown" stamped with the
/// current time.
pub fn condition(list: &Vec<Condition>, t: &str) -> (r: Condition)
    ensures
        r@ == condition_or_unknown(views(list@), t@, r.last_transition_time),
{
    condition_at(list, t, now())
}

/// Every condition of `s` has a type that comes strictly after `x`.
pub open spec fn all_after(x: Seq<char>, s: Seq<ConditionView>) -> bool {
    forall|j: int| 0 <= j < s.len() ==> name_lt(x, #[trigger] s[j].type_)
}

pub proof fn lemma_sorted_cons(a: ConditionView, s: Seq<ConditionView>)
    ensures
        strictly_sorted(seq![a] + s) == (all_after(a.type_, s) && strictly_sorted(s)),
{
    let r = seq![a] + s;
    if all_after(a.type_, s) && strictly_sorted(s) {
        assert forall|i: int, j: int| 0 <= i < j < r.len() implies name_lt(#[trigger] r[i].type_, #[trigger] r[j].type_) by {
            if i > 0 {
                assert(r[i] == s[i - 1] && r[j] == s[j - 1]);
            } else {
                assert(r[j] == s[j - 1]);
            }
        }
    }
    if strictly_sorted(r) {
        assert forall|j: int| 0 <= j < s.len() implies name_lt(a.type_, #[trigger] s[j].type_) by {
            assert(r[0] == a && r[j + 1] == s[j]);
        }
        assert forall|i: int, j: int| 0 <= i < j < s.len() implies name_lt(#[trigger] s[i].type_, #[trigger] s[j].type_) by {
            assert(r[i + 1] == s[i] && r[j + 1] == s[j]);
        }
    }
}

pub proof fn lemma_insert_unique_after(x: Seq<char>, s: Seq<ConditionView>, c: ConditionView)
    requires
        all_after(x, s),
        name_lt(x, c.type_),
    ensures
        all_after(x, insert_unique(s, c)),
    decreases s.len(),
{
    if s.len() > 0 && s[0].type_ != c.type_ && !name_lt(c.type_, s[0].type_) {
        lemma_insert_unique_after(x, s.drop_first(), c);
        let r = insert_unique(s, c);
        assert forall|j: int| 0 <= j < r.len() implies name_lt(x, #[trigger] r[j].type_) by {
            if j > 0 {
                assert(r[j] == insert_unique(s.drop_first(), c)[j - 1]);
            }
        }
    } else if s.len() > 0 && s[0].type_ != c.type_ {
        let r = insert_unique(s, c);
        assert forall|j: int| 0 <= j < r.len() implies name_lt(x, #[trigger] r[j].type_) by {
            if j > 0 {
                assert(r[j] == s[j - 1]);
            }
        }
    }
}

/// Inserting into a strictly sorted sequence keeps it strictly sorted; where
/// the sequence already holds the type, it is left as it is, and otherwise
/// the inserted condition is the one found under its type.
pub proof fn lemma_insert_unique_sorted(s: Seq<ConditionView>, c: ConditionView)
    requires
        strictly_sorted(s),
    ensures
        strictly_sorted(insert_unique(s, c)),
        first_index(s, c.type_) is Some ==> insert_unique(s, c) == s,
        first_index(insert_unique(s, c), c.type_) is Some,
        first_index(s, c.type_) is None ==> insert_unique(s, c)[first_index(insert_unique(s, c), c.type_)->0] == c,
    decreases s.len(),
{
    lemma_name_lt_irreflexive(c.type_);
    if s.len() == 0 {
        assert(first_index(seq![c], c.type_) == Some(0int));
    } else if s[0].type_ == c.type_ {
    } else if name_lt(c.type_, s[0].type_) {
        lemma_sorted_cons(s[0], s.drop_first());
        assert(s =~= seq![s[0]] + s.drop_first());
        assert forall|j: int| 0 <= j < s.len() implies name_lt(c.type_, #[trigger] s[j].type_) by {
            if j > 0 {
                crate::order::lemma_name_lt_transitive(c.type_, s[0].type_, s[j].type_);
            }
        }
        lemma_sorted_cons(c, s);
        if first_index(s, c.type_) is Some {
            let k = first_index(s, c.type_)->0;
            lemma_first_index_found(s, c.type_);
            crate::order::lemma_name_lt_transitive(c.type_, s[0].type_, s[k].type_);
            assert(false);
        }
        let r = insert_unique(s, c);
        assert(r == seq![c] + s);
        assert(r[0] == c);
        assert(first_index(r, c.type_) == Some(0int));
    } else {
        crate::order::lemma_name_lt_total(c.type_, s[0].type_);
        let rest = s.drop_first();
        lemma_sorted_cons(s[0], rest);
        assert(s =~= seq![s[0]] + rest);
        lemma_insert_unique_sorted(rest, c);
        lemma_insert_unique_after(s[0].type_, rest, c);
        lemma_sorted_cons(s[0], insert_unique(rest, c));
        let r = insert_unique(s, c);
        assert(r.drop_first() =~= insert_unique(rest, c));
        if first_index(s, c.type_) is Some {
            assert(insert_unique(rest, c) == rest);
            assert(r =~= s);
        } else {
            assert(first_index(rest, c.type_) is None);
            assert(r[0] == s[0]);
            let k = first_index(insert_unique(rest, c), c.type_)->0;
            lemma_first_index_found(insert_unique(rest, c), c.type_);
            assert(first_index(r, c.type_) == Some(k + 1));
            assert(r[k + 1] == insert_unique(rest, c)[k]);
        }
    }
}

pub proof fn lemma_first_index_found(s: Seq<ConditionView>, t: Seq<char>)
    ensures
        first_index(s, t) is Some ==> {
            let k = first_index(s, t)->0;
            &&& 0 <= k < s.len()
            &&& s[k].type_ == t
        },
    decreases s.len(),
{
    if s.len() > 0 {
        lemma_first_index_found(s.drop_first(), t);
    }
}

/// The result of `canonical` is strictly sorted by type.
pub proof fn lemma_canonical_sorted(s: Seq<ConditionView>)
    ensures
        strictly_sorted(canonical(s)),
    decreases s.len(),
{
    if s.len() > 0 {
        lemma_canonical_sorted(s.drop_last());
        lemma_insert_unique_sorted(canonical(s.drop_last()), s.last());
    }
}

/// What the mutator leaves does not depend on the time it would stamp a new
/// condition with, where the list already holds the type.
pub proof fn lemma_upserted_present(s: Seq<ConditionView>, t: Seq<char>, at: Time, other: Time)
    requires
        first_index(canonical(s), t) is Some,
    ensures
        upserted(s, t, at) == canonical(s),
        upserted(s, t, other) == canonical(s),
{
    lemma_canonical_sorted(s);
    assert(s.push(unknown_view(t, at)).drop_last() =~= s);
    assert(s.push(unknown_view(t, other)).drop_last() =~= s);
    lemma_insert_unique_sorted(canonical(s), unknown_view(t, at));
    lemma_insert_unique_sorted(canonical(s), unknown_view(t, other));
}

/// Where the list does not hold the type, the mutator's condition for it is
/// the new "Unknown" one.
pub proof fn lemma_upserted_absent(s: Seq<ConditionView>, t: Seq<char>, at: Time)
    requires
        first_index(canonical(s), t) is None,
    ensures
        first_index(upserted(s, t, at), t) is Some,
        upserted(s, t, at)[first_index(upserted(s, t, at), t)->0] == unknown_view(t, at),
{
    lemma_canonical_sorted(s);
    assert(s.push(unknown_view(t, at)).drop_last() =~= s);
    lemma_insert_unique_sorted(canonical(s), unknown_view(t, at));
}

/// The first condition of type `t`, if there is one.
pub open spec fn lookup(s: Seq<ConditionView>, t: Seq<char>) -> Option<ConditionView> {
    match first_index(s, t) {
        Some(i) => Some(s[i]),
        None => None,
    }
}

/// What looking up `t` gives after `c` is added behind `s`.
pub open spec fn lookup_behind(s: Seq<ConditionView>, c: ConditionView, t: Seq<char>) -> Option<ConditionView> {
    if lookup(s, t) is Some {
        lookup(s, t)
    } else if c.type_ == t {
        Some(c)
    } else {
        None
    }
}

proof fn lemma_lookup_cons(a: ConditionView, s: Seq<ConditionView>, t: Seq<char>)
    ensures
        lookup(seq![a] + s, t) == if a.type_ == t { Some(a) } else { lookup(s, t) },
{
    let r = seq![a] + s;
    assert(r.drop_first() =~= s);
    assert(r[0] == a);
    if a.type_ != t {
        if let Some(i) = first_index(s, t) {
            lemma_first_index_found(s, t);
            assert(r[i + 1] == s[i]);
        }
    }
}

pub proof fn lemma_lookup_push(s: Seq<ConditionView>, c: ConditionView, t: Seq<char>)
    ensures
        lookup(s.push(c), t) == lookup_behind(s, c, t),
    decreases s.len(),
{
    if s.len() == 0 {
        assert(s.push(c) =~= seq![c] + s);
        lemma_lookup_cons(c, s, t);
    } else {
        let rest = s.drop_first();
        assert(s =~= seq![s[0]] + rest);
        assert(s.push(c) =~= seq![s[0]] + rest.push(c));
        lemma_lookup_cons(s[0], rest, t);
        lemma_lookup_cons(s[0], rest.push(c), t);
        lemma_lookup_push(rest, c, t);
    }
}

proof fn lemma_lookup_insert_unique(u: Seq<ConditionView>, c: ConditionView, t: Seq<char>)
    requires
        strictly_sorted(u),
    ensures
        lookup(insert_unique(u, c), t) == lookup_behind(u, c, t),
    decreases u.len(),
{
    lemma_insert_unique_sorted(u, c);
    if u.len() == 0 {
        lemma_lookup_cons(c, u, t);
        assert(seq![c] + u =~= seq![c]);
    } else if u[0].type_ == c.type_ {
        if t == c.type_ {
            assert(first_index(u, t) == Some(0int));
        }
    } else if name_lt(c.type_, u[0].type_) {
        lemma_lookup_cons(c, u, t);
        if first_index(u, c.type_) is Some {
            assert(insert_unique(u, c).len() == u.len() + 1);
        }
    } else {
        let rest = u.drop_first();
        lemma_sorted_cons(u[0], rest);
        assert(u =~= seq![u[0]] + rest);
        lemma_lookup_insert_unique(rest, c, t);
        lemma_lookup_cons(u[0], rest, t);
        lemma_lookup_cons(u[0], insert_unique(rest, c), t);
    }
}

/// Looking a type up in the canonical form finds what looking it up in the
/// original sequence finds.
pub proof fn lemma_lookup_canonical(s: Seq<ConditionView>, t: Seq<char>)
    ensures
        lookup(canonical(s), t) == lookup(s, t),
    decreases s.len(),
{
    if s.len() > 0 {
        let init = s.drop_last();
        lemma_lookup_canonical(init, t);
        lemma_canonical_sorted(init);
        lemma_lookup_insert_unique(canonical(init), s.last(), t);
        lemma_lookup_push(init, s.last(), t);
        assert(init.push(s.last()) =~= s);
    }
}

/// A resource that carries a list of status conditions.
pub trait HasStatusConditions {
    /// Returns the condition of type `t`, or one with status "Unknown" where
    /// there is none; the list is not changed.
    fn condition(&self, t: &str) -> Condition;

    /// Adds a condition of type `t` with status "Unknown" where there is none,
    /// then returns that condition to be changed in place.
    fn condition_mut(&mut self, t: &str) -> &mut Condition;
}

impl HasStatusConditions for Vec<Condition> {
    fn condition(&self, t: &str) -> (r: Condition)
        ensures
            r@ == condition_or_unknown(views(self@), t@, r.last_transition_time),
    {
        condition(self, t)
    }

    fn condition_mut(&mut self, t: &str) -> (r: &mut Condition)
        ensures
            ({
                let n = upserted(views(old(self)@), t@, r.last_transition_time);
                &&& first_index(n, t@) is Some
                &&& final(self)@.len() == n.len()
                &&& r@ == n[first_index(n, t@)->0]
                &&& views(final(self)@) == n.update(first_index(n, t@)->0, final(r)@)
            }),
    {
        let at = now();
        proof {
            let s = views(self@);
            if first_index(canonical(s), t@) is Some {
                lemma_upserted_present(s, t@, at, at);
            } else {
                lemma_upserted_absent(s, t@, at);
            }
        }
        let r = condition_mut_at(self, t, at);
        proof {
            let s = views(old(self)@);
            if first_index(canonical(s), t@) is Some {
                lemma_upserted_present(s, t@, at, r.last_transition_time);
            }
        }
        r
    }
}

} // verus!
