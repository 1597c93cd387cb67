use std::cmp::Ordering;
use std::fmt;

use kube_observe::order::compare_names;
use kube_observe::{
    condition, condition_at, condition_mut_at, find_index, generate_unknown_condition,
    update_condition_at, Condition, ConditionChange, ConditionExt, ConditionStatus,
    HasStatusConditions, Time,
};

struct Dummy {
    generation: Option<i64>,
    conditions: Vec<Condition>,
}

impl Dummy {
    fn new() -> Dummy {
        Dummy { generation: Some(1), conditions: Vec::new() }
    }
}

impl HasStatusConditions for Dummy {
    fn condition(&self, t: &str) -> Condition {
        self.conditions.condition(t)
    }

    fn condition_mut(&mut self, t: &str) -> &mut Condition {
        self.conditions.condition_mut(t)
    }
}

enum ReadyReasons {
    Yoyo,
}

impl fmt::Display for ReadyReasons {
    fn fmt(&self, f: &mut fmt::Formatter<'_>) -> fmt::Result {
        match self {
            ReadyReasons::Yoyo => f.write_str("Yoyo"),
        }
    }
}

fn at(n: i128) -> Time {
    Time { nanosecond: n }
}

fn types(list: &[Condition]) -> Vec<String> {
    list.iter().map(|c| c.type_.clone()).collect()
}

#[test]
fn string_to_str() {
    let mut dummy = Dummy::new();
    dummy.condition_mut("Ready").set_reason(&"Yoyo".to_string());
    assert!(dummy.condition("Ready").has_reason("Yoyo"));
}

#[test]
fn string_to_string() {
    let mut dummy = Dummy::new();
    dummy.condition_mut("Ready").set_reason(&"Yoyo".to_string());
    assert!(dummy.condition("Ready").has_reason(&"Yoyo".to_string()));
}

#[test]
fn str_to_str() {
    let mut dummy = Dummy::new();
    dummy.condition_mut("Ready").set_reason("Yoyo");
    assert!(dummy.condition("Ready").has_reason("Yoyo"));
}

#[test]
fn enum_to_str() {
    let mut dummy = Dummy::new();
    dummy.condition_mut("Ready").set_reason(&ReadyReasons::Yoyo.to_string());
    assert!(dummy.condition("Ready").has_reason("Yoyo"));
}

#[test]
fn enum_to_string() {
    let mut dummy = Dummy::new();
    dummy.condition_mut("Ready").set_reason(&ReadyReasons::Yoyo.to_string());
    assert!(dummy.condition("Ready").has_reason(&"Yoyo".to_string()));
}

#[test]
fn upsert_twice_leaves_one() {
    let mut list: Vec<Condition> = Vec::new();
    list.condition_mut("Ready");
    list.condition_mut("Ready");
    assert_eq!(list.len(), 1);
    assert_eq!(list[0].type_, "Ready");
}

#[test]
fn same_reason_keeps_transition_time() {
    let mut c = Condition::unknown("Ready", at(10));
    update_condition_at(&mut c, ConditionChange::Reason("Yoyo".to_string()), at(20));
    assert_eq!(c.last_transition_time, at(20));
    update_condition_at(&mut c, ConditionChange::Reason("Yoyo".to_string()), at(30));
    assert_eq!(c.reason, "Yoyo");
    assert_eq!(c.last_transition_time, at(20));
    update_condition_at(&mut c, ConditionChange::Reason("Other".to_string()), at(40));
    assert_eq!(c.reason, "Other");
    assert_eq!(c.last_transition_time, at(40));
}

#[test]
fn new_reason_moves_time_forward() {
    let mut c = generate_unknown_condition("Ready");
    let before = c.last_transition_time;
    c.set_reason("Yoyo");
    assert!(c.last_transition_time.nanosecond >= before.nanosecond);
    let stamped = c.last_transition_time;
    c.set_reason("Yoyo");
    assert_eq!(c.last_transition_time, stamped);
}

#[test]
fn default_on_absence() {
    let list: Vec<Condition> = Vec::new();
    let c = condition(&list, "Ready");
    assert_eq!(c.type_, "Ready");
    assert_eq!(c.status, "Unknown");
    assert_eq!(c.reason, "");
    assert_eq!(c.message, "");
    assert_eq!(c.observed_generation, None);
    assert!(c.is_unknown());
    assert!(list.is_empty());
}

#[test]
fn default_is_stamped_with_given_time() {
    let list: Vec<Condition> = Vec::new();
    let c = condition_at(&list, "Ready", at(7));
    assert_eq!(c.last_transition_time, at(7));
    assert_eq!(c.status_value(), Some(ConditionStatus::Unknown));
}

#[test]
fn accessor_returns_first_match_untouched() {
    let mut first = Condition::unknown("Ready", at(1));
    first.reason = "A".to_string();
    let mut second = Condition::unknown("Ready", at(2));
    second.reason = "B".to_string();
    let list = vec![Condition::unknown("Progressing", at(3)), first, second];
    let c = condition_at(&list, "Ready", at(99));
    assert_eq!(c.reason, "A");
    assert_eq!(c.last_transition_time, at(1));
    assert_eq!(find_index(&list, "Ready"), Some(1));
    assert_eq!(find_index(&list, "Degraded"), None);
    assert_eq!(list.len(), 3);
}

#[test]
fn mutator_keeps_sorted_and_unique() {
    let mut list: Vec<Condition> = Vec::new();
    for t in ["Ready", "Available", "Progressing", "Ready", "Available", "Degraded"] {
        condition_mut_at(&mut list, t, at(5));
        let names = types(&list);
        let mut sorted = names.clone();
        sorted.sort();
        sorted.dedup();
        assert_eq!(names, sorted);
    }
    assert_eq!(types(&list), vec!["Available", "Degraded", "Progressing", "Ready"]);
}

#[test]
fn mutator_normalizes_unsorted_list_keeping_first() {
    let mut first = Condition::unknown("Ready", at(1));
    first.reason = "first".to_string();
    let mut later = Condition::unknown("Ready", at(2));
    later.reason = "later".to_string();
    let mut list = vec![first, Condition::unknown("Beta", at(3)), later, Condition::unknown("Alpha", at(4))];
    let c = condition_mut_at(&mut list, "Ready", at(50));
    assert_eq!(c.reason, "first");
    c.set_true();
    assert_eq!(types(&list), vec!["Alpha", "Beta", "Ready"]);
    assert!(list[2].is_true());
    assert_eq!(list[2].reason, "first");
}

#[test]
fn mutator_inserts_unknown_with_given_time() {
    let mut list = vec![Condition::unknown("Ready", at(1))];
    let c = condition_mut_at(&mut list, "Available", at(9));
    assert!(c.is_unknown());
    assert_eq!(c.last_transition_time, at(9));
    assert_eq!(types(&list), vec!["Available", "Ready"]);
    assert_eq!(list[1].last_transition_time, at(1));
}

#[test]
fn ready_yoyo_scenario() {
    let mut list: Vec<Condition> = Vec::new();
    list.condition_mut("Ready").set_reason("Yoyo");
    assert_eq!(list.condition("Ready").reason, "Yoyo");
    let stamped = list.condition("Ready").last_transition_time;
    list.condition_mut("Ready").set_reason("Yoyo");
    assert_eq!(list.condition("Ready").last_transition_time, stamped);
    let c = condition_mut_at(&mut list, "Ready", at(0));
    update_condition_at(c, ConditionChange::Reason("Other".to_string()), at(stamped.nanosecond + 1));
    let read = list.condition("Ready");
    assert_eq!(read.reason, "Other");
    assert_ne!(read.last_transition_time, stamped);
}

#[test]
fn generation_currency() {
    let mut c = Condition::unknown("Ready", at(1));
    update_condition_at(&mut c, ConditionChange::ObservedGeneration(Some(3)), at(2));
    let mut dummy = Dummy::new();
    dummy.generation = Some(4);
    assert!(!c.is_current(dummy.generation));
    c.set_generation_from(dummy.generation);
    assert!(c.is_current(dummy.generation));
    assert_eq!(c.observed_generation, Some(4));
}

#[test]
fn generation_change_alone_stamps_time() {
    let mut c = Condition::unknown("Ready", at(1));
    update_condition_at(&mut c, ConditionChange::ObservedGeneration(Some(4)), at(2));
    assert_eq!(c.last_transition_time, at(2));
    update_condition_at(&mut c, ConditionChange::ObservedGeneration(Some(4)), at(3));
    assert_eq!(c.last_transition_time, at(2));
}

#[test]
fn status_setters_and_predicates() {
    let mut c = Condition::unknown("Ready", at(1));
    assert!(c.is_unknown() && !c.is_true() && !c.is_false());
    update_condition_at(&mut c, ConditionChange::Status(ConditionStatus::True), at(2));
    assert!(c.is_true());
    assert_eq!(c.status, "True");
    assert_eq!(c.last_transition_time, at(2));
    c.set_false();
    assert!(c.is_false());
    assert_eq!(c.status, "False");
    c.set_unknown();
    assert!(c.is_unknown());
    c.set_message("waiting");
    assert_eq!(c.message, "waiting");
    assert!(!c.has_reason("waiting"));
}

#[test]
fn unrecognized_status_is_none_of_three() {
    let mut c = Condition::unknown("Ready", at(1));
    c.status = "Maybe".to_string();
    assert!(!c.is_true() && !c.is_false() && !c.is_unknown());
    assert_eq!(c.status_value(), None);
    assert_eq!(ConditionStatus::parse("True"), Some(ConditionStatus::True));
    assert_eq!(ConditionStatus::parse("false"), None);
    assert_eq!(ConditionStatus::False.as_str(), "False");
}

#[test]
fn names_order_by_bytes() {
    assert_eq!(compare_names("Progressing", "Ready"), Ordering::Less);
    assert_eq!(compare_names("Ready", "Ready"), Ordering::Equal);
    assert_eq!(compare_names("Ready", "ReadyX"), Ordering::Less);
    assert_eq!(compare_names("ready", "Ready"), Ordering::Greater);
    assert_eq!(compare_names("", ""), Ordering::Equal);
}

#[test]
fn clock_stamps_present_time() {
    let c = generate_unknown_condition("Ready");
    assert!(c.last_transition_time.nanosecond > 1_600_000_000_000_000_000);
}
