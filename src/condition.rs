//! A single status condition and the change-detecting update that every
//! setter goes through.

use vstd::prelude::*;
use crate::order::same_text;
use crate::time::{now, Time};

verus! {

/// The three states a condition's status can be in.
#[derive(Clone, Copy, Debug, PartialEq, Eq, Structural)]
pub enum ConditionStatus {
    True,
    False,
    Unknown,
}

impl ConditionStatus {
    /// The wire form of the status.
    pub open spec fn text(self) -> Seq<char> {
        match self {
            ConditionStatus::True => "True"@,
            ConditionStatus::False => "False"@,
            ConditionStatus::Unknown => "Unknown"@,
        }
    }

    /// The status whose wire form is `s`, if any.
    pub open spec fn parse_spec(s: Seq<char>) -> Option<ConditionStatus> {
        if s == ConditionStatus::True.text() {
            Some(ConditionStatus::True)
        } else if s == ConditionStatus::False.text() {
            Some(ConditionStatus::False)
        } else if s == ConditionStatus::Unknown.text() {
            Some(ConditionStatus::Unknown)
        } else {
            None
        }
    }

    /// Returns the wire form of the status.
    pub fn as_str(&self) -> (r: &'static str)
        ensures
            r@ == self.text(),
    {
        match self {
            ConditionStatus::True => "True",
            ConditionStatus::False => "False",
            ConditionStatus::Unknown => "Unknown",
        }
    }

    /// Reads a wire form; anything but the three canonical strings is refused.
    pub fn parse(s: &str) -> (r: Option<ConditionStatus>)
        ensures
            r == ConditionStatus::parse_spec(s@),
    {
        if same_text(s, "True") {
            Some(ConditionStatus::True)
        } else if same_text(s, "False") {
            Some(ConditionStatus::False)
        } else if same_text(s, "Unknown") {
            Some(ConditionStatus::Unknown)
        } else {
            None
        }
    }
}

/// A named, timestamped status record of a resource.
///
/// `status` holds the wire form; this library only ever writes one of the
/// three forms of [`ConditionStatus`], and reads any other as none of them.
#[derive(Debug)]
pub struct Condition {
    pub type_: String,
    pub status: String,
    pub reason: String,
    pub message: String,
    pub observed_generation: Option<i64>,
    pub last_transition_time: Time,
}

/// What a condition holds, as mathematical values.
pub struct ConditionView {
    pub type_: Seq<char>,
    pub status: Seq<char>,
    pub reason: Seq<char>,
    pub message: Seq<char>,
    pub observed_generation: Option<i64>,
    pub last_transition_time: Time,
}

impl View for Condition {
    type V = ConditionView;

    open spec fn view(&self) -> ConditionView {
        ConditionView {
            type_: self.type_@,
            status: self.status@,
            reason: self.reason@,
            message: self.message@,
            observed_generation: self.observed_generation,
            last_transition_time: self.last_transition_time,
        }
    }
}

impl Clone for Condition {
    fn clone(&self) -> (r: Self)
        ensures
            r == *self,
    {
        Condition {
            type_: self.type_.clone(),
            status: self.status.clone(),
            reason: self.reason.clone(),
            message: self.message.clone(),
            observed_generation: self.observed_generation,
            last_transition_time: self.last_transition_time,
        }
    }
}

/// The condition that stands for a type name nobody has set yet.
pub open spec fn unknown_view(type_: Seq<char>, at: Time) -> ConditionView {
    ConditionView {
        type_: type_,
        status: ConditionStatus::Unknown.text(),
        reason: Seq::empty(),
        message: Seq::empty(),
        observed_generation: None,
        last_transition_time: at,
    }
}

/// Whether two conditions agree on the four fields that make up their state:
/// observed generation, reason, status and message.
pub open spec fn same_state(a: ConditionView, b: ConditionView) -> bool {
    &&& a.observed_generation == b.observed_generation
    &&& a.reason == b.reason
    &&& a.status == b.status
    &&& a.message == b.message
}

/// A change to one field of a condition's state.
#[derive(Debug)]
pub enum ConditionChange {
    Status(ConditionStatus),
    Reason(String),
    Message(String),
    ObservedGeneration(Option<i64>),
}

impl ConditionChange {
    /// `c` with the change made and nothing else touched.
    pub open spec fn applied_to(self, c: ConditionView) -> ConditionView {
        match self {
            ConditionChange::Status(s) => ConditionView { status: s.text(), ..c },
            ConditionChange::Reason(r) => ConditionView { reason: r@, ..c },
            ConditionChange::Message(m) => ConditionView { message: m@, ..c },
            ConditionChange::ObservedGeneration(g) => ConditionView { observed_generation: g, ..c },
        }
    }
}

/// The result of the change-detecting update: `c` itself, transition time
/// included, when the change leaves its state as it was; otherwise `c` with
/// the change made and its transition time set to `at`.
pub open spec fn updated(c: ConditionView, change: ConditionChange, at: Time) -> ConditionView {
    let n = change.applied_to(c);
    if same_state(n, c) {
        c
    } else {
        ConditionView { last_transition_time: at, ..n }
    }
}

impl Condition {
    /// A condition of the given type with status "Unknown", empty reason and
    /// message, no observed generation, and transition time `at`.
    pub fn unknown(type_: &str, at: Time) -> (r: Condition)
        ensures
            r@ == unknown_view(type_@, at),
    {
        Condition {
            type_: type_.to_owned(),
            status: ConditionStatus::Unknown.as_str().to_owned(),
            reason: String::new(),
            message: String::new(),
            observed_generation: None,
            last_transition_time: at,
        }
    }

    /// The status, if its wire form is one of the three canonical ones.
    pub fn status_value(&self) -> (r: Option<ConditionStatus>)
        ensures
            r == ConditionStatus::parse_spec(self.status@),
    {
        ConditionStatus::parse(self.status.as_str())
    }

    /// Makes `change`, leaving every other field, the transition time
    /// included, as it was.
    pub fn apply(&mut self, change: ConditionChange)
        ensures
            final(self)@ == change.applied_to(old(self)@),
    {
        match change {
            ConditionChange::Status(s) => self.status = s.as_str().to_owned(),
            ConditionChange::Reason(r) => self.reason = r,
            ConditionChange::Message(m) => self.message = m,
            ConditionChange::ObservedGeneration(g) => self.observed_generation = g,
        }
    }

    /// Whether `self` and `other` agree on observed generation, reason,
    /// status and message.
    pub fn same_state_as(&self, other: &Condition) -> (r: bool)
        ensures
            r == same_state(self@, other@),
    {
        let same_generation = match (self.observed_generation, other.observed_generation) {
            (Some(a), Some(b)) => a == b,
            (None, None) => true,
            _ => false,
        };
        same_generation && same_text(self.reason.as_str(), other.reason.as_str()) && same_text(
            self.status.as_str(),
            other.status.as_str(),
        ) && same_text(self.message.as_str(), other.message.as_str())
    }
}

/// Generates a condition of the given type with status "Unknown", stamped
/// with the current time.
pub fn generate_unknown_condition(type_: &str) -> (r: Condition)
    ensures
        r@ == unknown_view(type_@, r.last_transition_time),
{
    Condition::unknown(type_, now())
}

/// The change-detecting update: makes `change` on a copy, and only where the
/// copy's state differs from the condition's takes the copy, stamped `at`.
pub fn update_condition_at(condition: &mut Condition, change: ConditionChange, at: Time)
    ensures
        final(condition)@ == updated(old(condition)@, change, at),
{
    let ghost change_spec = change;
    let mut candidate = condition.clone();
    candidate.apply(change);
    if !candidate.same_state_as(condition) {
        candidate.last_transition_time = at;
        *condition = candidate;
    }
    proof {
        assert(final(condition)@ == updated(old(condition)@, change_spec, at));
    }
}

/// The change-detecting update, stamping a change with the current time.
pub fn update_condition(condition: &mut Condition, change: ConditionChange)
    ensures
        final(condition)@ == updated(old(condition)@, change, final(condition).last_transition_time),
{
    update_condition_at(condition, change, now());
}

/// Reading and changing a condition; every setter goes through the
/// change-detecting update, so the transition time moves only when the
/// condition's state does.
pub trait ConditionExt {
    /// Whether the status is "True".
    fn is_true(&self) -> bool;

    /// Whether the status is "False".
    fn is_false(&self) -> bool;

    /// Whether the status is "Unknown".
    fn is_unknown(&self) -> bool;

    /// Whether the reason is `reason`.
    fn has_reason(&self, reason: &str) -> bool;

    /// Whether the condition was observed at `generation`, the resource's
    /// current one.
    fn is_current(&self, generation: Option<i64>) -> bool;

    /// Sets the status to "True".
    fn set_true(&mut self);

    /// Sets the status to "False".
    fn set_false(&mut self);

    /// Sets the status to "Unknown".
    fn set_unknown(&mut self);

    /// Sets the reason.
    fn set_reason(&mut self, reason: &str);

    /// Sets the message.
    fn set_message(&mut self, message: &str);

    /// Sets the observed generation to `generation`, the resource's current one.
    fn set_generation_from(&mut self, generation: Option<i64>);
}

impl ConditionExt for Condition {
    fn is_true(&self) -> (r: bool)
        ensures
            r == (self.status@ == ConditionStatus::True.text()),
    {
        same_text(self.status.as_str(), ConditionStatus::True.as_str())
    }

    fn is_false(&self) -> (r: bool)
        ensures
            r == (self.status@ == ConditionStatus::False.text()),
    {
        same_text(self.status.as_str(), ConditionStatus::False.as_str())
    }

    fn is_unknown(&self) -> (r: bool)
        ensures
            r == (self.status@ == ConditionStatus::Unknown.text()),
    {
        same_text(self.status.as_str(), ConditionStatus::Unknown.as_str())
    }

    fn has_reason(&self, reason: &str) -> (r: bool)
        ensures
            r == (self.reason@ == reason@),
    {
        same_text(self.reason.as_str(), reason)
    }

    fn is_current(&self, generation: Option<i64>) -> (r: bool)
        ensures
            r == (self.observed_generation == generation),
    {
        match (self.observed_generation, generation) {
            (Some(a), Some(b)) => a == b,
            (None, None) => true,
            _ => false,
        }
    }

    fn set_true(&mut self)
        ensures
            final(self)@ == updated(
                old(self)@,
                ConditionChange::Status(ConditionStatus::True),
                final(self).last_transition_time,
            ),
    {
        update_condition(self, ConditionChange::Status(ConditionStatus::True));
    }

    fn set_false(&mut self)
        ensures
            final(self)@ == updated(
                old(self)@,
                ConditionChange::Status(ConditionStatus::False),
                final(self).last_transition_time,
            ),
    {
        update_condition(self, ConditionChange::Status(ConditionStatus::False));
    }

    fn set_unknown(&mut self)
        ensures
            final(self)@ == updated(
                old(self)@,
                ConditionChange::Status(ConditionStatus::Unknown),
                final(self).last_transition_time,
            ),
    {
        update_condition(self, ConditionChange::Status(ConditionStatus::Unknown));
    }

    fn set_reason(&mut self, reason: &str)
        ensures
            final(self)@.reason == reason@,
            same_state(old(self)@, final(self)@) ==> final(self)@ == old(self)@,
            final(self)@ == (ConditionView { reason: reason@, last_transition_time: final(self).last_transition_time, ..old(self)@ }),
    {
        update_condition(self, ConditionChange::Reason(reason.to_owned()));
    }

    fn set_message(&mut self, message: &str)
        ensures
            final(self)@.message == message@,
            same_state(old(self)@, final(self)@) ==> final(self)@ == old(self)@,
            final(self)@ == (ConditionView { message: message@, last_transition_time: final(self).last_transition_time, ..old(self)@ }),
    {
        update_condition(self, ConditionChange::Message(message.to_owned()));
    }

    fn set_generation_from(&mut self, generation: Option<i64>)
        ensures
            final(self).observed_generation == generation,
            same_state(old(self)@, final(self)@) ==> final(self)@ == old(self)@,
            final(self)@ == (ConditionView { observed_generation: generation, last_transition_time: final(self).last_transition_time, ..old(self)@ }),
    {
        update_condition(self, ConditionChange::ObservedGeneration(generation));
    }
}

} // verus!
