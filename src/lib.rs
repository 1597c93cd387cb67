//! Status conditions of managed resources: a keyed, ordered list of named
//! status records whose transition time moves only on a real change.

pub mod condition;
pub mod laws;
pub mod list;
pub mod order;
pub mod time;

pub use condition::{
    generate_unknown_condition, update_condition, update_condition_at, Condition, ConditionChange,
    ConditionExt, ConditionStatus,
};
pub use list::{condition, condition_at, condition_mut_at, find_index, HasStatusConditions};
pub use time::Time;
