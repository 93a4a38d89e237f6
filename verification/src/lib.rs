//! Small building blocks for games made with the Bevy engine: the expansions of the
//! `#[group]` and `#[computed]` attributes, the rule that keeps one component per group on
//! an entity, severities for errors, and the rule by which random timers draw a duration.
pub mod escape;
pub mod tokens;
pub mod group_attr;
pub mod computed_attr;
pub mod component_group;
pub mod severity;
pub mod random_timer;
