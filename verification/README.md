# game_utils

Small building blocks for games made with Bevy, with their rules proved in Verus.

- `src/escape.rs`: how text is escaped inside a string literal.
- `src/tokens.rs`: token trees as attribute macros see them, and their mathematical view.
- `src/group_attr.rs`: the expansion of `#[group(Group)]`, which adds a component group's
  insert and remove hooks to a component type.
- `src/computed_attr.rs`: the expansion of `#[computed(Source)]`, which turns an enum whose
  variants carry `#[pat(...)]` patterns into a computed state.
- `src/component_group.rs`: the commands of the group hooks, and the proofs that an entity
  keeps at most one member of a group when members are inserted one at a time (a bundle
  of several members keeps them all).
- `src/severity.rs`: errors with a severity, for results and missing values.
- `src/random_timer.rs`: when a random timer draws a new duration.

`app/` holds the engine side: the plugin that exits on a key, the hooks as Bevy component
hooks, the float maths (smoothing, damping, springs), the random timer itself, the result
extension trait over Bevy's errors, and the conversion between compiler token streams and
the library's token trees.
