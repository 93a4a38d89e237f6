//! Component groups: only one component of a group may exist on a given entity.
//!
//! Each member type of a group carries two hooks. When a member is inserted, its insert
//! hook removes the member that the entity's group marker names (if any) and records the
//! inserted member in the marker. When a member is removed, its remove hook removes the
//! marker. The hooks only decide; the world carries out the commands they return, in order,
//! and a removal runs the removed member's own remove hook before the next command.
//!
//! The rule holds when members are inserted one insertion at a time, each insertion's
//! commands carried out before the next one. It does not hold for a bundle that inserts
//! several members of the group at once: every member's hook then reads the marker as it
//! was before the bundle, so the entity keeps all the members of the bundle
//! (`lemma_insert_bundle`, `lemma_bundle_keeps_every_member`).
//!
//! Components are named by the index of their component id.
use vstd::prelude::*;

verus! {

/// A command that a group hook asks the world to carry out on the hook's entity.
#[derive(Clone, Copy, PartialEq, Eq, Structural, Debug)]
pub enum GroupCommand {
    /// Remove the component with this id from the entity.
    RemoveComponent(usize),
    /// Insert the group marker, naming this component as the group's current member.
    InsertMarker(usize),
    /// Remove the group marker.
    RemoveMarker,
}

/// The commands of the insert hook, when the marker names `current` and the inserted
/// component is `inserted`.
pub open spec fn insert_hook_commands(current: Option<usize>, inserted: usize) -> Seq<
    GroupCommand,
> {
    match current {
        Some(c) => seq![GroupCommand::RemoveComponent(c), GroupCommand::InsertMarker(inserted)],
        None => seq![GroupCommand::InsertMarker(inserted)],
    }
}

/// The commands of the remove hook.
pub open spec fn remove_hook_commands() -> Seq<GroupCommand> {
    seq![GroupCommand::RemoveMarker]
}

/// The insert hook: removes the current member, if the marker names one, then records the
/// inserted component as the current member.
pub fn component_group_on_insert(current: Option<usize>, inserted: usize) -> (cmds: Vec<
    GroupCommand,
>)
    ensures
        cmds@ == insert_hook_commands(current, inserted),
{
    let mut cmds: Vec<GroupCommand> = Vec::new();
    if let Some(c) = current {
        cmds.push(GroupCommand::RemoveComponent(c));
    }
    cmds.push(GroupCommand::InsertMarker(inserted));
    proof {
        match current {
            Some(c) => {
                assert(cmds@ =~= insert_hook_commands(current, inserted));
            },
            None => {
                assert(cmds@ =~= insert_hook_commands(current, inserted));
            },
        }
    }
    cmds
}

/// The remove hook: removes the group marker.
pub fn component_group_on_remove() -> (cmds: Vec<GroupCommand>)
    ensures
        cmds@ == remove_hook_commands(),
{
    let mut cmds: Vec<GroupCommand> = Vec::new();
    cmds.push(GroupCommand::RemoveMarker);
    assert(cmds@ =~= remove_hook_commands());
    cmds
}

/// What an entity holds of one group: the member components it has, and the marker.
pub struct GroupState {
    pub members: Set<usize>,
    pub marker: Option<usize>,
}

/// The effect of a command that does not touch the members.
pub open spec fn marker_effect(st: GroupState, cmd: GroupCommand) -> GroupState {
    match cmd {
        GroupCommand::InsertMarker(id) => GroupState { members: st.members, marker: Some(id) },
        GroupCommand::RemoveMarker => GroupState { members: st.members, marker: None },
        GroupCommand::RemoveComponent(_) => st,
    }
}

/// The effect of the marker commands in `cmds`, in order.
pub open spec fn run_marker_commands(st: GroupState, cmds: Seq<GroupCommand>) -> GroupState
    decreases cmds.len(),
{
    if cmds.len() == 0 {
        st
    } else {
        marker_effect(run_marker_commands(st, cmds.drop_last()), cmds.last())
    }
}

/// Removing member `id`: a member that the entity has goes, and its remove hook runs.
pub open spec fn remove_member(st: GroupState, id: usize) -> GroupState {
    if st.members.contains(id) {
        run_marker_commands(
            GroupState { members: st.members.remove(id), marker: st.marker },
            remove_hook_commands(),
        )
    } else {
        st
    }
}

/// The effect of one command.
pub open spec fn command_effect(st: GroupState, cmd: GroupCommand) -> GroupState {
    match cmd {
        GroupCommand::RemoveComponent(id) => remove_member(st, id),
        _ => marker_effect(st, cmd),
    }
}

/// The effect of the commands in `cmds`, in order.
pub open spec fn run_commands(st: GroupState, cmds: Seq<GroupCommand>) -> GroupState
    decreases cmds.len(),
{
    if cmds.len() == 0 {
        st
    } else {
        command_effect(run_commands(st, cmds.drop_last()), cmds.last())
    }
}

/// Inserting member `c` on its own: the component is added, then its insert hook runs.
pub open spec fn insert_member(st: GroupState, c: usize) -> GroupState {
    run_commands(
        GroupState { members: st.members.insert(c), marker: st.marker },
        insert_hook_commands(st.marker, c),
    )
}

pub proof fn lemma_run_commands_one(st: GroupState, a: GroupCommand)
    ensures
        run_commands(st, seq![a]) == command_effect(st, a),
{
    assert(seq![a].drop_last() =~= Seq::<GroupCommand>::empty());
    assert(run_commands(st, Seq::<GroupCommand>::empty()) == st);
}

pub proof fn lemma_run_commands_two(st: GroupState, a: GroupCommand, b: GroupCommand)
    ensures
        run_commands(st, seq![a, b]) == command_effect(command_effect(st, a), b),
{
    assert(seq![a, b].drop_last() =~= seq![a]);
    lemma_run_commands_one(st, a);
}

/// The remove hook, run on its own, takes the marker away.
pub proof fn lemma_remove_hook_effect(st: GroupState)
    ensures
        run_marker_commands(st, remove_hook_commands()) == (GroupState {
            members: st.members,
            marker: None,
        }),
{
    assert(remove_hook_commands().drop_last() =~= Seq::<GroupCommand>::empty());
    assert(run_marker_commands(st, Seq::<GroupCommand>::empty()) == st);
}

/// Every member the entity has is the one the marker names: the entity has at most one
/// member of the group.
pub open spec fn group_consistent(st: GroupState) -> bool {
    forall|x: usize| #[trigger] st.members.contains(x) ==> st.marker == Some(x)
}

/// An entity with a member of a group holds no other member of it.
pub proof fn lemma_consistent_single_member(st: GroupState, x: usize, y: usize)
    requires
        group_consistent(st),
        st.members.contains(x),
        st.members.contains(y),
    ensures
        x == y,
{
}

/// A new entity, spawned with member `c`, holds exactly `c`, and the marker names it.
pub proof fn lemma_spawn_with_member(c: usize)
    ensures
        insert_member(GroupState { members: Set::empty(), marker: None }, c) == (GroupState {
            members: set![c],
            marker: Some(c),
        }),
{
    let st1 = GroupState { members: Set::<usize>::empty().insert(c), marker: None };
    lemma_run_commands_one(st1, GroupCommand::InsertMarker(c));
    assert(Set::<usize>::empty().insert(c) =~= set![c]);
}

/// Inserting, on its own, a member other than the current one leaves the entity with
/// exactly that member: the previous member is gone, and the marker names the new one.
pub proof fn lemma_insert_replaces_member(st: GroupState, c: usize)
    requires
        group_consistent(st),
        st.marker != Some(c),
    ensures
        insert_member(st, c).members == set![c],
        insert_member(st, c).marker == Some(c),
{
    let st1 = GroupState { members: st.members.insert(c), marker: st.marker };
    match st.marker {
        None => {
            lemma_run_commands_one(st1, GroupCommand::InsertMarker(c));
            assert(st.members.insert(c) =~= set![c]) by {
                assert forall|x: usize| st.members.insert(c).contains(x) implies x == c by {
                    if x != c {
                        assert(st.members.contains(x));
                    }
                }
            }
        },
        Some(m) => {
            lemma_run_commands_two(
                st1,
                GroupCommand::RemoveComponent(m),
                GroupCommand::InsertMarker(c),
            );
            let removed = GroupState { members: st1.members.remove(m), marker: st1.marker };
            lemma_remove_hook_effect(removed);
            assert(st1.members.remove(m) =~= set![c]) by {
                assert forall|x: usize| st1.members.remove(m).contains(x) implies x == c by {
                    if x != c {
                        assert(st.members.contains(x));
                    }
                }
            }
            if !st.members.contains(m) {
                assert(st1.members =~= set![c]) by {
                    assert forall|x: usize| st1.members.contains(x) implies x == c by {
                        if x != c {
                            assert(st.members.contains(x));
                        }
                    }
                }
            }
        },
    }
}

/// Inserting a member on its own keeps the entity consistent: it still holds at most one
/// member.
pub proof fn lemma_insert_keeps_consistent(st: GroupState, c: usize)
    requires
        group_consistent(st),
    ensures
        group_consistent(insert_member(st, c)),
{
    if st.marker != Some(c) {
        lemma_insert_replaces_member(st, c);
    } else {
        let st1 = GroupState { members: st.members.insert(c), marker: st.marker };
        lemma_run_commands_two(st1, GroupCommand::RemoveComponent(c), GroupCommand::InsertMarker(c));
        let removed = GroupState { members: st1.members.remove(c), marker: st1.marker };
        lemma_remove_hook_effect(removed);
        let after = insert_member(st, c);
        assert(after.members == st1.members.remove(c));
        assert forall|x: usize| #[trigger] after.members.contains(x) implies after.marker == Some(
            x,
        ) by {
            assert(st.members.contains(x));
            assert(st.marker == Some(x));
        }
    }
}

/// Removing a member leaves the entity with no member of the group and no marker, and keeps
/// it consistent.
pub proof fn lemma_remove_clears_group(st: GroupState, c: usize)
    requires
        group_consistent(st),
        st.members.contains(c),
    ensures
        remove_member(st, c).members.is_empty(),
        remove_member(st, c).marker is None,
        group_consistent(remove_member(st, c)),
{
    lemma_remove_hook_effect(GroupState { members: st.members.remove(c), marker: st.marker });
    assert(st.members.remove(c) =~= Set::<usize>::empty()) by {
        assert forall|x: usize| st.members.remove(c).contains(x) implies false by {
            assert(st.marker == Some(x));
            assert(st.marker == Some(c));
        }
    }
}

/// The commands of the insert hooks of the members `cs` of one bundle, in the order the
/// hooks run, when the marker names `marker` before the bundle is inserted.
pub open spec fn bundle_hook_commands(marker: Option<usize>, cs: Seq<usize>) -> Seq<GroupCommand>
    decreases cs.len(),
{
    if cs.len() == 0 {
        Seq::empty()
    } else {
        bundle_hook_commands(marker, cs.drop_last()) + insert_hook_commands(marker, cs.last())
    }
}

/// Inserting a bundle that holds the members `cs`: all of them are added, their insert hooks
/// run, each reading the marker as it was before the bundle, and then the world carries out
/// the hooks' commands in order.
pub open spec fn insert_bundle(st: GroupState, cs: Seq<usize>) -> GroupState {
    run_commands(
        GroupState { members: st.members + cs.to_set(), marker: st.marker },
        bundle_hook_commands(st.marker, cs),
    )
}

pub proof fn lemma_run_commands_append(st: GroupState, a: Seq<GroupCommand>, b: Seq<GroupCommand>)
    ensures
        run_commands(st, a + b) == run_commands(run_commands(st, a), b),
    decreases b.len(),
{
    if b.len() == 0 {
        assert(a + b =~= a);
    } else {
        assert((a + b).drop_last() =~= a + b.drop_last());
        assert((a + b).last() == b.last());
        lemma_run_commands_append(st, a, b.drop_last());
    }
}

/// After the hooks of the first `k` members of a bundle have been carried out, the previous
/// member is gone, the others stay, and the marker names the `k`-th member.
proof fn lemma_bundle_prefix(st: GroupState, cs: Seq<usize>, k: int)
    requires
        1 <= k <= cs.len(),
    ensures
        ({
            let start = GroupState { members: st.members + cs.to_set(), marker: st.marker };
            let after = run_commands(start, bundle_hook_commands(st.marker, cs.take(k)));
            &&& after.marker == Some(cs[k - 1])
            &&& after.members == match st.marker {
                Some(m) => start.members.remove(m),
                None => start.members,
            }
        }),
    decreases k,
{
    let start = GroupState { members: st.members + cs.to_set(), marker: st.marker };
    let c = cs[k - 1];
    assert(cs.take(k).drop_last() =~= cs.take(k - 1));
    assert(cs.take(k).last() == c);
    lemma_run_commands_append(
        start,
        bundle_hook_commands(st.marker, cs.take(k - 1)),
        insert_hook_commands(st.marker, c),
    );
    let before = run_commands(start, bundle_hook_commands(st.marker, cs.take(k - 1)));
    if k == 1 {
        assert(cs.take(0).len() == 0);
        assert(before == start);
    } else {
        lemma_bundle_prefix(st, cs, k - 1);
    }
    match st.marker {
        None => {
            lemma_run_commands_one(before, GroupCommand::InsertMarker(c));
        },
        Some(m) => {
            lemma_run_commands_two(
                before,
                GroupCommand::RemoveComponent(m),
                GroupCommand::InsertMarker(c),
            );
            if before.members.contains(m) {
                lemma_remove_hook_effect(
                    GroupState { members: before.members.remove(m), marker: before.marker },
                );
                assert(before.members.remove(m) =~= start.members.remove(m));
            } else {
                assert(before.members =~= start.members.remove(m));
            }
        },
    }
}

/// Inserting a bundle of members, none of them the current one, leaves the entity with
/// exactly the members of the bundle; the marker names the member whose hook ran last.
pub proof fn lemma_insert_bundle(st: GroupState, cs: Seq<usize>)
    requires
        group_consistent(st),
        cs.len() > 0,
        st.marker matches Some(m) ==> !cs.contains(m),
    ensures
        insert_bundle(st, cs).members == cs.to_set(),
        insert_bundle(st, cs).marker == Some(cs.last()),
{
    lemma_bundle_prefix(st, cs, cs.len() as int);
    assert(cs.take(cs.len() as int) =~= cs);
    let start = GroupState { members: st.members + cs.to_set(), marker: st.marker };
    match st.marker {
        Some(m) => {
            assert(start.members.remove(m) =~= cs.to_set()) by {
                assert forall|x: usize| start.members.remove(m).contains(x) implies cs.to_set().contains(x) by {
                    if st.members.contains(x) {
                        assert(st.marker == Some(x));
                    }
                }
            }
        },
        None => {
            assert(start.members =~= cs.to_set()) by {
                assert forall|x: usize| start.members.contains(x) implies cs.to_set().contains(x) by {
                    if st.members.contains(x) {
                        assert(st.marker == Some(x));
                    }
                }
            }
        },
    }
}

/// A bundle that inserts two different members of a group leaves both on the entity: the
/// one-member rule does not cover bundles.
pub proof fn lemma_bundle_keeps_every_member(c: usize, d: usize)
    requires
        c != d,
    ensures
        insert_bundle(GroupState { members: Set::empty(), marker: None }, seq![c, d]).members
            == set![c, d],
        !group_consistent(insert_bundle(GroupState { members: Set::empty(), marker: None }, seq![c, d])),
{
    let st = GroupState { members: Set::<usize>::empty(), marker: None };
    lemma_insert_bundle(st, seq![c, d]);
    assert(seq![c, d].to_set() =~= set![c, d]) by {
        assert(seq![c, d][0] == c);
        assert(seq![c, d][1] == d);
    }
    let after = insert_bundle(st, seq![c, d]);
    assert(after.members.contains(c));
}

} // verus!
