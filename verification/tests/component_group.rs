use game_utils::component_group::{
    component_group_on_insert, component_group_on_remove, GroupCommand,
};

/// One entity, as far as one group goes: the members it has, and its marker. Commands run
/// in order, and removing a member runs that member's remove hook at once.
struct Entity {
    members: Vec<usize>,
    marker: Option<usize>,
}

impl Entity {
    fn new() -> Self {
        Entity { members: vec![], marker: None }
    }

    fn has(&self, c: usize) -> bool {
        self.members.contains(&c)
    }

    fn run(&mut self, cmds: Vec<GroupCommand>) {
        for cmd in cmds {
            match cmd {
                GroupCommand::RemoveComponent(c) => {
                    if self.has(c) {
                        self.members.retain(|m| *m != c);
                        self.run(component_group_on_remove());
                    }
                }
                GroupCommand::InsertMarker(c) => self.marker = Some(c),
                GroupCommand::RemoveMarker => self.marker = None,
            }
        }
    }

    fn insert(&mut self, c: usize) {
        if !self.has(c) {
            self.members.push(c);
        }
        let cmds = component_group_on_insert(self.marker, c);
        self.run(cmds);
    }

    /// A bundle: all its members are added, every hook reads the marker as it was, then the
    /// hooks' commands are carried out in order.
    fn insert_bundle(&mut self, cs: &[usize]) {
        let marker = self.marker;
        for c in cs {
            if !self.has(*c) {
                self.members.push(*c);
            }
        }
        let mut cmds = vec![];
        for c in cs {
            cmds.extend(component_group_on_insert(marker, *c));
        }
        self.run(cmds);
    }

    fn remove(&mut self, c: usize) {
        if self.has(c) {
            self.members.retain(|m| *m != c);
            self.run(component_group_on_remove());
        }
    }
}

const MY_COMPONENT: usize = 7;
const ANOTHER_COMPONENT: usize = 9;

#[test]
fn insert_hook_commands() {
    assert_eq!(component_group_on_insert(None, 4), vec![GroupCommand::InsertMarker(4)]);
    assert_eq!(
        component_group_on_insert(Some(2), 4),
        vec![GroupCommand::RemoveComponent(2), GroupCommand::InsertMarker(4)]
    );
}

#[test]
fn remove_hook_commands() {
    assert_eq!(component_group_on_remove(), vec![GroupCommand::RemoveMarker]);
}

#[test]
fn only_one_member_of_a_group_stays_on_an_entity() {
    let mut entity = Entity::new();
    entity.insert(MY_COMPONENT);
    assert!(entity.has(MY_COMPONENT));
    entity.insert(ANOTHER_COMPONENT);
    assert!(entity.has(ANOTHER_COMPONENT));
    assert!(!entity.has(MY_COMPONENT));
    entity.insert(MY_COMPONENT);
    assert!(!entity.has(ANOTHER_COMPONENT));
    assert!(entity.has(MY_COMPONENT));
    assert_eq!(entity.marker, Some(MY_COMPONENT));
}

#[test]
fn removing_the_member_clears_the_marker() {
    let mut entity = Entity::new();
    entity.insert(ANOTHER_COMPONENT);
    entity.remove(ANOTHER_COMPONENT);
    assert!(entity.members.is_empty());
    assert_eq!(entity.marker, None);
}

#[test]
fn a_bundle_of_two_members_keeps_both() {
    let mut entity = Entity::new();
    entity.insert_bundle(&[MY_COMPONENT, ANOTHER_COMPONENT]);
    assert!(entity.has(MY_COMPONENT));
    assert!(entity.has(ANOTHER_COMPONENT));
    assert_eq!(entity.marker, Some(ANOTHER_COMPONENT));
}

#[test]
fn a_bundle_replaces_the_current_member() {
    let mut entity = Entity::new();
    entity.insert(MY_COMPONENT);
    entity.insert_bundle(&[ANOTHER_COMPONENT]);
    assert!(!entity.has(MY_COMPONENT));
    assert_eq!(entity.members, vec![ANOTHER_COMPONENT]);
}

#[test]
fn lib_it_works() {
    let mut entity = Entity::new();
    entity.insert(MY_COMPONENT);
    assert!(entity.has(MY_COMPONENT));
    entity.insert(ANOTHER_COMPONENT);
    assert!(entity.has(ANOTHER_COMPONENT));
    assert!(!entity.has(MY_COMPONENT));
    entity.insert(MY_COMPONENT);
    assert!(!entity.has(ANOTHER_COMPONENT));
    assert!(entity.has(MY_COMPONENT));
}
