use nlopt::{ConstraintType, Registry, Role, Slot};

const INEQ: Role = Role::Constraint(ConstraintType::Inequality);
const EQ: Role = Role::Constraint(ConstraintType::Equality);

#[test]
fn new_registry_is_empty() {
    let r: Registry<&str> = Registry::new();
    assert_eq!(r.issued(), 0);
    assert_eq!(r.slot(0), None);
    assert_eq!(r.holders(None), Vec::<usize>::new());
}

#[test]
fn install_hands_out_rising_identities() {
    let mut r = Registry::new();
    assert_eq!(r.install(INEQ, "a"), (0, vec![]));
    assert_eq!(r.install(EQ, "b"), (1, vec![]));
    assert_eq!(r.install(Role::Objective, "c"), (2, vec![]));
    assert_eq!(r.install(INEQ, "d"), (3, vec![]));
    assert_eq!(r.issued(), 4);
    assert_eq!(r.slot(0), Some(&Slot { role: INEQ, held: Some("a") }));
    assert_eq!(r.slot(2), Some(&Slot { role: Role::Objective, held: Some("c") }));
    assert_eq!(r.slot(4), None);
    assert_eq!(r.holders(Some(INEQ)), vec![0, 3]);
    assert_eq!(r.holders(Some(EQ)), vec![1]);
    assert_eq!(r.holders(Some(Role::Objective)), vec![2]);
    assert_eq!(r.holders(None), vec![0, 1, 2, 3]);
}

#[test]
fn new_objective_displaces_the_old() {
    let mut r = Registry::new();
    assert_eq!(r.install(Role::Objective, "first"), (0, vec![]));
    assert_eq!(r.install(Role::Objective, "second"), (1, vec!["first"]));
    assert_eq!(r.install(Role::Objective, "third"), (2, vec!["second"]));
    assert_eq!(r.holders(Some(Role::Objective)), vec![2]);
    assert_eq!(r.slot(0), Some(&Slot { role: Role::Objective, held: None }));
    assert_eq!(r.slot(1), Some(&Slot { role: Role::Objective, held: None }));
    assert_eq!(r.slot(2), Some(&Slot { role: Role::Objective, held: Some("third") }));
}

#[test]
fn clear_hands_back_only_what_is_selected() {
    let mut r = Registry::new();
    r.install(INEQ, 10);
    r.install(Role::Objective, 20);
    r.install(EQ, 30);
    r.install(INEQ, 40);
    assert_eq!(r.clear(Some(INEQ)), vec![10, 40]);
    assert_eq!(r.holders(None), vec![1, 2]);
    assert_eq!(r.clear(Some(INEQ)), Vec::<i32>::new());
    assert_eq!(r.holders(None), vec![1, 2]);
    assert_eq!(r.slot(0), Some(&Slot { role: INEQ, held: None }));
    assert_eq!(r.slot(1), Some(&Slot { role: Role::Objective, held: Some(20) }));
    assert_eq!(r.issued(), 4);
    assert_eq!(r.clear(None), vec![20, 30]);
    assert_eq!(r.holders(None), Vec::<usize>::new());
    assert_eq!(r.clear(None), Vec::<i32>::new());
    assert_eq!(r.install(EQ, 50), (4, vec![]));
}

#[test]
fn every_context_comes_back_exactly_once() {
    let mut r = Registry::new();
    let mut back: Vec<u32> = Vec::new();
    back.extend(r.install(Role::Objective, 1).1);
    back.extend(r.install(INEQ, 2).1);
    back.extend(r.install(Role::Objective, 3).1);
    back.extend(r.install(EQ, 4).1);
    back.extend(r.clear(Some(EQ)));
    back.extend(r.install(EQ, 5).1);
    back.extend(r.install(Role::Objective, 6).1);
    back.extend(r.clear(None));
    back.sort();
    assert_eq!(back, vec![1, 2, 3, 4, 5, 6]);
}
