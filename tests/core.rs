use fsm::accept_tags::{accept_table, Attribute, Declaration, Variant};
use fsm::{AcceptStates, FSM};

#[derive(Clone, Copy, Debug, PartialEq, Eq)]
enum States {
    Q1,
    Q2,
}

impl Default for States {
    fn default() -> Self {
        States::Q1
    }
}

#[derive(Clone, Copy)]
enum Domain {
    A,
    B,
}

fn states_declaration() -> Declaration {
    Declaration::Enum(vec![
        Variant { has_fields: false, attributes: vec![Attribute::Accept] },
        Variant { has_fields: false, attributes: vec![] },
    ])
}

impl AcceptStates for States {
    fn is_accepted(&self) -> bool {
        accept_table(&states_declaration()).unwrap()[*self as usize]
    }
}

fn transform(state: States, input: Domain) -> States {
    match (state, input) {
        (States::Q1, _) => States::Q2,
        (States::Q2, Domain::A) => States::Q1,
        (States::Q2, Domain::B) => States::Q2,
    }
}

#[test]
fn test_derive() {
    assert!(States::Q1.is_accepted());
    assert!(!States::Q2.is_accepted());
}

#[test]
fn test_apply() {
    assert_eq!(FSM::new(States::Q1, transform).apply(Domain::A).into_state(), States::Q2);
    assert_eq!(FSM::new(States::Q1, transform).apply(Domain::B).into_state(), States::Q2);
    assert_eq!(FSM::new(States::Q2, transform).apply(Domain::A).into_state(), States::Q1);
    assert_eq!(FSM::new(States::Q2, transform).apply(Domain::B).into_state(), States::Q2);
}

#[test]
fn apply_assign_matches_apply() {
    let mut machine = FSM::new(States::Q2, transform);
    machine.apply_assign(Domain::A);
    assert_eq!(machine.state(), &States::Q1);
    machine.apply_assign(Domain::B);
    assert_eq!(machine.state(), &States::Q2);
    assert_eq!(*FSM::new(States::Q2, transform).apply(Domain::A).state(), States::Q1);
}

#[test]
fn default_start_and_acceptance() {
    let machine = FSM::default_with_transform(transform);
    assert_eq!(machine.state(), &States::Q1);
    assert!(machine.is_accepted());
    assert!(!machine.apply(Domain::A).is_accepted());
}

#[test]
fn transition_is_deterministic() {
    for s in [States::Q1, States::Q2] {
        for d in [Domain::A, Domain::B] {
            let first = FSM::new(s, transform).apply(d).into_state();
            let second = FSM::new(s, transform).apply(d).into_state();
            assert_eq!(first, second);
        }
    }
}

#[test]
fn run_equals_repeated_apply() {
    let inputs = vec![Domain::B, Domain::A, Domain::A, Domain::B, Domain::A];
    let ran = FSM::new(States::Q1, transform).run(inputs.clone().into_iter()).into_state();
    let mut stepped = FSM::new(States::Q1, transform);
    for d in inputs.clone() {
        stepped = stepped.apply(d);
    }
    assert_eq!(ran, stepped.into_state());
    assert_eq!(ran, States::Q1);

    let mut in_place = FSM::new(States::Q1, transform);
    in_place.run_assign(inputs.into_iter());
    assert_eq!(in_place.into_state(), States::Q1);
}

#[test]
fn run_on_empty_input_keeps_state() {
    let empty: Vec<Domain> = vec![];
    assert_eq!(FSM::new(States::Q2, transform).run(empty.clone().into_iter()).into_state(), States::Q2);
    let mut machine = FSM::new(States::Q1, transform);
    machine.run_assign(empty.into_iter());
    assert_eq!(machine.into_state(), States::Q1);
}

#[test]
fn transform_function_is_kept() {
    let machine = FSM::new(States::Q1, transform);
    let f = machine.transform_function();
    assert_eq!(f(States::Q2, Domain::A), States::Q1);
    assert_eq!(machine.apply(Domain::B).transform_function()(States::Q1, Domain::A), States::Q2);
}
