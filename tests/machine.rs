use fsm::machine::FSM;

enum Sigma {
    A,
    B,
}

enum Q {
    Q0,
    Q1,
    Q2,
}

impl Default for Q {
    fn default() -> Self {
        Q::Q0
    }
}

struct No2As(Q);

impl FSM for No2As {
    type Domain = Sigma;
    type States = Q;

    fn new(state: Self::States) -> Self {
        Self(state)
    }

    fn state(&self) -> &Self::States {
        &self.0
    }

    fn transform(&mut self, input: &Self::Domain) {
        self.0 = match (&self.0, input) {
            (Q::Q0, Sigma::A) => Q::Q1,
            (Q::Q0, Sigma::B) => Q::Q0,
            (Q::Q1, Sigma::A) => Q::Q2,
            (Q::Q1, Sigma::B) => Q::Q0,
            (Q::Q2, _) => Q::Q2,
        };
    }
}

impl Default for No2As {
    fn default() -> Self {
        Self(Q::default())
    }
}

#[test]
#[allow(unused_variables)]
fn test() {
    let tests = vec![
        (Q::Q0, vec![]),
        (Q::Q1, vec![Sigma::A]),
        (Q::Q2, vec![Sigma::A, Sigma::A]),
        (Q::Q2, vec![Sigma::A, Sigma::A, Sigma::B]),
        (Q::Q0, vec![Sigma::A, Sigma::B]),
        (Q::Q1, vec![Sigma::A, Sigma::B, Sigma::A]),
        (Q::Q2, vec![Sigma::A, Sigma::B, Sigma::A, Sigma::A]),
    ];

    for (fs, inputs) in tests {
        let mut machine = No2As::default();
        machine.run(inputs.into_iter());

        assert!(matches!(machine.state(), fs));
    }
}

fn index(q: &Q) -> u8 {
    match q {
        Q::Q0 => 0,
        Q::Q1 => 1,
        Q::Q2 => 2,
    }
}

#[test]
fn run_ends_in_expected_state() {
    let tests = vec![
        (0, vec![]),
        (1, vec![Sigma::A]),
        (2, vec![Sigma::A, Sigma::A]),
        (2, vec![Sigma::A, Sigma::A, Sigma::B]),
        (0, vec![Sigma::A, Sigma::B]),
        (1, vec![Sigma::A, Sigma::B, Sigma::A]),
        (2, vec![Sigma::A, Sigma::B, Sigma::A, Sigma::A]),
    ];
    for (expected, inputs) in tests {
        let mut machine = No2As::new(Q::Q0);
        machine.run(inputs.into_iter());
        assert_eq!(index(machine.state()), expected);
    }
}
