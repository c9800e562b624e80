use autosoup::automaton::{Flib, StateRow, TransitionEntry, make_from_chromosome};
use autosoup::chromosome::mutate_at_index;
use autosoup::errors::FlibError;

#[test]
fn test_echo_flib() {
    // Test a flib that just echoes its environment
    let mut flib = Flib {
        num_states: 1,
        current_state: 0,
        states: vec![StateRow {
            on_zero: TransitionEntry { output: '0', dest: 0 },
            on_one: TransitionEntry { output: '1', dest: 0 },
        }],
    };

    assert_eq!(flib.as_chromosome(), "0A1A");

    // Input a 0 and 1, and check that we get a 0 or 1 back
    assert_eq!(flib.transition('0').unwrap(), '0');
    assert_eq!(flib.transition('1').unwrap(), '1');
}

#[test]
fn test_echo_flib_state_stays_put() {
    // The echo automaton has a single state, so every transition keeps it at 0.
    let mut flib = Flib {
        num_states: 1,
        current_state: 0,
        states: vec![StateRow {
            on_zero: TransitionEntry { output: '0', dest: 0 },
            on_one: TransitionEntry { output: '1', dest: 0 },
        }],
    };
    assert_eq!(flib.transition('0').unwrap(), '0');
    assert_eq!(flib.current_state, 0);
    assert_eq!(flib.transition('1').unwrap(), '1');
    assert_eq!(flib.current_state, 0);
}

#[test]
fn test_flib_round_trip() {
    // Test that a flib with two states round-trips to string and back.
    let mut flib = Flib {
        num_states: 1,
        current_state: 0,
        states: vec![
            StateRow {
                on_zero: TransitionEntry { output: '0', dest: 1 },
                on_one: TransitionEntry { output: '1', dest: 1 },
            },
            StateRow {
                on_zero: TransitionEntry { output: '1', dest: 0 },
                on_one: TransitionEntry { output: '0', dest: 0 },
            },
        ],
    };
    assert_eq!(flib.as_chromosome(), "0B1B1A0A");

    // After round-trip, the chromosome value should be the same
    flib.from_chromosome(flib.as_chromosome()).unwrap();
    assert_eq!(flib.as_chromosome(), "0B1B1A0A");
}

#[test]
fn test_flib_chromosome_wrong_length() {
    // A chromosome whose length isn't a multiple of four is refused, never
    // silently truncated or padded.
    let result = make_from_chromosome(String::from("0A1"));
    assert!(matches!(result, Err(FlibError::MalformedChromosome)));
}

#[test]
fn test_flib_mutation() {
    // Mutating an even index flips the output symbol deterministically.
    let mutated = mutate_at_index(&String::from("0A1B1A0B"), 0).unwrap();
    assert_eq!(mutated, "1A1B1A0B");

    // Mutating an odd index re-rolls the destination label within range.
    let mutated = mutate_at_index(&String::from("0A1B1A0B"), 1).unwrap();
    assert_eq!(mutated.len(), 8);
    let label = mutated.chars().nth(1).unwrap();
    assert!(label == 'A' || label == 'B');
}

#[test]
fn test_two_state_flib() {
    // Test a flib with two states
    let mut flib = Flib {
        num_states: 1,
        current_state: 0,
        states: vec![
            StateRow {
                on_zero: TransitionEntry { output: '0', dest: 1 },
                on_one: TransitionEntry { output: '1', dest: 1 },
            },
            StateRow {
                on_zero: TransitionEntry { output: '1', dest: 0 },
                on_one: TransitionEntry { output: '0', dest: 0 },
            },
        ],
    };
    assert_eq!(flib.as_chromosome(), "0B1B1A0A");
    flib.transition('0').unwrap();
    assert_eq!(flib.current_state, 1);
    flib.transition('0').unwrap();
    assert_eq!(flib.current_state, 0);
}

#[test]
fn test_randomize_method() {
    let mut flib = Flib {
        num_states: 1,
        current_state: 0,
        states: vec![],
    };

    flib.randomize(5);
    assert_eq!(flib.num_states, 5);
}

#[test]
fn test_randomize_single_state_draws_in_range() {
    // With one state every random destination must be state 0, so both
    // destination labels are 'A' and both output slots are binary.
    let mut flib = Flib {
        num_states: 0,
        current_state: 0,
        states: vec![],
    };
    flib.randomize(1);
    let chromosome = flib.as_chromosome();
    let chars: Vec<char> = chromosome.chars().collect();
    assert_eq!(chars.len(), 4);
    assert_eq!(chars[1], 'A');
    assert_eq!(chars[3], 'A');
    assert!(chars[0] == '0' || chars[0] == '1');
    assert!(chars[2] == '0' || chars[2] == '1');
}

#[test]
fn test_encode_length() {
    // The chromosome is always four characters per state.
    let mut flib = Flib {
        num_states: 0,
        current_state: 0,
        states: vec![],
    };
    flib.randomize(7);
    assert_eq!(flib.as_chromosome().len(), 28);
}

#[test]
fn test_decode_empty_chromosome() {
    // An empty string is a multiple of four characters long and decodes to
    // an automaton with no states at all.
    let flib = make_from_chromosome(String::new()).unwrap();
    assert_eq!(flib.num_states, 0);
    assert_eq!(flib.as_chromosome(), "");
}

#[test]
fn test_decode_rejects_more_than_26_states() {
    // A 27th state could never be named by a single destination letter.
    let chromosome = "0A1A".repeat(27);
    let result = make_from_chromosome(chromosome);
    assert!(matches!(result, Err(FlibError::MalformedChromosome)));
}

#[test]
fn test_transition_invalid_symbol() {
    let mut flib = Flib {
        num_states: 1,
        current_state: 0,
        states: vec![StateRow {
            on_zero: TransitionEntry { output: '0', dest: 0 },
            on_one: TransitionEntry { output: '1', dest: 0 },
        }],
    };
    let result = flib.transition('x');
    assert!(matches!(result, Err(FlibError::InvalidInputSymbol)));
    assert_eq!(flib.current_state, 0);
}

#[test]
fn test_decode_rejects_out_of_range_destination() {
    // A single-state chromosome may only point at state 'A'.
    let result = make_from_chromosome(String::from("0B1A"));
    assert!(matches!(result, Err(FlibError::MalformedChromosome)));
}

#[test]
fn test_decode_rejects_bad_output_slot() {
    let result = make_from_chromosome(String::from("XA1A"));
    assert!(matches!(result, Err(FlibError::MalformedChromosome)));
}

#[test]
fn test_mutation_rejects_bad_output_slot() {
    let result = mutate_at_index(&String::from("XA1A"), 0);
    assert!(matches!(result, Err(FlibError::MalformedChromosome)));
}

#[test]
fn test_predict_echo_automaton() {
    // The echo automaton repeats its input, so over two cycles of "011001"
    // it matches the rotated expectation exactly where consecutive cyclic
    // characters are equal: twice per cycle, four times in all.
    let mut flib = Flib {
        num_states: 1,
        current_state: 0,
        states: vec![StateRow {
            on_zero: TransitionEntry { output: '0', dest: 0 },
            on_one: TransitionEntry { output: '1', dest: 0 },
        }],
    };
    let score = flib.predict(&String::from("011001"));
    assert_eq!(score, 4);
}

#[test]
fn test_predict_score_range() {
    // The match count never exceeds twice the environment length, so the
    // ratio always lands in [0.0, 1.0].
    let mut flib = Flib {
        num_states: 0,
        current_state: 0,
        states: vec![],
    };
    flib.randomize(6);
    let environment = String::from("011001");
    let score = flib.predict(&environment);
    assert!(score <= 2 * environment.len());
    let ratio = (score as f32) / ((2 * environment.len()) as f32);
    assert!((0.0..=1.0).contains(&ratio));
}
