use autosoup::automaton::{Flib, StateRow, TransitionEntry, make_from_chromosome};
use autosoup::cards::integer_to_card;
use autosoup::chromosome::{combine_at, mutate, random_combine};
use autosoup::cli::{Action, CommandLineArgs};
use autosoup::errors::FlibError;
use autosoup::evolve::{find_element, find_minmax, generation_step, score_population, simulate};

#[test]
fn test_combine_at_exact() {
    let child = combine_at(&String::from("0A0A"), &String::from("1B1B"), 2);
    assert_eq!(child, "0A1B");
}

#[test]
fn test_crossover_identity() {
    // Crossing a chromosome with itself gives it back, wherever the random
    // split falls.
    let x = String::from("0B1B1A0A");
    let child = random_combine(&x, &x).unwrap();
    assert_eq!(child, x);
}

#[test]
fn test_crossover_length_mismatch() {
    let result = random_combine(&String::from("0A1A"), &String::from("0B1B1A0A"));
    assert!(matches!(result, Err(FlibError::IncompatibleChromosomeLength)));
}

#[test]
fn test_mutation_preserves_length() {
    let chromosome = String::from("0B1B1A0A");
    let mutant = mutate(&chromosome).unwrap();
    assert_eq!(mutant.len(), chromosome.len());
}

#[test]
fn test_find_element_first_match() {
    let scores: Vec<usize> = vec![3, 12, 12, 5];
    assert_eq!(find_element(&scores, 12), Some(1));
    assert_eq!(find_element(&scores, 7), None);
}

#[test]
fn test_find_minmax_exact() {
    let scores: Vec<usize> = vec![3, 1, 2];
    assert_eq!(find_minmax(&scores), (1, 0));
}

#[test]
fn test_find_minmax_ordering() {
    let scores: Vec<usize> = vec![4, 9, 0, 9, 0, 7];
    let (min_index, max_index) = find_minmax(&scores);
    for &s in &scores {
        assert!(scores[min_index] <= s);
        assert!(s <= scores[max_index]);
    }
    // Among equal scores the earliest index wins.
    assert_eq!(min_index, 2);
    assert_eq!(max_index, 1);
}

#[test]
fn test_find_minmax_all_equal() {
    let scores: Vec<usize> = vec![12, 12, 12];
    assert_eq!(find_minmax(&scores), (0, 0));
}

// The chromosome of an automaton that walks its six states in a cycle and
// always outputs the next character of "011001".
fn perfect_predictor() -> Flib {
    make_from_chromosome(String::from("1B1B1C1C0D0D0E0E1F1F0A0A")).unwrap()
}

#[test]
fn test_predict_perfect_score() {
    let mut flib = perfect_predictor();
    let environment = String::from("011001");
    assert_eq!(flib.predict(&environment), 12);
}

#[test]
fn test_score_population_aligned() {
    let mut population = vec![
        perfect_predictor(),
        make_from_chromosome(String::from("0A0A0A0A0A0A0A0A0A0A0A0A")).unwrap(),
    ];
    let environment = String::from("011001");
    let scores = score_population(&mut population, &environment);
    assert_eq!(scores.len(), 2);
    assert_eq!(scores[0], 12);
    assert!(scores[1] <= 12);
}

#[test]
fn test_find_exact_selects_perfect_predictor() {
    let mut population = vec![
        make_from_chromosome(String::from("0A0A0A0A0A0A0A0A0A0A0A0A")).unwrap(),
        perfect_predictor(),
    ];
    let environment = String::from("011001");
    let scores = score_population(&mut population, &environment);
    assert_eq!(find_element(&scores, 2 * environment.len()), Some(1));
}

#[test]
fn test_generation_step_converged_leaves_population_alone() {
    // With a perfect predictor present the step reports its chromosome and
    // performs neither crossover nor mutation.
    let mut population = vec![perfect_predictor()];
    let environment = String::from("011001");
    let solution = generation_step(&mut population, &environment).unwrap();
    assert_eq!(solution, "1B1B1C1C0D0D0E0E1F1F0A0A");
    assert_eq!(population.len(), 1);
    assert_eq!(population[0].as_chromosome(), "1B1B1C1C0D0D0E0E1F1F0A0A");
}

#[test]
fn test_generation_step_evolves_imperfect_population() {
    let mut population = vec![
        make_from_chromosome(String::from("0A0A0A0A0A0A0A0A0A0A0A0A")).unwrap(),
        make_from_chromosome(String::from("0B0B0C0C0D0D0E0E0F0F0A0A")).unwrap(),
        make_from_chromosome(String::from("1A1A1A1A1A1A1A1A1A1A1A1A")).unwrap(),
    ];
    let environment = String::from("011001");
    let result = generation_step(&mut population, &environment);
    assert!(result.is_none());
    assert_eq!(population.len(), 3);
    // Every slot still decodes: the bred chromosomes stay well formed.
    for flib in &population {
        let chromosome = flib.as_chromosome();
        assert_eq!(chromosome.len(), 24);
        assert!(make_from_chromosome(chromosome).is_ok());
    }
}

#[test]
fn test_simulate_bounded() {
    // A short run either converges on a perfect 24-character chromosome or
    // gives up; it must never return anything malformed.
    match simulate(50) {
        Some(solution) => {
            assert_eq!(solution.len(), 24);
            let mut flib = make_from_chromosome(solution).unwrap();
            assert_eq!(flib.predict(&String::from("011001")), 12);
        }
        None => {}
    }
}

#[test]
fn test_integer_to_card_names() {
    assert_eq!(integer_to_card(0), "a Two");
    assert_eq!(integer_to_card(1), "a Three");
    assert_eq!(integer_to_card(11), "an Ace");
    assert_eq!(integer_to_card(12), "Unknown");
}

#[test]
fn test_command_line_args_hold_their_fields() {
    let args = CommandLineArgs {
        action: Action::Add { text: String::from("water the plants") },
        journal_file: Some(String::from("journal.json")),
    };
    match args.action {
        Action::Add { text } => assert_eq!(text, "water the plants"),
        _ => panic!("unexpected action"),
    }
    assert_eq!(args.journal_file.as_deref(), Some("journal.json"));
}
