use vstd::prelude::*;

use crate::automaton::{
    Flib, StateRow, doubled, is_binary_seq, is_output_char, match_count, predicted,
};
use crate::chromosome::{
    chromosome_ok, combined, encodes, encoding_of, is_mutation_of, lemma_combined_ok,
    lemma_encoded_ok, lemma_encodes_is_encoding_of, lemma_mutation_ok,
    lemma_ok_has_no_bad_output_slot, mutate, random_combine,
};
use crate::rng::random_below;

verus! {

/// Every slot of the population holds a well-formed automaton with exactly
/// `n` states.
pub open spec fn population_wf(pop: Seq<Flib>, n: int) -> bool {
    forall|i: int|
        0 <= i < pop.len() ==> ((#[trigger] pop[i]).wf() && pop[i].num_states == n)
}

/// Every slot holds a well-formed automaton with at least one state, so it
/// can be scored.
pub open spec fn population_scoreable(pop: Seq<Flib>) -> bool {
    forall|i: int|
        0 <= i < pop.len() ==> ((#[trigger] pop[i]).wf() && pop[i].num_states > 0)
}

/// The score an automaton earns against the environment: the number of
/// matching predictions over two passes of the cycle.
pub open spec fn spec_score(f: Flib, e: Seq<char>) -> int {
    match_count(f.states@, 0, doubled(e), predicted(e))
}

/// The scores of every slot, index-aligned with the population.
pub open spec fn spec_scores(pop: Seq<Flib>, e: Seq<char>) -> Seq<int> {
    Seq::new(pop.len(), |i: int| spec_score(pop[i], e))
}

/// `i` is where the extremum scan settles for the minimum: no score is
/// lower, and every earlier one is strictly higher.
pub open spec fn is_first_min(s: Seq<int>, i: int) -> bool {
    &&& 0 <= i < s.len()
    &&& forall|j: int| 0 <= j < s.len() ==> s[i] <= #[trigger] s[j]
    &&& forall|j: int| 0 <= j < i ==> s[i] < #[trigger] s[j]
}

/// `i` is where the extremum scan settles for the maximum: no score is
/// higher, and every earlier one is strictly lower.
pub open spec fn is_first_max(s: Seq<int>, i: int) -> bool {
    &&& 0 <= i < s.len()
    &&& forall|j: int| 0 <= j < s.len() ==> #[trigger] s[j] <= s[i]
    &&& forall|j: int| 0 <= j < i ==> #[trigger] s[j] < s[i]
}

/// There is a population slot besides the two extremes, so a mutation
/// target can be drawn.
pub open spec fn has_spare_slot(len: int, mn: int, mx: int) -> bool {
    len > if mn == mx {
        1int
    } else {
        2int
    }
}

/// What one evolving generation does to the transition tables.  The slot of
/// the first-lowest score takes the crossover child of the lowest- and
/// highest-scoring parents' chromosomes; one slot drawn from the rest takes
/// a mutant of its own chromosome (when the extremes leave any other slot);
/// every other table is untouched.
pub open spec fn evolved_step(
    before: Seq<Flib>,
    after: Seq<Flib>,
    e: Seq<char>,
    mn: int,
    mx: int,
    rnd: int,
) -> bool {
    &&& is_first_min(spec_scores(before, e), mn)
    &&& is_first_max(spec_scores(before, e), mx)
    &&& exists|split: int|
        0 <= split < encoding_of(before[mn].states@).len() && encoding_of(after[mn].states@)
            == combined(encoding_of(before[mn].states@), encoding_of(before[mx].states@), split)
    &&& if has_spare_slot(before.len() as int, mn, mx) {
        &&& 0 <= rnd < before.len()
        &&& rnd != mn
        &&& rnd != mx
        &&& exists|pos: int|
            is_mutation_of(
                encoding_of(after[rnd].states@),
                encoding_of(before[rnd].states@),
                pos,
            )
        &&& forall|i: int|
            0 <= i < before.len() && i != mn && i != rnd ==> (#[trigger] after[i]).states@
                == before[i].states@
    } else {
        forall|i: int|
            0 <= i < before.len() && i != mn ==> (#[trigger] after[i]).states@
                == before[i].states@
    }
}

/// Evaluate the entire population on how well each automaton predicts the
/// environment.  The result is index-aligned with the population and each
/// entry is a match count out of twice the environment's length.  Scoring
/// resets and then advances each automaton's current state as a side
/// effect; no transition table changes.
pub fn score_population(population: &mut Vec<Flib>, environment: &String) -> (scores: Vec<usize>)
    requires
        population_scoreable(old(population)@),
        environment@.len() > 0,
        is_binary_seq(environment@),
        environment@.len() <= usize::MAX / 2,
    ensures
        final(population)@.len() == old(population)@.len(),
        forall|i: int|
            0 <= i < old(population)@.len() ==> {
                &&& (#[trigger] final(population)@[i]).states@ == old(population)@[i].states@
                &&& final(population)@[i].num_states == old(population)@[i].num_states
                &&& final(population)@[i].wf()
            },
        scores@.len() == old(population)@.len(),
        forall|i: int|
            0 <= i < scores@.len() ==> #[trigger] scores@[i] == spec_score(
                old(population)@[i],
                environment@,
            ) && scores@[i] <= 2 * environment@.len(),
{
    let ghost orig: Seq<Flib> = old(population)@;
    let mut scores: Vec<usize> = Vec::new();
    let n = population.len();
    let mut i: usize = 0;
    while i < n
        invariant
            n == orig.len(),
            population@.len() == n,
            population_scoreable(orig),
            environment@.len() > 0,
            is_binary_seq(environment@),
            environment@.len() <= usize::MAX / 2,
            i <= n,
            scores@.len() == i,
            forall|j: int| i <= j < n ==> #[trigger] population@[j] == orig[j],
            forall|j: int|
                0 <= j < i ==> {
                    &&& (#[trigger] population@[j]).states@ == orig[j].states@
                    &&& population@[j].num_states == orig[j].num_states
                    &&& population@[j].wf()
                },
            forall|j: int|
                0 <= j < i ==> #[trigger] scores@[j] == spec_score(orig[j], environment@)
                    && scores@[j] <= 2 * environment@.len(),
        decreases n - i,
    {
        let score = population[i].predict(environment);
        scores.push(score);
        i = i + 1;
    }
    scores
}

/// Linear scan for the first index whose score equals `element`, if any.
pub fn find_element(vec: &Vec<usize>, element: usize) -> (r: Option<usize>)
    ensures
        match r {
            Some(i) => {
                &&& i < vec@.len()
                &&& vec@[i as int] == element
                &&& forall|j: int| 0 <= j < i ==> #[trigger] vec@[j] != element
            },
            None => forall|j: int| 0 <= j < vec@.len() ==> #[trigger] vec@[j] != element,
        },
{
    let mut i: usize = 0;
    while i < vec.len()
        invariant
            i <= vec@.len(),
            forall|j: int| 0 <= j < i ==> #[trigger] vec@[j] != element,
        decreases vec@.len() - i,
    {
        if vec[i] == element {
            return Some(i);
        }
        i = i + 1;
    }
    None
}

/// Find the indices of the lowest and the highest score in one linear scan.
/// A running extremum is replaced only on a strict improvement, so among
/// equal scores the earliest index wins; an empty vector yields (0, 0).
pub fn find_minmax(vec: &Vec<usize>) -> (r: (usize, usize))
    ensures
        vec@.len() == 0 ==> r.0 == 0 && r.1 == 0,
        vec@.len() > 0 ==> {
            &&& r.0 < vec@.len()
            &&& r.1 < vec@.len()
            &&& forall|i: int|
                0 <= i < vec@.len() ==> vec@[r.0 as int] <= #[trigger] vec@[i] <= vec@[r.1 as int]
            &&& forall|i: int| 0 <= i < r.0 ==> vec@[r.0 as int] < #[trigger] vec@[i]
            &&& forall|i: int| 0 <= i < r.1 ==> #[trigger] vec@[i] < vec@[r.1 as int]
        },
{
    let mut min_index: usize = 0;
    let mut max_index: usize = 0;
    let mut min_score: usize = usize::MAX;
    let mut max_score: usize = 0;
    let mut i: usize = 0;
    while i < vec.len()
        invariant
            i <= vec@.len(),
            forall|j: int| 0 <= j < i ==> min_score <= #[trigger] vec@[j],
            forall|j: int| 0 <= j < min_index ==> min_score < #[trigger] vec@[j],
            min_score == usize::MAX && min_index == 0 || min_index < i && vec@[
                min_index as int
            ] == min_score,
            forall|j: int| 0 <= j < i ==> #[trigger] vec@[j] <= max_score,
            forall|j: int| 0 <= j < max_index ==> #[trigger] vec@[j] < max_score,
            max_score == 0 && max_index == 0 || max_index < i && vec@[max_index as int]
                == max_score,
        decreases vec@.len() - i,
    {
        if vec[i] > max_score {
            max_score = vec[i];
            max_index = i;
        }
        if vec[i] < min_score {
            min_score = vec[i];
            min_index = i;
        }
        i = i + 1;
    }
    (min_index, max_index)
}

/// Run one generation over the population.  Score every automaton; if one
/// predicts perfectly, return its chromosome and leave every transition
/// table untouched.  Otherwise replace the worst-scoring automaton by the
/// crossover child of the worst and the best, then pick one slot uniformly
/// at random from the population excluding the two extremes, if any other
/// slot exists, and replace it by a mutant of itself.
pub fn generation_step(population: &mut Vec<Flib>, environment: &String) -> (r: Option<String>)
    requires
        old(population)@.len() > 0,
        old(population)@[0].num_states > 0,
        population_wf(old(population)@, old(population)@[0].num_states as int),
        environment@.len() > 0,
        is_binary_seq(environment@),
        environment@.len() <= usize::MAX / 2,
    ensures
        final(population)@.len() == old(population)@.len(),
        population_wf(final(population)@, old(population)@[0].num_states as int),
        match r {
            Some(c) => {
                &&& chromosome_ok(c@)
                &&& forall|i: int|
                    0 <= i < old(population)@.len() ==> (#[trigger] final(population)@[i]).states@
                        == old(population)@[i].states@
                &&& exists|i: int|
                    0 <= i < old(population)@.len() && spec_score(
                        #[trigger] old(population)@[i],
                        environment@,
                    ) == 2 * environment@.len() && encodes(old(population)@[i].states@, c@)
                        && forall|j: int|
                        0 <= j < i ==> spec_score(#[trigger] old(population)@[j], environment@)
                            != 2 * environment@.len()
            },
            None => {
                &&& forall|i: int|
                    0 <= i < old(population)@.len() ==> spec_score(
                        #[trigger] old(population)@[i],
                        environment@,
                    ) != 2 * environment@.len()
                &&& exists|mn: int, mx: int, rnd: int|
                    evolved_step(
                        old(population)@,
                        final(population)@,
                        environment@,
                        mn,
                        mx,
                        rnd,
                    )
            },
        },
{
    let ghost orig: Seq<Flib> = old(population)@;
    let scores = score_population(population, environment);
    let total = 2 * environment.as_str().unicode_len();
    match find_element(&scores, total) {
        Some(v) => {
            let c = population[v].as_chromosome();
            proof {
                lemma_encoded_ok(population@[v as int].states@, c@);
                assert forall|j: int|
                    0 <= j < v implies spec_score(#[trigger] orig[j], environment@) != 2
                    * environment@.len() by {
                    assert(scores@[j] == spec_score(orig[j], environment@));
                }
                assert(
                    0 <= v < orig.len() && spec_score(orig[v as int], environment@) == 2
                        * environment@.len() && encodes(orig[v as int].states@, c@) && forall|
                        j: int,
                    |
                        0 <= j < v ==> spec_score(#[trigger] orig[j], environment@) != 2
                            * environment@.len()
                );
            }
            return Some(c);
        },
        None => {},
    }
    let (min_index, max_index) = find_minmax(&scores);
    proof {
        assert forall|j: int|
            0 <= j < orig.len() implies #[trigger] spec_scores(orig, environment@)[j]
            == scores@[j] by {
            assert(scores@[j] == spec_score(orig[j], environment@));
        }
        assert(is_first_min(spec_scores(orig, environment@), min_index as int));
        assert(is_first_max(spec_scores(orig, environment@), max_index as int));
    }
    let parent1 = population[min_index].as_chromosome();
    let parent2 = population[max_index].as_chromosome();
    proof {
        lemma_encoded_ok(population@[min_index as int].states@, parent1@);
        lemma_encoded_ok(population@[max_index as int].states@, parent2@);
        assert(parent1@ == encoding_of(orig[min_index as int].states@));
        assert(parent2@ == encoding_of(orig[max_index as int].states@));
    }
    let child = match random_combine(&parent1, &parent2) {
        Ok(c) => c,
        Err(_) => {
            proof {
                assert(false);
            }
            return None;
        },
    };
    let ghost gsplit: int = choose|split: int|
        0 <= split < parent1@.len() && child@ == combined(parent1@, parent2@, split);
    proof {
        lemma_combined_ok(parent1@, parent2@, gsplit);
    }
    match population[min_index].from_chromosome(child) {
        Ok(()) => {},
        Err(_) => {
            proof {
                assert(false);
            }
            return None;
        },
    }
    proof {
        lemma_encodes_is_encoding_of(population@[min_index as int].states@, child@);
    }
    let ghost after_cross: Seq<Flib> = population@;
    // Pick the slot to mutate uniformly among those that are neither extreme,
    // mapping the draw over the gap left by the one or two excluded indices.
    let spare = if min_index == max_index {
        population.len() - 1
    } else {
        population.len() - 2
    };
    let ghost mut gpos: int = 0;
    let ghost mut grnd: int = 0;
    if spare > 0 {
        let lo = if min_index < max_index {
            min_index
        } else {
            max_index
        };
        let hi = if min_index < max_index {
            max_index
        } else {
            min_index
        };
        let mut random_index = random_below(spare);
        if random_index >= lo {
            random_index = random_index + 1;
        }
        if lo != hi && random_index >= hi {
            random_index = random_index + 1;
        }
        proof {
            grnd = random_index as int;
            assert(random_index < population@.len());
            assert(random_index != min_index);
            assert(random_index != max_index);
        }
        let subject = population[random_index].as_chromosome();
        proof {
            lemma_encoded_ok(population@[random_index as int].states@, subject@);
            assert(subject@ == encoding_of(orig[random_index as int].states@));
        }
        let mutant = match mutate(&subject) {
            Ok(m) => m,
            Err(_) => {
                proof {
                    lemma_ok_has_no_bad_output_slot(subject@);
                    assert(false);
                }
                return None;
            },
        };
        proof {
            gpos = choose|pos: int| is_mutation_of(mutant@, subject@, pos);
            lemma_mutation_ok(subject@, mutant@, gpos);
        }
        match population[random_index].from_chromosome(mutant) {
            Ok(()) => {},
            Err(_) => {
                proof {
                    assert(false);
                }
                return None;
            },
        }
        proof {
            lemma_encodes_is_encoding_of(population@[random_index as int].states@, mutant@);
            assert(is_mutation_of(
                encoding_of(population@[random_index as int].states@),
                encoding_of(orig[random_index as int].states@),
                gpos,
            ));
        }
    }
    proof {
        assert forall|i: int|
            0 <= i < orig.len() implies spec_score(#[trigger] orig[i], environment@) != 2
            * environment@.len() by {
            assert(scores@[i] == spec_score(orig[i], environment@));
        }
        let after = population@;
        let mn = min_index as int;
        let mx = max_index as int;
        assert(encoding_of(after[mn].states@) == combined(
            encoding_of(orig[mn].states@),
            encoding_of(orig[mx].states@),
            gsplit,
        ));
        assert(0 <= gsplit < encoding_of(orig[mn].states@).len());
        if has_spare_slot(orig.len() as int, mn, mx) {
            assert forall|i: int|
                0 <= i < orig.len() && i != mn && i != grnd implies (#[trigger] after[i]).states@
                == orig[i].states@ by {
                assert(after[i] == after_cross[i]);
            }
        } else {
            assert forall|i: int|
                0 <= i < orig.len() && i != mn implies (#[trigger] after[i]).states@
                == orig[i].states@ by {
                assert(after[i] == after_cross[i]);
            }
        }
        assert(evolved_step(orig, after, environment@, mn, mx, grnd));
    }
    None
}

/// Evolve a population of ten random six-state automatons against the fixed
/// environment "011001" until one of them predicts it perfectly, in which
/// case its chromosome is returned.  The search is otherwise unbounded, so
/// as a termination policy the run gives up and reports nothing once
/// `max_generations` generations have passed without a perfect predictor.
pub fn simulate(max_generations: usize) -> (r: Option<String>)
    ensures
        match r {
            Some(c) => {
                &&& chromosome_ok(c@)
                &&& c@.len() == 24
                &&& exists|rows: Seq<StateRow>|
                    encodes(rows, c@) && match_count(
                        rows,
                        0,
                        doubled("011001"@),
                        predicted("011001"@),
                    ) == 12
            },
            None => true,
        },
{
    // Sequence of symbols representing the environment.
    let environment = String::from_str("011001");
    proof {
        reveal_strlit("011001");
        assert(environment@.len() == 6);
        assert forall|i: int|
            0 <= i < environment@.len() implies is_output_char(#[trigger] environment@[i]) by {
            if i == 0 {
                assert(environment@[0] == '0');
            } else if i == 1 {
                assert(environment@[1] == '1');
            } else if i == 2 {
                assert(environment@[2] == '1');
            } else if i == 3 {
                assert(environment@[3] == '0');
            } else if i == 4 {
                assert(environment@[4] == '0');
            } else {
                assert(environment@[5] == '1');
            }
        }
    }
    let env_len = environment.as_str().unicode_len();
    let population_size: usize = 10;
    let mut population: Vec<Flib> = Vec::new();
    while population.len() < population_size
        invariant
            env_len == 6,
            population@.len() <= population_size,
            population_wf(population@, 6),
        decreases population_size - population@.len(),
    {
        let mut newflib = Flib { num_states: 0, current_state: 0, states: Vec::new() };
        newflib.randomize(env_len);
        population.push(newflib);
    }
    let mut generation: usize = 0;
    while generation < max_generations
        invariant
            environment@ == "011001"@,
            environment@.len() == 6,
            is_binary_seq(environment@),
            population@.len() == 10,
            population_wf(population@, 6),
            generation <= max_generations,
        decreases max_generations - generation,
    {
        match generation_step(&mut population, &environment) {
            Some(solution) => {
                return Some(solution);
            },
            None => {},
        }
        generation = generation + 1;
    }
    None
}

} // verus!
