use vstd::prelude::*;

use crate::chromosome::{
    char_to_state, chromosome_ok, encodes, encoding_of, group_ok, lemma_encodes_is_encoding_of,
    push_char, row_encodes, state_to_char,
};
use crate::errors::FlibError;
use crate::rng::random_below;

verus! {

/// One entry of a transition table: the symbol the automaton emits and the
/// state it moves to when this entry is taken.
#[derive(Debug, Clone, Copy, PartialEq, Eq, Structural)]
pub struct TransitionEntry {
    pub output: char,
    pub dest: usize,
}

/// One state's row of the transition table: the entry taken on input '0' and
/// the entry taken on input '1'.
#[derive(Debug, Clone, Copy, PartialEq, Eq, Structural)]
pub struct StateRow {
    pub on_zero: TransitionEntry,
    pub on_one: TransitionEntry,
}

/// An output slot may only hold one of the two binary symbols.
pub open spec fn is_output_char(c: char) -> bool {
    c == '0' || c == '1'
}

/// A single transition entry is well formed for a table of `n` states.
pub open spec fn entry_wf(e: TransitionEntry, n: int) -> bool {
    &&& is_output_char(e.output)
    &&& e.dest < n
}

/// A whole row is well formed for a table of `n` states.
pub open spec fn row_wf(r: StateRow, n: int) -> bool {
    &&& entry_wf(r.on_zero, n)
    &&& entry_wf(r.on_one, n)
}

/// Every row of a table is well formed for a table of `n` states.
pub open spec fn rows_wf(rows: Seq<StateRow>, n: int) -> bool {
    forall|i: int| 0 <= i < rows.len() ==> row_wf(#[trigger] rows[i], n)
}

/// A single automaton: a deterministic finite transducer over the binary
/// alphabet.  Destination labels are single letters, so at most 26 states
/// can ever be encoded.
#[derive(Debug)]
pub struct Flib {
    pub num_states: usize,
    pub current_state: usize,
    /// Each state's transitions, indexed by the input symbol.
    pub states: Vec<StateRow>,
}

/// The entry the automaton takes from state `st` on input `c`.
pub open spec fn step_entry(rows: Seq<StateRow>, st: int, c: char) -> TransitionEntry {
    if c == '0' {
        rows[st].on_zero
    } else {
        rows[st].on_one
    }
}

/// Every character of `e` is a binary symbol.
pub open spec fn is_binary_seq(e: Seq<char>) -> bool {
    forall|i: int| 0 <= i < e.len() ==> is_output_char(#[trigger] e[i])
}

/// Two copies of the environment: the input that is actually fed to the
/// automaton during one scoring pass.
pub open spec fn doubled(e: Seq<char>) -> Seq<char> {
    e + e
}

/// The expectation the outputs are scored against: the environment rotated
/// left by one character and repeated twice, written out as its tail, a full
/// copy, and finally its first character.
pub open spec fn predicted(e: Seq<char>) -> Seq<char> {
    e.skip(1) + e + e.take(1)
}

/// How many outputs match the expectation when the automaton with table
/// `rows`, starting in state `st`, consumes `inputs` one symbol at a time.
pub open spec fn match_count(
    rows: Seq<StateRow>,
    st: int,
    inputs: Seq<char>,
    expected: Seq<char>,
) -> int
    decreases inputs.len(),
{
    if inputs.len() == 0 {
        0
    } else {
        let e = step_entry(rows, st, inputs[0]);
        (if expected.len() > 0 && e.output == expected[0] {
            1int
        } else {
            0int
        }) + match_count(rows, e.dest as int, inputs.skip(1), expected.skip(1))
    }
}

impl Flib {
    /// The structural invariant: the table has one row per state, every
    /// destination stays inside the table, every output is binary, the state
    /// count fits the single-letter label alphabet, and the current state is
    /// in range (an automaton with no states rests at state 0).
    pub open spec fn wf(&self) -> bool {
        &&& self.states@.len() == self.num_states
        &&& self.num_states <= 26
        &&& (self.current_state < self.num_states || self.current_state == 0)
        &&& rows_wf(self.states@, self.num_states as int)
    }

    /// Consume the input character `input`, emitting a response character and
    /// updating the internal state according to the transition table.  Any
    /// input other than '0' or '1' is refused and leaves the automaton
    /// untouched; either way the current state stays in range afterwards.
    pub fn transition(&mut self, input: char) -> (r: Result<char, FlibError>)
        requires
            old(self).wf(),
            old(self).num_states > 0,
        ensures
            final(self).states@ == old(self).states@,
            final(self).num_states == old(self).num_states,
            final(self).wf(),
            final(self).current_state < final(self).num_states,
            match r {
                Ok(out) => {
                    &&& is_output_char(input)
                    &&& out == step_entry(
                        old(self).states@,
                        old(self).current_state as int,
                        input,
                    ).output
                    &&& final(self).current_state == step_entry(
                        old(self).states@,
                        old(self).current_state as int,
                        input,
                    ).dest
                },
                Err(e) => {
                    &&& e == FlibError::InvalidInputSymbol
                    &&& !is_output_char(input)
                    &&& *final(self) == *old(self)
                },
            },
    {
        if input != '0' && input != '1' {
            return Err(FlibError::InvalidInputSymbol);
        }
        let row = self.states[self.current_state];
        let entry = if input == '0' {
            row.on_zero
        } else {
            row.on_one
        };
        self.current_state = entry.dest;
        Ok(entry.output)
    }

    /// Run one scoring pass against the environment: reset to state 0, feed
    /// the automaton two concatenated copies of the environment, and count
    /// how many outputs equal the next character of the cyclic sequence.
    /// The count is at most twice the environment's length; a perfect
    /// predictor reaches exactly that bound.
    pub fn predict(&mut self, environment: &String) -> (r: usize)
        requires
            old(self).wf(),
            old(self).num_states > 0,
            environment@.len() > 0,
            is_binary_seq(environment@),
            environment@.len() <= usize::MAX / 2,
        ensures
            final(self).states@ == old(self).states@,
            final(self).num_states == old(self).num_states,
            final(self).wf(),
            r == match_count(
                old(self).states@,
                0,
                doubled(environment@),
                predicted(environment@),
            ),
            r <= 2 * environment@.len(),
    {
        let env = environment.as_str();
        let len = env.unicode_len();
        let total = 2 * len;
        let mut matches: usize = 0;
        self.current_state = 0;
        let ghost rows = self.states@;
        let ghost din = doubled(environment@);
        let ghost dex = predicted(environment@);
        proof {
            assert(din.len() == total);
            assert(dex.len() == total);
            assert(din.skip(0) =~= din);
            assert(dex.skip(0) =~= dex);
        }
        let mut i: usize = 0;
        while i < total
            invariant
                self.wf(),
                self.states@ == rows,
                self.num_states == rows.len(),
                rows.len() > 0,
                env@ == environment@,
                len == environment@.len(),
                len > 0,
                total == 2 * len,
                is_binary_seq(environment@),
                din == doubled(environment@),
                dex == predicted(environment@),
                din.len() == total,
                dex.len() == total,
                i <= total,
                matches <= i,
                matches + match_count(
                    rows,
                    self.current_state as int,
                    din.skip(i as int),
                    dex.skip(i as int),
                ) == match_count(rows, 0, din, dex),
            decreases total - i,
        {
            let input = if i < len {
                env.get_char(i)
            } else {
                env.get_char(i - len)
            };
            let j = i + 1;
            let expected = if j < len {
                env.get_char(j)
            } else if j < total {
                env.get_char(j - len)
            } else {
                env.get_char(0)
            };
            proof {
                assert(din.skip(i as int)[0] == din[i as int]);
                assert(din[i as int] == input);
                assert(dex.skip(i as int)[0] == dex[i as int]);
                assert(dex[i as int] == expected);
                assert(is_output_char(input));
                assert(din.skip(i as int).skip(1) =~= din.skip(i as int + 1));
                assert(dex.skip(i as int).skip(1) =~= dex.skip(i as int + 1));
            }
            let out;
            match self.transition(input) {
                Ok(c) => {
                    out = c;
                },
                Err(_) => {
                    proof {
                        assert(false);
                    }
                    return 0;
                },
            }
            if out == expected {
                matches = matches + 1;
            }
            i = j;
        }
        matches
    }

    /// Return the string representation of the transition table: for each
    /// state in ascending order, its output on '0', the letter of its
    /// destination on '0', its output on '1', and the letter of its
    /// destination on '1'.
    pub fn as_chromosome(&self) -> (r: String)
        requires
            self.wf(),
        ensures
            r@.len() == 4 * self.num_states,
            encodes(self.states@, r@),
            r@ == encoding_of(self.states@),
    {
        let mut c = String::new();
        let n = self.states.len();
        let mut i: usize = 0;
        while i < n
            invariant
                self.wf(),
                n == self.states@.len(),
                i <= n,
                c@.len() == 4 * i,
                forall|j: int| 0 <= j < i ==> row_encodes(#[trigger] self.states@[j], c@, j),
            decreases n - i,
        {
            let row = self.states[i];
            push_char(&mut c, row.on_zero.output);
            push_char(&mut c, state_to_char(row.on_zero.dest));
            push_char(&mut c, row.on_one.output);
            push_char(&mut c, state_to_char(row.on_one.dest));
            i = i + 1;
        }
        proof {
            lemma_encodes_is_encoding_of(self.states@, c@);
        }
        c
    }

    /// Replace the transition table with the table given by the chromosome
    /// string, resetting the current state to 0.  A string whose length is
    /// not a multiple of four, or whose length names more than 26 states, or
    /// that holds a non-binary symbol in an output slot or an out-of-range
    /// letter in a destination slot, is refused as malformed and leaves the
    /// automaton untouched.
    pub fn from_chromosome(&mut self, chromosome: String) -> (r: Result<(), FlibError>)
        ensures
            match r {
                Ok(()) => {
                    &&& chromosome_ok(chromosome@)
                    &&& final(self).wf()
                    &&& final(self).current_state == 0
                    &&& final(self).num_states == chromosome@.len() / 4
                    &&& encodes(final(self).states@, chromosome@)
                },
                Err(e) => {
                    &&& e == FlibError::MalformedChromosome
                    &&& !chromosome_ok(chromosome@)
                    &&& *final(self) == *old(self)
                },
            },
    {
        let s = chromosome.as_str();
        let len = s.unicode_len();
        if len % 4 != 0 {
            return Err(FlibError::MalformedChromosome);
        }
        let num_states = len / 4;
        if num_states > 26 {
            return Err(FlibError::MalformedChromosome);
        }
        let mut rows: Vec<StateRow> = Vec::new();
        let mut i: usize = 0;
        while i < num_states
            invariant
                *self == *old(self),
                s@ == chromosome@,
                len == chromosome@.len(),
                len % 4 == 0,
                num_states == len / 4,
                num_states <= 26,
                i <= num_states,
                rows@.len() == i,
                forall|j: int| 0 <= j < i ==> #[trigger] group_ok(chromosome@, j),
                forall|j: int| 0 <= j < i ==> row_encodes(#[trigger] rows@[j], chromosome@, j),
                forall|j: int|
                    0 <= j < i ==> row_wf(#[trigger] rows@[j], num_states as int),
            decreases num_states - i,
        {
            let output0 = s.get_char(4 * i);
            let dest0c = s.get_char(4 * i + 1);
            let output1 = s.get_char(4 * i + 2);
            let dest1c = s.get_char(4 * i + 3);
            if (output0 != '0' && output0 != '1') || (output1 != '0' && output1 != '1')
                || (dest0c as u32) < ('A' as u32)
                || (dest0c as u32) >= ('A' as u32) + (num_states as u32)
                || (dest1c as u32) < ('A' as u32)
                || (dest1c as u32) >= ('A' as u32) + (num_states as u32) {
                proof {
                    assert(!group_ok(chromosome@, i as int));
                }
                return Err(FlibError::MalformedChromosome);
            }
            let dest0 = char_to_state(dest0c);
            let dest1 = char_to_state(dest1c);
            rows.push(
                StateRow {
                    on_zero: TransitionEntry { output: output0, dest: dest0 },
                    on_one: TransitionEntry { output: output1, dest: dest1 },
                },
            );
            i = i + 1;
        }
        self.current_state = 0;
        self.num_states = num_states;
        self.states = rows;
        Ok(())
    }

    /// Replace the table with freshly drawn random transitions over
    /// `num_states` states: each output symbol is drawn uniformly from the
    /// binary alphabet and each destination uniformly from the state range.
    /// Self-loops and unreachable states are permitted, not filtered.
    pub fn randomize(&mut self, num_states: usize)
        requires
            1 <= num_states <= 26,
        ensures
            final(self).wf(),
            final(self).num_states == num_states,
            final(self).current_state == 0,
    {
        self.num_states = num_states;
        self.current_state = 0;
        self.states = Vec::new();
        let mut i: usize = 0;
        while i < num_states
            invariant
                1 <= num_states <= 26,
                self.num_states == num_states,
                self.current_state == 0,
                i <= num_states,
                self.states@.len() == i,
                rows_wf(self.states@, num_states as int),
            decreases num_states - i,
        {
            let o0 = if random_below(2) == 0 {
                '0'
            } else {
                '1'
            };
            let d0 = random_below(num_states);
            let o1 = if random_below(2) == 0 {
                '0'
            } else {
                '1'
            };
            let d1 = random_below(num_states);
            self.states.push(
                StateRow {
                    on_zero: TransitionEntry { output: o0, dest: d0 },
                    on_one: TransitionEntry { output: o1, dest: d1 },
                },
            );
            i = i + 1;
        }
    }
}

/// Build a fresh automaton from a chromosome string; a malformed string is
/// refused, exactly as `from_chromosome` refuses it.
pub fn make_from_chromosome(chromosome: String) -> (r: Result<Flib, FlibError>)
    ensures
        match r {
            Ok(f) => {
                &&& chromosome_ok(chromosome@)
                &&& f.wf()
                &&& f.current_state == 0
                &&& f.num_states == chromosome@.len() / 4
                &&& encodes(f.states@, chromosome@)
            },
            Err(e) => {
                &&& e == FlibError::MalformedChromosome
                &&& !chromosome_ok(chromosome@)
            },
        },
{
    let mut baby = Flib { num_states: 0, current_state: 0, states: Vec::new() };
    match baby.from_chromosome(chromosome) {
        Ok(()) => Ok(baby),
        Err(e) => Err(e),
    }
}

} // verus!
