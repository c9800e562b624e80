use vstd::prelude::*;

use crate::automaton::{StateRow, is_output_char, row_wf, rows_wf};
use crate::errors::FlibError;
use crate::rng::random_below;

verus! {

/// A state's index shown as its single-letter label: 0 is 'A', 1 is 'B', and so on.
pub open spec fn spec_state_char(state: int) -> char {
    (('A' as u8) + state as u8) as char
}

/// The state index named by a destination letter: 'A' is 0, 'B' is 1, and so on.
pub open spec fn spec_char_state(c: char) -> int {
    c as u32 - 'A' as u32
}

/// Convert the integer number `state` into the matching character; for example, 1 maps to 'B'.
pub fn state_to_char(state: usize) -> (r: char)
    requires
        state < 26,
    ensures
        r == spec_state_char(state as int),
{
    (('A' as u8) + (state as u8)) as char
}

/// Convert a character `ch` such as 'B' into a state number like 1.
pub fn char_to_state(ch: char) -> (r: usize)
    requires
        'A' as u32 <= ch as u32 <= 'Z' as u32,
    ensures
        r == spec_char_state(ch),
{
    ((ch as u32) - ('A' as u32)) as usize
}

/// A destination slot must name one of the first `n` states with its letter.
pub open spec fn is_dest_char(c: char, n: int) -> bool {
    &&& 'A' as u32 <= c as u32
    &&& spec_char_state(c) < n
}

/// The four characters that describe one state are acceptable for a
/// chromosome of `s.len() / 4` states.
pub open spec fn group_ok(s: Seq<char>, i: int) -> bool {
    &&& is_output_char(s[4 * i])
    &&& is_dest_char(s[4 * i + 1], s.len() as int / 4)
    &&& is_output_char(s[4 * i + 2])
    &&& is_dest_char(s[4 * i + 3], s.len() as int / 4)
}

/// A chromosome the codec accepts: its length is a multiple of four and
/// names at most 26 states, every output slot holds a binary symbol, and
/// every destination letter stays below the state count that the length
/// itself implies.
pub open spec fn chromosome_ok(s: Seq<char>) -> bool {
    &&& s.len() % 4 == 0
    &&& s.len() / 4 <= 26
    &&& forall|i: int| 0 <= i < s.len() / 4 ==> #[trigger] group_ok(s, i)
}

/// The four characters at group `i` of `s` spell out the row `r`.
pub open spec fn row_encodes(r: StateRow, s: Seq<char>, i: int) -> bool {
    &&& s[4 * i] == r.on_zero.output
    &&& s[4 * i + 1] == spec_state_char(r.on_zero.dest as int)
    &&& s[4 * i + 2] == r.on_one.output
    &&& s[4 * i + 3] == spec_state_char(r.on_one.dest as int)
}

/// `s` is exactly the chromosome that serializes the transition table `rows`.
pub open spec fn encodes(rows: Seq<StateRow>, s: Seq<char>) -> bool {
    &&& s.len() == 4 * rows.len()
    &&& forall|i: int| 0 <= i < rows.len() ==> row_encodes(#[trigger] rows[i], s, i)
}

/// The chromosome of a transition table, character by character.
pub open spec fn encoding_of(rows: Seq<StateRow>) -> Seq<char> {
    Seq::new(
        (4 * rows.len()) as nat,
        |k: int|
            {
                let i = k / 4;
                if k % 4 == 0 {
                    rows[i].on_zero.output
                } else if k % 4 == 1 {
                    spec_state_char(rows[i].on_zero.dest as int)
                } else if k % 4 == 2 {
                    rows[i].on_one.output
                } else {
                    spec_state_char(rows[i].on_one.dest as int)
                }
            },
    )
}

/// A table has exactly one chromosome: whatever `encodes` relates to it is
/// `encoding_of` it.
pub proof fn lemma_encodes_is_encoding_of(rows: Seq<StateRow>, s: Seq<char>)
    requires
        encodes(rows, s),
    ensures
        s == encoding_of(rows),
{
    assert forall|k: int| 0 <= k < s.len() implies s[k] == encoding_of(rows)[k] by {
        let i = k / 4;
        assert(k == 4 * i + k % 4);
        assert(row_encodes(rows[i], s, i));
    }
    assert(s =~= encoding_of(rows));
}

/// Relies on std's String::push: appends exactly the one given character.
#[verifier::external_body]
pub(crate) fn push_char(s: &mut String, c: char)
    ensures
        final(s)@ == old(s)@.push(c),
{
    s.push(c)
}

/// The single-point crossover of two parents at `split`: the first parent's
/// characters below the split followed by the second parent's characters
/// from the split on.
pub open spec fn combined(p1: Seq<char>, p2: Seq<char>, split: int) -> Seq<char> {
    p1.take(split) + p2.skip(split)
}

/// Crossing a chromosome with itself gives it back unchanged, whatever the
/// split point.
pub proof fn lemma_combined_identity(s: Seq<char>, split: int)
    requires
        0 <= split <= s.len(),
    ensures
        combined(s, s, split) == s,
{
    assert(combined(s, s, split) =~= s);
}

/// The deterministic heart of the crossover: glue `parent1` below `split`
/// to `parent2` from `split` on.  The split is character-indexed, not
/// state-aligned, so the child may take a partial four-character group from
/// each parent.
pub fn combine_at(parent1: &String, parent2: &String, split: usize) -> (r: String)
    requires
        parent1@.len() == parent2@.len(),
        split <= parent1@.len(),
    ensures
        r@ == combined(parent1@, parent2@, split as int),
        r@.len() == parent1@.len(),
{
    let len = parent1.as_str().unicode_len();
    let mut result = String::new();
    let mut i: usize = 0;
    while i < len
        invariant
            parent1@.len() == len,
            parent2@.len() == len,
            split <= len,
            i <= len,
            result@ == combined(parent1@, parent2@, split as int).take(i as int),
        decreases len - i,
    {
        let ch = if i < split {
            parent1.as_str().get_char(i)
        } else {
            parent2.as_str().get_char(i)
        };
        proof {
            let c = combined(parent1@, parent2@, split as int);
            assert(c[i as int] == ch);
            assert(c.take(i as int + 1) =~= c.take(i as int).push(ch));
        }
        push_char(&mut result, ch);
        i = i + 1;
    }
    proof {
        let c = combined(parent1@, parent2@, split as int);
        assert(c.take(len as int) =~= c);
    }
    result
}

/// Cross-breed two chromosomes at a split index drawn uniformly from the
/// parents' common length.  Parents of different lengths are refused.
pub fn random_combine(parent1: &String, parent2: &String) -> (r: Result<String, FlibError>)
    requires
        parent1@.len() > 0 || parent2@.len() > 0,
    ensures
        match r {
            Ok(c) => {
                &&& parent1@.len() == parent2@.len()
                &&& c@.len() == parent1@.len()
                &&& exists|split: int|
                    0 <= split < parent1@.len() && c@ == combined(parent1@, parent2@, split)
            },
            Err(e) => {
                &&& e == FlibError::IncompatibleChromosomeLength
                &&& parent1@.len() != parent2@.len()
            },
        },
{
    let len1 = parent1.as_str().unicode_len();
    let len2 = parent2.as_str().unicode_len();
    if len1 != len2 {
        return Err(FlibError::IncompatibleChromosomeLength);
    }
    let split = random_below(len1);
    Ok(combine_at(parent1, parent2, split))
}

/// The flipped form of a binary output symbol.
pub open spec fn flip_output(c: char) -> char {
    if c == '0' {
        '1'
    } else {
        '0'
    }
}

/// Mutate the chromosome at the given position.  An even position is an
/// output slot: its binary symbol is flipped, and any other character there
/// marks the chromosome malformed.  An odd position is a destination slot:
/// it is replaced by the letter of a state drawn uniformly from the state
/// count the length implies, possibly the old one.  A position beyond the
/// end changes nothing.
pub fn mutate_at_index(chromosome: &String, random_position: usize) -> (r: Result<
    String,
    FlibError,
>)
    requires
        random_position % 2 == 1 && random_position < chromosome@.len()
            ==> 1 <= chromosome@.len() as int / 4 <= 26,
    ensures
        match r {
            Ok(m) => {
                &&& m@.len() == chromosome@.len()
                &&& if random_position >= chromosome@.len() {
                    m@ == chromosome@
                } else if random_position % 2 == 0 {
                    &&& is_output_char(chromosome@[random_position as int])
                    &&& m@ == chromosome@.update(
                        random_position as int,
                        flip_output(chromosome@[random_position as int]),
                    )
                } else {
                    exists|d: int|
                        0 <= d < chromosome@.len() as int / 4 && m@ == chromosome@.update(
                            random_position as int,
                            spec_state_char(d),
                        )
                }
            },
            Err(e) => {
                &&& e == FlibError::MalformedChromosome
                &&& random_position < chromosome@.len()
                &&& random_position % 2 == 0
                &&& !is_output_char(chromosome@[random_position as int])
            },
        },
{
    let s = chromosome.as_str();
    let len = s.unicode_len();
    let mut replacement: char = '0';
    if random_position < len {
        if random_position % 2 == 0 {
            // An even index holds an output symbol: flip a 0 to 1 or vice versa.
            let ch = s.get_char(random_position);
            if ch == '0' {
                replacement = '1';
            } else if ch == '1' {
                replacement = '0';
            } else {
                return Err(FlibError::MalformedChromosome);
            }
        } else {
            // An odd index holds a destination label: pick a new state, without
            // checking whether it is the same as the old one.
            let num_states = len / 4;
            let new_state = random_below(num_states);
            replacement = state_to_char(new_state);
        }
    }
    let ghost target: Seq<char> = if random_position < chromosome@.len() {
        chromosome@.update(random_position as int, replacement)
    } else {
        chromosome@
    };
    let mut new_chromosome = String::new();
    let mut i: usize = 0;
    while i < len
        invariant
            chromosome@.len() == len,
            s@ == chromosome@,
            target.len() == len,
            i <= len,
            new_chromosome@ == target.take(i as int),
            random_position < len ==> target == chromosome@.update(
                random_position as int,
                replacement,
            ),
            random_position >= len ==> target == chromosome@,
        decreases len - i,
    {
        let ch = if i == random_position {
            replacement
        } else {
            s.get_char(i)
        };
        proof {
            assert(target[i as int] == ch);
            assert(target.take(i as int + 1) =~= target.take(i as int).push(ch));
        }
        push_char(&mut new_chromosome, ch);
        i = i + 1;
    }
    proof {
        assert(target.take(len as int) =~= target);
    }
    Ok(new_chromosome)
}

/// `m` is what one mutation at position `pos` can make of `s`: an even
/// (output) slot flipped, or an odd (destination) slot replaced by the
/// letter of some state below the count the length implies.
pub open spec fn is_mutation_of(m: Seq<char>, s: Seq<char>, pos: int) -> bool {
    &&& 0 <= pos < s.len()
    &&& if pos % 2 == 0 {
        m == s.update(pos, flip_output(s[pos]))
    } else {
        exists|d: int| 0 <= d < s.len() as int / 4 && m == s.update(pos, spec_state_char(d))
    }
}

/// Position `pos` of `s` is an output slot holding a non-binary character.
pub open spec fn bad_output_slot(s: Seq<char>, pos: int) -> bool {
    &&& 0 <= pos < s.len()
    &&& pos % 2 == 0
    &&& !is_output_char(s[pos])
}

/// What a well-formed table encodes is an acceptable chromosome: the codec
/// can always read back what it wrote.
pub proof fn lemma_encoded_ok(rows: Seq<StateRow>, s: Seq<char>)
    requires
        encodes(rows, s),
        rows_wf(rows, rows.len() as int),
        rows.len() <= 26,
    ensures
        chromosome_ok(s),
        s.len() as int / 4 == rows.len(),
{
    assert(s.len() == 4 * rows.len());
    assert forall|i: int| 0 <= i < s.len() as int / 4 implies #[trigger] group_ok(s, i) by {
        assert(row_encodes(rows[i], s, i));
        assert(row_wf(rows[i], rows.len() as int));
        assert(spec_char_state(spec_state_char(rows[i].on_zero.dest as int)) == rows[i].on_zero.dest as int);
        assert(spec_char_state(spec_state_char(rows[i].on_one.dest as int)) == rows[i].on_one.dest as int);
    }
}

/// Crossing two acceptable chromosomes of one length gives an acceptable
/// chromosome of that length again, wherever the split falls.
pub proof fn lemma_combined_ok(a: Seq<char>, b: Seq<char>, split: int)
    requires
        chromosome_ok(a),
        chromosome_ok(b),
        a.len() == b.len(),
        0 <= split <= a.len(),
    ensures
        chromosome_ok(combined(a, b, split)),
        combined(a, b, split).len() == a.len(),
{
    let c = combined(a, b, split);
    assert(c.len() == a.len());
    assert forall|i: int| 0 <= i < c.len() as int / 4 implies #[trigger] group_ok(c, i) by {
        assert(group_ok(a, i));
        assert(group_ok(b, i));
        assert(c[4 * i] == if 4 * i < split { a[4 * i] } else { b[4 * i] });
        assert(c[4 * i + 1] == if 4 * i + 1 < split { a[4 * i + 1] } else { b[4 * i + 1] });
        assert(c[4 * i + 2] == if 4 * i + 2 < split { a[4 * i + 2] } else { b[4 * i + 2] });
        assert(c[4 * i + 3] == if 4 * i + 3 < split { a[4 * i + 3] } else { b[4 * i + 3] });
    }
}

/// An acceptable chromosome has a binary symbol in every output slot, so a
/// mutation can never stumble on a malformed one.
pub proof fn lemma_ok_has_no_bad_output_slot(s: Seq<char>)
    requires
        chromosome_ok(s),
    ensures
        forall|pos: int| !(#[trigger] bad_output_slot(s, pos)),
{
    assert forall|pos: int| !(#[trigger] bad_output_slot(s, pos)) by {
        if 0 <= pos < s.len() && pos % 2 == 0 {
            let g = pos / 4;
            assert(pos == 4 * g + pos % 4);
            assert(group_ok(s, g));
            assert(pos % 4 == 0 || pos % 4 == 2);
        }
    }
}

/// Mutating an acceptable chromosome gives an acceptable chromosome: a flip
/// keeps the output slot binary, and a fresh destination letter stays below
/// the state count.
pub proof fn lemma_mutation_ok(s: Seq<char>, m: Seq<char>, pos: int)
    requires
        chromosome_ok(s),
        is_mutation_of(m, s, pos),
    ensures
        chromosome_ok(m),
        m.len() == s.len(),
{
    assert(m.len() == s.len());
    let g = pos / 4;
    assert(pos == 4 * g + pos % 4);
    assert(group_ok(s, g));
    if pos % 2 == 1 {
        let d = choose|d: int|
            0 <= d < s.len() as int / 4 && m == s.update(pos, spec_state_char(d));
        assert(spec_char_state(spec_state_char(d)) == d);
        assert(is_dest_char(m[pos], m.len() as int / 4));
    } else {
        assert(pos % 4 == 0 || pos % 4 == 2);
        assert(is_output_char(s[pos]));
        assert(is_output_char(m[pos]));
    }
    assert forall|i: int| 0 <= i < m.len() as int / 4 implies #[trigger] group_ok(m, i) by {
        assert(group_ok(s, i));
        assert(4 * i + 3 < s.len());
    }
}

/// The codec round trip: a chromosome fully determines the transition table
/// it encodes, so decoding what a table was encoded to gives that same
/// table back.
pub proof fn lemma_chromosome_determines_table(a: Seq<StateRow>, b: Seq<StateRow>, s: Seq<char>)
    requires
        encodes(a, s),
        encodes(b, s),
        rows_wf(a, a.len() as int),
        rows_wf(b, b.len() as int),
        a.len() <= 26,
        b.len() <= 26,
    ensures
        a == b,
{
    assert(a.len() == b.len());
    assert forall|i: int| 0 <= i < a.len() implies a[i] == b[i] by {
        assert(row_encodes(a[i], s, i));
        assert(row_encodes(b[i], s, i));
        assert(row_wf(a[i], a.len() as int));
        assert(row_wf(b[i], b.len() as int));
        assert(spec_char_state(spec_state_char(a[i].on_zero.dest as int)) == a[i].on_zero.dest as int);
        assert(spec_char_state(spec_state_char(b[i].on_zero.dest as int)) == b[i].on_zero.dest as int);
        assert(spec_char_state(spec_state_char(a[i].on_one.dest as int)) == a[i].on_one.dest as int);
        assert(spec_char_state(spec_state_char(b[i].on_one.dest as int)) == b[i].on_one.dest as int);
        assert(a[i].on_zero.dest == b[i].on_zero.dest);
        assert(a[i].on_one.dest == b[i].on_one.dest);
    }
    assert(a =~= b);
}

/// Mutate a chromosome at one position drawn uniformly from its length.
pub fn mutate(chromosome: &String) -> (r: Result<String, FlibError>)
    requires
        chromosome@.len() > 0,
        chromosome@.len() % 4 == 0,
        chromosome@.len() as int / 4 <= 26,
    ensures
        match r {
            Ok(m) => {
                &&& m@.len() == chromosome@.len()
                &&& exists|pos: int| #[trigger] is_mutation_of(m@, chromosome@, pos)
            },
            Err(e) => {
                &&& e == FlibError::MalformedChromosome
                &&& exists|pos: int| #[trigger] bad_output_slot(chromosome@, pos)
            },
        },
{
    let random_position = random_below(chromosome.as_str().unicode_len());
    let result = mutate_at_index(chromosome, random_position);
    match result {
        Ok(m) => {
            proof {
                assert(is_mutation_of(m@, chromosome@, random_position as int));
            }
            Ok(m)
        },
        Err(e) => {
            proof {
                assert(bad_output_slot(chromosome@, random_position as int));
            }
            Err(e)
        },
    }
}

} // verus!
