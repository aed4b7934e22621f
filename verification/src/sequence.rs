//! Searching for byte sequences.
use vstd::prelude::*;

verus! {

/// `sequence` stands in `all` at position `at`.
pub open spec fn occurs_at(all: Seq<u8>, sequence: Seq<u8>, at: int) -> bool {
    &&& 0 <= at
    &&& at + sequence.len() <= all.len()
    &&& all.subrange(at, at + sequence.len()) == sequence
}

/// `at` is the smallest position at which `sequence` stands in `all`.
pub open spec fn first_occurs_at(all: Seq<u8>, sequence: Seq<u8>, at: int) -> bool {
    &&& occurs_at(all, sequence, at)
    &&& forall|before: int| before < at ==> !#[trigger] occurs_at(all, sequence, before)
}

/// The smallest position at which `sequence` stands in `all`, if it stands there at all.
pub open spec fn first_occurrence(all: Seq<u8>, sequence: Seq<u8>) -> Option<int> {
    if exists|at: int| first_occurs_at(all, sequence, at) {
        Some(choose|at: int| first_occurs_at(all, sequence, at))
    } else {
        None
    }
}

/// There is at most one first occurrence.
pub proof fn lemma_first_occurrence_at(all: Seq<u8>, sequence: Seq<u8>, at: int)
    requires
        first_occurs_at(all, sequence, at),
    ensures
        first_occurrence(all, sequence) == Some(at),
{
    let chosen = choose|at: int| first_occurs_at(all, sequence, at);
    assert(first_occurs_at(all, sequence, chosen));
    if chosen < at {
        assert(!occurs_at(all, sequence, chosen));
    }
    if at < chosen {
        assert(!occurs_at(all, sequence, at));
    }
}

/// Where a sequence stands, there is a first place where it stands, no later than that.
pub proof fn lemma_occurrence_has_first(all: Seq<u8>, sequence: Seq<u8>, at: int)
    requires
        occurs_at(all, sequence, at),
    ensures
        first_occurrence(all, sequence) is Some,
        first_occurs_at(all, sequence, first_occurrence(all, sequence)->0),
        first_occurrence(all, sequence)->0 <= at,
    decreases at,
{
    if exists|before: int| before < at && occurs_at(all, sequence, before) {
        let before = choose|before: int| before < at && occurs_at(all, sequence, before);
        lemma_occurrence_has_first(all, sequence, before);
    } else {
        assert(first_occurs_at(all, sequence, at));
        lemma_first_occurrence_at(all, sequence, at);
    }
}

/// A sequence that stands nowhere has no first occurrence.
pub proof fn lemma_no_occurrence(all: Seq<u8>, sequence: Seq<u8>)
    requires
        forall|at: int| !#[trigger] occurs_at(all, sequence, at),
    ensures
        first_occurrence(all, sequence) is None,
{
    if exists|at: int| first_occurs_at(all, sequence, at) {
        let at = choose|at: int| first_occurs_at(all, sequence, at);
        assert(occurs_at(all, sequence, at));
    }
}

/// The position of the first occurrence of `sequence` in `all`.
pub fn find_first(all: &[u8], sequence: &[u8]) -> (position: Option<usize>)
    requires
        sequence@.len() > 0,
    ensures
        match position {
            Some(at) => first_occurs_at(all@, sequence@, at as int) && first_occurrence(
                all@,
                sequence@,
            ) == Some(at as int),
            None => first_occurrence(all@, sequence@) is None && forall|at: int|
                !#[trigger] occurs_at(all@, sequence@, at),
        },
{
    let end: usize = all.len();
    let mut at: usize = 0;
    while sequence.len() <= end - at
        invariant
            sequence@.len() > 0,
            end == all@.len(),
            at <= end,
            forall|before: int| before < at ==> !#[trigger] occurs_at(all@, sequence@, before),
        decreases all@.len() - at,
    {
        let mut matched: usize = 0;
        while matched < sequence.len() && all[at + matched] == sequence[matched]
            invariant
                matched <= sequence@.len(),
                at + sequence@.len() <= end,
                end == all@.len(),
                forall|i: int| 0 <= i < matched ==> all@[at + i] == #[trigger] sequence@[i],
            decreases sequence@.len() - matched,
        {
            matched = matched + 1;
        }
        if matched == sequence.len() {
            proof {
                assert(all@.subrange(at as int, at + sequence@.len()) =~= sequence@);
                lemma_first_occurrence_at(all@, sequence@, at as int);
            }
            return Some(at);
        }
        proof {
            let window = all@.subrange(at as int, at + sequence@.len());
            assert(window[matched as int] != sequence@[matched as int]);
        }
        at = at + 1;
    }
    proof {
        assert forall|i: int| !#[trigger] occurs_at(all@, sequence@, i) by {}
        lemma_no_occurrence(all@, sequence@);
    }
    None
}

/// The first occurrence is where the sequence stands, byte for byte, and does not stand before. There
/// is none if the sequence stands nowhere.
pub proof fn law_first_occurrence_is_the_first(all: Seq<u8>, sequence: Seq<u8>, at: int)
    ensures
        first_occurrence(all, sequence) == Some(at) <==> {
            &&& 0 <= at <= all.len() - sequence.len()
            &&& all.subrange(at, at + sequence.len()) == sequence
            &&& forall|i: int|
                0 <= i < at ==> #[trigger] all.subrange(i, i + sequence.len()) != sequence
        },
        first_occurrence(all, sequence) is None <==> forall|i: int|
            0 <= i <= all.len() - sequence.len() ==> #[trigger] all.subrange(i, i + sequence.len())
                != sequence,
{
    if 0 <= at <= all.len() - sequence.len() && all.subrange(at, at + sequence.len()) == sequence && (
    forall|i: int| 0 <= i < at ==> #[trigger] all.subrange(i, i + sequence.len()) != sequence) {
        assert(first_occurs_at(all, sequence, at));
        lemma_first_occurrence_at(all, sequence, at);
    }
    if first_occurrence(all, sequence) is Some {
        let first = choose|at: int| first_occurs_at(all, sequence, at);
        assert(first_occurs_at(all, sequence, first));
        assert forall|i: int| 0 <= i < first implies #[trigger] all.subrange(i, i + sequence.len())
            != sequence by {
            assert(!occurs_at(all, sequence, i));
        }
    } else {
        assert forall|i: int| 0 <= i <= all.len() - sequence.len() implies #[trigger] all.subrange(
            i,
            i + sequence.len(),
        ) != sequence by {
            if occurs_at(all, sequence, i) {
                lemma_occurrence_has_first(all, sequence, i);
            }
        }
    }
}

} // verus!
