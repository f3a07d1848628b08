//! Finding a directory name that is not taken yet.
//!
//! The allocator never looks whether a name is free before it asks for the directory: the
//! caller tries to create the candidate, which either succeeds or reports that the name is
//! taken, and the allocator answers with what to do next. One candidate follows the other in a
//! loop, so a long run of collisions costs time and no stack.
//!
//! Not safe between processes: two of them that allocate under the same desired name at the
//! same time each get a directory of their own, but which name each gets is not fixed, and the
//! laws below speak of one allocation against names that stay as they are.

use vstd::prelude::*;
use crate::candidate::{is_numbered, next_candidate, numbered, numeric_suffix, spec_next_candidate};
use crate::candidate::lemma_numeric_suffix;
use crate::decimal::{decimal_text, decimal_value, lemma_text_is_canonical, lemma_value_of_text};
use crate::error::{UnwrapError, UnwrapErrorView};

verus! {

/// What an attempt to create the candidate directory came to.
#[derive(Clone, Debug, PartialEq, Eq)]
pub enum CreateOutcome {
    /// The directory is new and belongs to the caller.
    Created,
    /// Something of that name exists already.
    AlreadyExists,
    /// The directory could not be created for another reason.
    Failed(String),
}

/// An allocation under way: the name that is to be tried next.
#[derive(Clone, Debug, PartialEq, Eq)]
pub struct Allocation {
    candidate: String,
}

/// What to do after an attempt.
#[derive(Clone, Debug, PartialEq, Eq)]
pub enum AllocationStep {
    /// The destination is the directory of this name.
    Done(String),
    /// Try to create the candidate of this allocation.
    Retry(Allocation),
    /// Give the item up.
    Failed(UnwrapError),
}

impl View for Allocation {
    type V = Seq<char>;

    closed spec fn view(&self) -> Seq<char> {
        self.candidate@
    }
}

impl Allocation {
    /// Starts with the desired name itself.
    pub fn begin(desired: &str) -> (allocation: Allocation)
        ensures
            allocation@ == desired@,
    {
        Allocation { candidate: desired.to_owned() }
    }

    /// The name to try to create.
    pub fn candidate(&self) -> (name: &str)
        ensures
            name@ == self@,
    {
        self.candidate.as_str()
    }

    /// Takes the outcome of the attempt to create `self.candidate()`: a created directory is
    /// the destination, a taken name leads to the next candidate, and any other failure ends
    /// the allocation.
    pub fn resolve(self, outcome: CreateOutcome) -> (step: AllocationStep)
        ensures
            match outcome {
                CreateOutcome::Created => step matches AllocationStep::Done(path) && path@
                    == self@,
                CreateOutcome::AlreadyExists => step matches AllocationStep::Retry(next)
                    && next@ == spec_next_candidate(self@),
                CreateOutcome::Failed(reason) => step matches AllocationStep::Failed(error)
                    && error@ == (UnwrapErrorView::DestinationAllocation { reason: reason@ }),
            },
    {
        match outcome {
            CreateOutcome::Created => AllocationStep::Done(self.candidate),
            CreateOutcome::AlreadyExists => AllocationStep::Retry(
                Allocation { candidate: next_candidate(self.candidate.as_str()) },
            ),
            CreateOutcome::Failed(reason) => AllocationStep::Failed(
                UnwrapError::DestinationAllocation { reason },
            ),
        }
    }
}

/// The name tried after `i` collisions, starting from `desired`.
pub open spec fn candidate_at(desired: Seq<char>, i: nat) -> Seq<char>
    decreases i,
{
    if i == 0 {
        desired
    } else {
        spec_next_candidate(candidate_at(desired, (i - 1) as nat))
    }
}

/// With exactly the names in `taken` in use, the allocation for `desired` collides `i` times
/// and then creates its candidate.
pub open spec fn settles_at(taken: Set<Seq<char>>, desired: Seq<char>, i: nat) -> bool {
    &&& !taken.contains(candidate_at(desired, i))
    &&& forall|j: nat| j < i ==> taken.contains(#[trigger] candidate_at(desired, j))
}

/// How often the allocation for `desired` collides while the names in `taken` are in use.
pub open spec fn collisions(taken: Set<Seq<char>>, desired: Seq<char>) -> nat {
    choose|i: nat| settles_at(taken, desired, i)
}

/// The directory that the allocation for `desired` creates while the names in `taken` are in
/// use.
pub open spec fn allocated(taken: Set<Seq<char>>, desired: Seq<char>) -> Seq<char> {
    candidate_at(desired, collisions(taken, desired))
}

/// The candidate after a name with the count `k` is the same base with the count `k + 1`.
pub proof fn lemma_next_of_numbered(base: Seq<char>, k: nat)
    ensures
        spec_next_candidate(numbered(base, k)) == numbered(base, k + 1),
{
    lemma_text_is_canonical(k);
    lemma_value_of_text(k);
    lemma_numeric_suffix(numbered(base, k), base, decimal_text(k));
}

/// Two names with different counts differ.
pub proof fn lemma_numbered_distinct(base: Seq<char>, j: nat, k: nat)
    requires
        j != k,
    ensures
        numbered(base, j) != numbered(base, k),
{
    lemma_text_is_canonical(j);
    lemma_text_is_canonical(k);
    lemma_value_of_text(j);
    lemma_value_of_text(k);
    lemma_numeric_suffix(numbered(base, j), base, decimal_text(j));
    lemma_numeric_suffix(numbered(base, k), base, decimal_text(k));
}

/// From a name that ends in no count, `m` collisions lead to that name with the count `m`.
pub proof fn lemma_unnumbered_candidates(desired: Seq<char>, m: nat)
    requires
        numeric_suffix(desired) is None,
        m >= 1,
    ensures
        candidate_at(desired, m) == numbered(desired, m),
    decreases m,
{
    if m == 1 {
        assert(candidate_at(desired, 0) == desired);
    } else {
        lemma_unnumbered_candidates(desired, (m - 1) as nat);
        lemma_next_of_numbered(desired, (m - 1) as nat);
    }
}

/// From a name that ends in the numeral `digits`, `m` collisions lead to the same base with
/// the count raised by `m`.
pub proof fn lemma_numbered_candidates(
    desired: Seq<char>,
    base: Seq<char>,
    digits: Seq<char>,
    m: nat,
)
    requires
        is_numbered(desired, base, digits),
        m >= 1,
    ensures
        candidate_at(desired, m) == numbered(base, decimal_value(digits) + m),
    decreases m,
{
    if m == 1 {
        assert(candidate_at(desired, 0) == desired);
        lemma_numeric_suffix(desired, base, digits);
    } else {
        lemma_numbered_candidates(desired, base, digits, (m - 1) as nat);
        lemma_next_of_numbered(base, (decimal_value(digits) + m - 1) as nat);
    }
}

/// No candidate is tried twice.
pub proof fn lemma_candidates_distinct(desired: Seq<char>, i: nat, j: nat)
    requires
        i < j,
    ensures
        candidate_at(desired, i) != candidate_at(desired, j),
{
    match numeric_suffix(desired) {
        None => {
            lemma_unnumbered_candidates(desired, j);
            if i == 0 {
                assert(numbered(desired, j).len() > desired.len());
            } else {
                lemma_unnumbered_candidates(desired, i);
                lemma_numbered_distinct(desired, i, j);
            }
        },
        Some((base, digits)) => {
            lemma_numeric_suffix(desired, base, digits);
            let k = decimal_value(digits);
            lemma_numbered_candidates(desired, base, digits, j);
            if i == 0 {
                if desired == numbered(base, k + j) {
                    lemma_text_is_canonical(k + j);
                    lemma_value_of_text(k + j);
                    lemma_numeric_suffix(desired, base, decimal_text(k + j));
                }
            } else {
                lemma_numbered_candidates(desired, base, digits, i);
                lemma_numbered_distinct(base, k + i, k + j);
            }
        },
    }
}

/// If the first `n` candidates are all taken, at least `n` names are taken.
pub proof fn lemma_taken_candidates(taken: Set<Seq<char>>, desired: Seq<char>, n: nat)
    requires
        taken.finite(),
        forall|j: nat| j < n ==> taken.contains(#[trigger] candidate_at(desired, j)),
    ensures
        n <= taken.len(),
    decreases n,
{
    if n > 0 {
        let last = candidate_at(desired, (n - 1) as nat);
        let rest = taken.remove(last);
        assert forall|j: nat| j < n - 1 implies rest.contains(
            #[trigger] candidate_at(desired, j),
        ) by {
            lemma_candidates_distinct(desired, j, (n - 1) as nat);
        }
        lemma_taken_candidates(rest, desired, (n - 1) as nat);
    }
}

/// If the candidate after `bound` collisions is free, the allocation settles after `bound`
/// collisions at most.
pub proof fn lemma_settles_by(taken: Set<Seq<char>>, desired: Seq<char>, bound: nat)
    requires
        !taken.contains(candidate_at(desired, bound)),
    ensures
        settles_at(taken, desired, collisions(taken, desired)),
        collisions(taken, desired) <= bound,
    decreases bound,
{
    if forall|j: nat| j < bound ==> taken.contains(#[trigger] candidate_at(desired, j)) {
        assert(settles_at(taken, desired, bound));
        lemma_settles_once(taken, desired, bound, collisions(taken, desired));
    } else {
        let j = choose|j: nat| j < bound && !taken.contains(#[trigger] candidate_at(desired, j));
        lemma_settles_by(taken, desired, j);
    }
}

/// Among finitely many taken names the allocation comes to an end: after some number of
/// collisions, no more than there are taken names, its candidate is free.
pub proof fn lemma_allocation_settles(taken: Set<Seq<char>>, desired: Seq<char>)
    requires
        taken.finite(),
    ensures
        settles_at(taken, desired, collisions(taken, desired)),
        collisions(taken, desired) <= taken.len(),
        !taken.contains(allocated(taken, desired)),
{
    if forall|j: nat| j <= taken.len() ==> taken.contains(#[trigger] candidate_at(desired, j)) {
        lemma_taken_candidates(taken, desired, taken.len() + 1);
    } else {
        let j = choose|j: nat|
            j <= taken.len() && !taken.contains(#[trigger] candidate_at(desired, j));
        lemma_settles_by(taken, desired, j);
    }
}

/// The allocation settles after one number of collisions only.
pub proof fn lemma_settles_once(taken: Set<Seq<char>>, desired: Seq<char>, i: nat, j: nat)
    requires
        settles_at(taken, desired, i),
        settles_at(taken, desired, j),
    ensures
        i == j,
{
    if i < j {
        assert(taken.contains(candidate_at(desired, i)));
    }
    if j < i {
        assert(taken.contains(candidate_at(desired, j)));
    }
}

/// A desired name that is not taken is created as it is, without a collision.
pub proof fn lemma_free_name_is_kept(taken: Set<Seq<char>>, desired: Seq<char>)
    requires
        !taken.contains(desired),
    ensures
        collisions(taken, desired) == 0,
        allocated(taken, desired) == desired,
{
    lemma_settles_by(taken, desired, 0);
}

/// For a taken name that ends in no count, the allocation creates the name with the smallest
/// count from one up that is not taken, provided there is such a count.
pub proof fn lemma_taken_name_gets_smallest_count(taken: Set<Seq<char>>, desired: Seq<char>)
    requires
        taken.contains(desired),
        numeric_suffix(desired) is None,
        exists|free: nat| free >= 1 && !taken.contains(#[trigger] numbered(desired, free)),
    ensures
        ({
            let n = collisions(taken, desired);
            &&& n >= 1
            &&& allocated(taken, desired) == numbered(desired, n)
            &&& !taken.contains(numbered(desired, n))
            &&& forall|m: nat| 1 <= m < n ==> taken.contains(#[trigger] numbered(desired, m))
        }),
{
    let free = choose|free: nat| free >= 1 && !taken.contains(#[trigger] numbered(desired, free));
    lemma_unnumbered_candidates(desired, free);
    lemma_settles_by(taken, desired, free);
    let n = collisions(taken, desired);
    assert(candidate_at(desired, 0) == desired);
    lemma_unnumbered_candidates(desired, n);
    assert forall|m: nat| 1 <= m < n implies taken.contains(#[trigger] numbered(desired, m)) by {
        lemma_unnumbered_candidates(desired, m);
        assert(taken.contains(candidate_at(desired, m)));
    }
}

/// For a taken name that ends in the count `k`, the allocation creates the same base with the
/// smallest count above `k` that is not taken, provided there is such a count, and never the
/// taken name itself.
pub proof fn lemma_taken_count_is_raised(
    taken: Set<Seq<char>>,
    desired: Seq<char>,
    base: Seq<char>,
    digits: Seq<char>,
)
    requires
        taken.contains(desired),
        is_numbered(desired, base, digits),
        exists|free: nat|
            free >= 1 && !taken.contains(
                #[trigger] numbered(base, decimal_value(digits) + free),
            ),
    ensures
        ({
            let k = decimal_value(digits);
            let n = collisions(taken, desired);
            &&& n >= 1
            &&& allocated(taken, desired) == numbered(base, k + n)
            &&& allocated(taken, desired) != desired
            &&& !taken.contains(numbered(base, k + n))
            &&& forall|m: nat| 1 <= m < n ==> taken.contains(#[trigger] numbered(base, k + m))
        }),
{
    let k = decimal_value(digits);
    let free = choose|free: nat|
        free >= 1 && !taken.contains(#[trigger] numbered(base, decimal_value(digits) + free));
    lemma_numbered_candidates(desired, base, digits, free);
    lemma_settles_by(taken, desired, free);
    let n = collisions(taken, desired);
    assert(candidate_at(desired, 0) == desired);
    lemma_numbered_candidates(desired, base, digits, n);
    assert forall|m: nat| 1 <= m < n implies taken.contains(#[trigger] numbered(base, k + m)) by {
        lemma_numbered_candidates(desired, base, digits, m);
        assert(taken.contains(candidate_at(desired, m)));
    }
}

/// Among finitely many taken names some count is free for every base.
pub proof fn lemma_some_count_is_free(taken: Set<Seq<char>>, base: Seq<char>, above: nat)
    requires
        taken.finite(),
    ensures
        exists|free: nat| free >= 1 && !taken.contains(#[trigger] numbered(base, above + free)),
{
    let start = numbered(base, above);
    lemma_allocation_settles(taken.insert(start), start);
    let n = collisions(taken.insert(start), start);
    lemma_text_is_canonical(above);
    lemma_value_of_text(above);
    assert(candidate_at(start, 0) == start);
    assert(is_numbered(start, base, decimal_text(above)));
    lemma_numbered_candidates(start, base, decimal_text(above), n);
    assert(!taken.contains(numbered(base, above + n)));
}

} // verus!
