//! Directory names with a count at the end, written `_(<n>)`, and the name to try after a
//! collision.

use vstd::prelude::*;
use vstd::slice::slice_subrange;
use crate::decimal::{decimal_text, decimal_value, is_ascii_digit, is_digit, is_digits, successor};
use crate::text::{from_chars, push_all, to_chars};

verus! {

/// Where the run of digits that ends just before position `end` begins.
pub open spec fn digit_run_start(s: Seq<char>, end: int) -> int
    decreases end,
{
    if 0 < end <= s.len() && is_digit(s[end - 1]) {
        digit_run_start(s, end - 1)
    } else {
        end
    }
}

/// `name` is `base` followed by `_(`, the numeral `digits` and `)`.
pub open spec fn is_numbered(name: Seq<char>, base: Seq<char>, digits: Seq<char>) -> bool {
    &&& digits.len() >= 1
    &&& is_digits(digits)
    &&& name == base + seq!['_', '('] + digits + seq![')']
}

/// `base` with the count `n` at its end.
pub open spec fn numbered(base: Seq<char>, n: nat) -> Seq<char> {
    base + seq!['_', '('] + decimal_text(n) + seq![')']
}

/// The base and the numeral of a name that ends in a count, if it does.
pub open spec fn numeric_suffix(name: Seq<char>) -> Option<(Seq<char>, Seq<char>)> {
    let n = name.len() as int;
    let start = digit_run_start(name, n - 1);
    let found = {
        &&& n >= 1
        &&& name[n - 1] == ')'
        &&& 2 <= start < n - 1
        &&& name[start - 1] == '('
        &&& name[start - 2] == '_'
    };
    if found {
        Some((name.subrange(0, start - 2), name.subrange(start, n - 1)))
    } else {
        None
    }
}

/// The name to try once `name` is found to be taken: the count at its end is raised by one, and
/// a name without a count gets the count one.
pub open spec fn spec_next_candidate(name: Seq<char>) -> Seq<char> {
    match numeric_suffix(name) {
        Some((base, digits)) => numbered(base, decimal_value(digits) + 1),
        None => numbered(name, 1),
    }
}

/// The run found by `digit_run_start` holds digits only and cannot be extended to the left.
pub proof fn lemma_digit_run(s: Seq<char>, end: int)
    requires
        0 <= end <= s.len(),
    ensures
        0 <= digit_run_start(s, end) <= end,
        forall|i: int| digit_run_start(s, end) <= i < end ==> is_digit(#[trigger] s[i]),
        digit_run_start(s, end) > 0 ==> !is_digit(s[digit_run_start(s, end) - 1]),
    decreases end,
{
    if 0 < end && is_digit(s[end - 1]) {
        lemma_digit_run(s, end - 1);
    }
}

/// A run of digits that cannot be extended to the left is the one `digit_run_start` finds.
pub proof fn lemma_digit_run_unique(s: Seq<char>, start: int, end: int)
    requires
        0 <= start <= end <= s.len(),
        forall|i: int| start <= i < end ==> is_digit(#[trigger] s[i]),
        start > 0 ==> !is_digit(s[start - 1]),
    ensures
        digit_run_start(s, end) == start,
    decreases end - start,
{
    if start < end {
        lemma_digit_run_unique(s, start, end - 1);
    }
}

/// A name ends in a count in one way at most, and `numeric_suffix` finds it.
pub proof fn lemma_numeric_suffix(name: Seq<char>, base: Seq<char>, digits: Seq<char>)
    ensures
        is_numbered(name, base, digits) <==> numeric_suffix(name) == Some((base, digits)),
{
    let n = name.len() as int;
    if is_numbered(name, base, digits) {
        let start = base.len() as int + 2;
        assert forall|i: int| start <= i < n - 1 implies is_digit(#[trigger] name[i]) by {
            assert(name[i] == digits[i - start]);
        }
        assert(name[start - 1] == '(' && name[start - 2] == '_');
        lemma_digit_run_unique(name, start, n - 1);
        assert(name.subrange(0, start - 2) =~= base);
        assert(name.subrange(start, n - 1) =~= digits);
    }
    if numeric_suffix(name) == Some((base, digits)) {
        lemma_digit_run(name, n - 1);
        assert(name =~= base + seq!['_', '('] + digits + seq![')']);
    }
}

/// Where the numeral of the count at the end of `name` begins, if `name` ends in a count.
fn find_count(name: &[char]) -> (found: Option<usize>)
    ensures
        match found {
            Some(start) => {
                &&& 2 <= start < name@.len() - 1
                &&& is_digits(name@.subrange(start as int, name@.len() - 1))
                &&& numeric_suffix(name@) == Some(
                    (name@.subrange(0, start - 2), name@.subrange(start as int, name@.len() - 1)),
                )
            },
            None => numeric_suffix(name@) is None,
        },
{
    let n = name.len();
    if n == 0 || name[n - 1] != ')' {
        return None;
    }
    let mut start: usize = n - 1;
    while start > 0 && is_ascii_digit(name[start - 1])
        invariant
            start <= n - 1,
            n == name@.len(),
            digit_run_start(name@, n - 1) == digit_run_start(name@, start as int),
        decreases start,
    {
        start -= 1;
    }
    proof {
        lemma_digit_run(name@, n - 1);
    }
    if 2 <= start && start < n - 1 && name[start - 1] == '(' && name[start - 2] == '_' {
        Some(start)
    } else {
        None
    }
}

/// The name to try once `name` is found to be taken.
pub fn next_candidate(name: &str) -> (next: String)
    ensures
        next@ == spec_next_candidate(name@),
{
    let chars = to_chars(name);
    let n = chars.len();
    let mut out: Vec<char> = Vec::new();
    match find_count(chars.as_slice()) {
        Some(start) => {
            push_all(&mut out, slice_subrange(chars.as_slice(), 0, start - 2));
            out.push('_');
            out.push('(');
            let raised = successor(slice_subrange(chars.as_slice(), start, n - 1));
            push_all(&mut out, raised.as_slice());
            out.push(')');
            proof {
                let base = chars@.subrange(0, start - 2);
                let digits = chars@.subrange(start as int, n - 1);
                assert(out@ =~= numbered(base, decimal_value(digits) + 1));
            }
        },
        None => {
            push_all(&mut out, chars.as_slice());
            out.push('_');
            out.push('(');
            out.push('1');
            out.push(')');
            proof {
                assert(decimal_text(1) =~= seq!['1']);
                assert(out@ =~= numbered(chars@, 1));
            }
        },
    }
    from_chars(&out)
}

} // verus!
