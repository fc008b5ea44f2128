//! Identifier extraction from filenames.
//!
//! A filename carries an identifier exactly when it starts with the literal
//! prefix `shutterstock_` and at least one decimal digit follows immediately;
//! the identifier is the whole digit run after the prefix, kept as text
//! (leading zeros are significant). The rule looks only at the start of the
//! string: the pattern occurring later never matches, and the prefix is
//! matched case-sensitively.

use vstd::prelude::*;

verus! {

/// The fixed filename prefix that announces an identifier.
pub open spec fn spec_prefix() -> Seq<char> {
    seq!['s', 'h', 'u', 't', 't', 'e', 'r', 's', 't', 'o', 'c', 'k', '_']
}

/// A decimal digit, `'0'` through `'9'`.
pub open spec fn is_digit(c: char) -> bool {
    '0' as int <= c as int && c as int <= '9' as int
}

/// The first position at or after `i` that ends the digit run starting at
/// `i`: either the end of the string or the first non-digit character.
pub open spec fn digit_run_end(s: Seq<char>, i: int) -> int
    decreases s.len() - i,
{
    if i < 0 || i >= s.len() || !is_digit(s[i]) {
        i
    } else {
        digit_run_end(s, i + 1)
    }
}

/// The identifier carried by the filename `name`, if any: `name` starts with
/// the prefix, a digit follows immediately, and the identifier is the maximal
/// digit run after the prefix.
pub open spec fn spec_extract(name: Seq<char>) -> Option<Seq<char>> {
    let p = spec_prefix().len() as int;
    if name.len() > spec_prefix().len() && name.subrange(0, p) == spec_prefix() && is_digit(
        name[p],
    ) {
        Some(name.subrange(p, digit_run_end(name, p)))
    } else {
        None
    }
}

/// The digit run starting at `i` ends exactly where digits stop: knowing that
/// everything in `[i, end)` is a digit and that `end` is the string's end or a
/// non-digit pins `digit_run_end` down.
pub proof fn lemma_digit_run_end_of(s: Seq<char>, i: int, end: int)
    requires
        0 <= i <= end <= s.len(),
        forall|j: int| i <= j < end ==> is_digit(s[j]),
        end == s.len() || !is_digit(s[end]),
    ensures
        digit_run_end(s, i) == end,
    decreases end - i,
{
    if i < end {
        lemma_digit_run_end_of(s, i + 1, end);
    }
}

/// Extraction is pure: the result is a function of the filename alone, so
/// equal filenames always yield equal results, whatever else has happened.
pub proof fn lemma_extract_deterministic(a: Seq<char>, b: Seq<char>)
    requires
        a == b,
    ensures
        spec_extract(a) == spec_extract(b),
{
}

fn char_is_digit(c: char) -> (r: bool)
    ensures
        r == is_digit(c),
{
    let v = c as u32;
    '0' as u32 <= v && v <= '9' as u32
}

/// The extraction rule, prepared once and reused across both scan passes.
/// It holds no state, so sharing it is safe.
pub struct Matcher {}

impl Matcher {
    pub fn new() -> (m: Matcher) {
        Matcher {}
    }

    /// The identifier in `test`, or `None` when `test` does not start with
    /// the prefix followed by at least one digit.
    pub fn image_number(&self, test: &str) -> (r: Option<String>)
        ensures
            r.deep_view() == spec_extract(test@),
    {
        let prefix = "shutterstock_";
        proof {
            reveal_strlit("shutterstock_");
            assert(prefix@ =~= spec_prefix());
        }
        let n = test.unicode_len();
        if n < 14 {
            return None;
        }
        let mut i: usize = 0;
        while i < 13
            invariant
                n == test@.len(),
                14 <= n,
                i <= 13,
                prefix@ =~= spec_prefix(),
                forall|j: int| 0 <= j < i ==> test@[j] == spec_prefix()[j],
            decreases 13 - i,
        {
            if test.get_char(i) != prefix.get_char(i) {
                proof {
                    assert(test@.subrange(0, 13)[i as int] == test@[i as int]);
                }
                return None;
            }
            i += 1;
        }
        proof {
            assert(test@.subrange(0, 13) =~= spec_prefix());
        }
        if !char_is_digit(test.get_char(13)) {
            return None;
        }
        let mut end: usize = 14;
        loop
            invariant
                n == test@.len(),
                14 <= end <= n,
                forall|j: int| 13 <= j < end ==> is_digit(test@[j]),
            ensures
                14 <= end <= n,
                forall|j: int| 13 <= j < end ==> is_digit(test@[j]),
                end == n || !is_digit(test@[end as int]),
            decreases n - end,
        {
            if end >= n {
                break;
            }
            if !char_is_digit(test.get_char(end)) {
                break;
            }
            end += 1;
        }
        proof {
            lemma_digit_run_end_of(test@, 13, end as int);
        }
        let sub = test.substring_char(13, end);
        Some(sub.to_owned())
    }
}

} // verus!
