//! Version numbers of git, as numbers that can be compared.

use crate::text::{chars_of, spec_split, spec_words, split, views, words};
use vstd::prelude::*;

verus! {

/// A decimal digit.
pub open spec fn is_digit(c: char) -> bool {
    48 <= c as u32 <= 57
}

/// The number that a decimal digit stands for.
pub open spec fn digit_value(c: char) -> nat {
    (c as u32 - 48) as nat
}

/// Every character of `s` is a decimal digit.
pub open spec fn all_digits(s: Seq<char>) -> bool {
    forall|i: int| 0 <= i < s.len() ==> is_digit(#[trigger] s[i])
}

/// The number that a text of decimal digits stands for.
pub open spec fn digits_value(s: Seq<char>) -> nat
    decreases s.len(),
{
    if s.len() == 0 {
        0
    } else {
        digits_value(s.drop_last()) * 10 + digit_value(s.last())
    }
}

/// The number that `s` stands for: an optional plus sign, then at least one
/// decimal digit and nothing else; none if the number does not fit.
pub open spec fn spec_parse_u32(s: Seq<char>) -> Option<u32> {
    let digits = if s.len() > 0 && s[0] == '+' {
        s.skip(1)
    } else {
        s
    };
    if digits.len() > 0 && all_digits(digits) && digits_value(digits) <= u32::MAX {
        Some(digits_value(digits) as u32)
    } else {
        None
    }
}

/// The number that a part of a version counts as: what it stands for, or zero
/// where it is no number or is missing.
pub open spec fn part_value(parts: Seq<Seq<char>>, i: int) -> nat {
    if 0 <= i < parts.len() {
        match spec_parse_u32(parts[i]) {
            Some(v) => v as nat,
            None => 0,
        }
    } else {
        0
    }
}

/// The parts of a version: the texts between its dots.
pub open spec fn version_parts(version: Seq<char>) -> Seq<Seq<char>> {
    spec_split(version, seq!['.'])
}

/// A version as one number: its parts weighted by a thousand to the power of
/// three, two, one and zero.
pub open spec fn spec_version_number(version: Seq<char>) -> nat {
    let parts = version_parts(version);
    part_value(parts, 0) * 1_000_000_000 + part_value(parts, 1) * 1_000_000 + part_value(parts, 2)
        * 1_000 + part_value(parts, 3)
}

/// The versions that have a number: those of at most four parts whose number
/// fits the type.
pub open spec fn version_fits(version: Seq<char>) -> bool {
    version_parts(version).len() <= 4 && spec_version_number(version) <= u32::MAX
}

/// A longer text of digits stands for a number that is no smaller.
pub proof fn lemma_digits_value_grows(s: Seq<char>, k: int)
    requires
        0 <= k <= s.len(),
    ensures
        digits_value(s.take(k)) <= digits_value(s),
    decreases s.len() - k,
{
    if k < s.len() {
        lemma_digits_value_grows(s, k + 1);
        assert(s.take(k + 1).drop_last() =~= s.take(k));
    } else {
        assert(s.take(k) =~= s);
    }
}

/// Reads a number as the standard library's `parse::<u32>` does.
pub fn parse_u32(s: &str) -> (number: Option<u32>)
    ensures
        number == spec_parse_u32(s@),
{
    let chars = chars_of(s);
    let n: usize = chars.len();
    let start: usize = if n > 0 && chars[0] == '+' {
        1
    } else {
        0
    };
    let ghost digits = if s@.len() > 0 && s@[0] == '+' {
        s@.skip(1)
    } else {
        s@
    };
    if start == n {
        return None;
    }
    let mut acc: u64 = 0;
    let mut i: usize = start;
    assert(digits.take(0) =~= Seq::<char>::empty());
    while i < n
        invariant
            start <= i <= n,
            n == s@.len(),
            chars@ == s@,
            digits == s@.skip(start as int),
            digits == (if s@.len() > 0 && s@[0] == '+' {
                s@.skip(1)
            } else {
                s@
            }),
            digits.len() == n - start,
            start < n,
            acc == digits_value(digits.take(i - start)),
            acc <= u32::MAX,
            all_digits(digits.take(i - start)),
        decreases n - i,
    {
        let v: u32 = chars[i] as u32;
        assert(digits[i - start] == s@[i as int]);
        if v < 48 || v > 57 {
            assert(!is_digit(digits[i - start]));
            return None;
        }
        let next: u64 = acc * 10 + (v - 48) as u64;
        proof {
            assert(digits.take(i + 1 - start).drop_last() =~= digits.take(i - start));
            assert(digits.take(i + 1 - start).last() == digits[i - start]);
            assert(next == digits_value(digits.take(i + 1 - start)));
        }
        if next > u32::MAX as u64 {
            proof {
                lemma_digits_value_grows(digits, i + 1 - start);
            }
            return None;
        }
        assert(all_digits(digits.take(i + 1 - start))) by {
            assert forall|k: int| 0 <= k < i + 1 - start implies is_digit(
                #[trigger] digits.take(i + 1 - start)[k],
            ) by {
                if k < i - start {
                    assert(digits.take(i + 1 - start)[k] == digits.take(i - start)[k]);
                }
            }
        }
        acc = next;
        i += 1;
    }
    assert(digits.take(n - start) =~= digits);
    Some(acc as u32)
}

fn part_number(parts: &Vec<String>, i: usize) -> (value: u64)
    ensures
        value == part_value(views(parts@), i as int),
        value <= u32::MAX,
{
    if i < parts.len() {
        match parse_u32(parts[i].as_str()) {
            Some(v) => v as u64,
            None => 0,
        }
    } else {
        0
    }
}

/// The number of a version, or none where it has none.
pub fn checked_version_number(version: &str) -> (number: Option<u32>)
    ensures
        match number {
            Some(n) => version_fits(version@) && n == spec_version_number(version@),
            None => !version_fits(version@),
        },
{
    let parts = split(version, ".");
    proof {
        reveal_strlit(".");
        assert("."@ =~= seq!['.']);
    }
    if parts.len() > 4 {
        return None;
    }
    let total: u64 = part_number(&parts, 0) * 1_000_000_000 + part_number(&parts, 1) * 1_000_000
        + part_number(&parts, 2) * 1_000 + part_number(&parts, 3);
    if total > u32::MAX as u64 {
        None
    } else {
        Some(total as u32)
    }
}

/// Turns a version such as `2.18.0` into one number, so that versions can be
/// compared: each part counts a thousand times the part after it, and a part
/// that is no number counts as zero.
pub fn version_number(version: &str) -> (number: u32)
    requires
        version_fits(version@),
    ensures
        number == spec_version_number(version@),
{
    match checked_version_number(version) {
        Some(n) => n,
        None => 0,
    }
}

/// The version in what `git --version` prints: its third word, or the empty
/// text where it has fewer.
pub open spec fn spec_git_version(output: Seq<char>) -> Seq<char> {
    let found = spec_words(output);
    if found.len() > 2 {
        found[2]
    } else {
        Seq::empty()
    }
}

/// Takes the version out of what `git --version` printed.
pub fn git_version(output: &str) -> (version: String)
    ensures
        version@ == spec_git_version(output@),
{
    let found = words(output);
    if found.len() > 2 {
        found[2].clone()
    } else {
        String::new()
    }
}

/// The oldest version of git that will do: 2.18.0.
pub const MINIMUM_GIT_VERSION: u32 = 2_018_000_000;

/// Whether a version of git is recent enough; a version without a number is
/// not.
pub fn git_version_supported(version: &str) -> (ok: bool)
    ensures
        ok == (version_fits(version@) && spec_version_number(version@) >= MINIMUM_GIT_VERSION),
{
    match checked_version_number(version) {
        Some(n) => n >= MINIMUM_GIT_VERSION,
        None => false,
    }
}

} // verus!
