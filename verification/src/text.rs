//! Text helpers: searching sequences of characters, and cutting them into
//! pieces and words.
//!
//! Every function here is specified over `Seq<char>`, the view of a string.

use vstd::prelude::*;
use vstd::string::*;

verus! {

/// The views of a list of strings.
pub open spec fn views(v: Seq<String>) -> Seq<Seq<char>> {
    Seq::new(v.len(), |i: int| v[i]@)
}

/// `pat` stands in `s` at index `i`.
pub open spec fn occurs_at(s: Seq<char>, pat: Seq<char>, i: int) -> bool {
    0 <= i && i + pat.len() <= s.len() && s.subrange(i, i + pat.len()) == pat
}

/// The least index at or after `from` at which `pat` stands in `s`.
pub open spec fn first_occurrence(s: Seq<char>, pat: Seq<char>, from: int) -> Option<int>
    decreases s.len() - from + 1,
{
    if from < 0 || from + pat.len() > s.len() {
        None
    } else if occurs_at(s, pat, from) {
        Some(from)
    } else {
        first_occurrence(s, pat, from + 1)
    }
}

/// What `first_occurrence` finds is an occurrence, and nothing occurs before it.
pub proof fn lemma_first_occurrence(s: Seq<char>, pat: Seq<char>, from: int)
    requires
        0 <= from,
    ensures
        match first_occurrence(s, pat, from) {
            Some(i) => from <= i && occurs_at(s, pat, i) && forall|j: int|
                from <= j < i ==> !occurs_at(s, pat, j),
            None => forall|j: int| from <= j ==> !occurs_at(s, pat, j),
        },
    decreases s.len() - from + 1,
{
    if from + pat.len() > s.len() {
    } else if occurs_at(s, pat, from) {
    } else {
        lemma_first_occurrence(s, pat, from + 1);
    }
}

/// The pieces of `s` from index `from` on, cut at each occurrence of a
/// separator that is not empty.
pub open spec fn spec_split_from(s: Seq<char>, sep: Seq<char>, from: int) -> Seq<Seq<char>>
    decreases s.len() - from,
{
    if sep.len() == 0 || from < 0 || from > s.len() {
        Seq::empty()
    } else {
        match first_occurrence(s, sep, from) {
            Some(i) => if from <= i <= s.len() - sep.len() {
                seq![s.subrange(from, i)] + spec_split_from(s, sep, i + sep.len())
            } else {
                Seq::empty()
            },
            None => seq![s.subrange(from, s.len() as int)],
        }
    }
}

/// The pieces of `s` between the occurrences of `sep`, scanning from the left.
/// There is always one piece more than there are separators found. An empty
/// separator stands before and after every character.
pub open spec fn spec_split(s: Seq<char>, sep: Seq<char>) -> Seq<Seq<char>> {
    if sep.len() == 0 {
        seq![Seq::<char>::empty()] + Seq::new(s.len(), |i: int| seq![s[i]]) + seq![
            Seq::<char>::empty(),
        ]
    } else {
        spec_split_from(s, sep, 0)
    }
}

/// The characters of `s`, in order.
pub fn chars_of(s: &str) -> (out: Vec<char>)
    ensures
        out@ == s@,
{
    let mut out: Vec<char> = Vec::new();
    for c in it: s.chars()
        invariant
            out@ == it.seq().take(it.index() as int),
    {
        out.push(c);
    }
    out
}

/// The standard library's `String::push`: the string afterwards is the string
/// before with `ch` at its end. The documentation says no more and no less.
pub assume_specification[ String::push ](s: &mut String, ch: char)
    ensures
        final(s)@ == old(s)@.push(ch),
;

/// The text made of the characters of `chars` from index `from` up to, not
/// including, index `to`; the indices are cut to the length of `chars`.
pub fn text_of(chars: &Vec<char>, from: usize, to: usize) -> (out: String)
    ensures
        from <= to <= chars@.len() ==> out@ == chars@.subrange(from as int, to as int),
        out@.len() <= chars@.len(),
{
    let mut out = String::new();
    let end: usize = if to < chars.len() {
        to
    } else {
        chars.len()
    };
    let mut i: usize = from;
    if from > end {
        return out;
    }
    assert(out@ =~= chars@.subrange(from as int, from as int));
    while i < end
        invariant
            from <= i <= end <= chars@.len(),
            out@ == chars@.subrange(from as int, i as int),
        decreases end - i,
    {
        out.push(chars[i]);
        assert(out@ =~= chars@.subrange(from as int, i + 1));
        i += 1;
    }
    out
}

/// Whether `pat` stands in `s` at index `i`.
pub fn matches_at(s: &Vec<char>, pat: &Vec<char>, i: usize) -> (found: bool)
    ensures
        found == occurs_at(s@, pat@, i as int),
{
    if pat.len() > s.len() || i > s.len() - pat.len() {
        return false;
    }
    let mut k: usize = 0;
    while k < pat.len()
        invariant
            k <= pat.len(),
            i + pat.len() <= s.len(),
            forall|j: int| 0 <= j < k ==> s@[i + j] == pat@[j],
        decreases pat.len() - k,
    {
        if s[i + k] != pat[k] {
            assert(s@.subrange(i as int, i + pat.len())[k as int] == s@[i + k]);
            return false;
        }
        k += 1;
    }
    assert(s@.subrange(i as int, i + pat.len()) =~= pat@);
    true
}

/// The first index at or after `from` at which `pat` stands in `s`.
pub fn find(s: &Vec<char>, pat: &Vec<char>, from: usize) -> (at: Option<usize>)
    ensures
        match at {
            Some(i) => first_occurrence(s@, pat@, from as int) == Some(i as int),
            None => first_occurrence(s@, pat@, from as int) is None,
        },
{
    if pat.len() > s.len() {
        return None;
    }
    let last: usize = s.len() - pat.len();
    let mut i: usize = from;
    while i <= last
        invariant
            from <= i,
            last == s.len() - pat.len(),
            first_occurrence(s@, pat@, from as int) == first_occurrence(s@, pat@, i as int),
        decreases last - i,
    {
        if matches_at(s, pat, i) {
            return Some(i);
        }
        if i == last {
            assert(first_occurrence(s@, pat@, i + 1) is None);
            return None;
        }
        i += 1;
    }
    None
}

/// Whether `s` begins with `prefix`.
pub fn starts_with(s: &str, prefix: &str) -> (yes: bool)
    ensures
        yes == prefix@.is_prefix_of(s@),
{
    let sv = chars_of(s);
    let pv = chars_of(prefix);
    let yes = matches_at(&sv, &pv, 0);
    proof {
        if yes {
            assert(s@.subrange(0, prefix@.len() as int) == prefix@);
            assert(prefix@ =~= s@.subrange(0, prefix@.len() as int));
        }
        if prefix@.is_prefix_of(s@) {
            assert(s@.subrange(0, prefix@.len() as int) =~= prefix@);
        }
    }
    yes
}

/// Cuts `s` at every occurrence of `sep`.
pub fn split(s: &str, sep: &str) -> (parts: Vec<String>)
    ensures
        views(parts@) == spec_split(s@, sep@),
{
    let sv = chars_of(s);
    let pv = chars_of(sep);
    let n: usize = sv.len();
    let mut parts: Vec<String> = Vec::new();
    if pv.len() == 0 {
        parts.push(String::new());
        let mut i: usize = 0;
        while i < n
            invariant
                i <= n,
                n == s@.len(),
                sv@ == s@,
                views(parts@) == seq![Seq::<char>::empty()] + Seq::new(
                    i as nat,
                    |k: int| seq![s@[k]],
                ),
            decreases n - i,
        {
            let piece = text_of(&sv, i, i + 1);
            assert(piece@ =~= seq![s@[i as int]]);
            let ghost before = views(parts@);
            parts.push(piece);
            assert(views(parts@) =~= before.push(seq![s@[i as int]]));
            i += 1;
        }
        let ghost before = views(parts@);
        parts.push(String::new());
        assert(views(parts@) =~= before.push(Seq::<char>::empty()));
        assert(views(parts@) =~= spec_split(s@, sep@));
        return parts;
    }
    let mut from: usize = 0;
    loop
        invariant
            from <= n,
            n == s@.len(),
            sv@ == s@,
            pv@ == sep@,
            pv.len() > 0,
            spec_split(s@, sep@) == views(parts@) + spec_split_from(s@, sep@, from as int),
        decreases n - from,
    {
        let ghost before = views(parts@);
        proof {
            lemma_first_occurrence(s@, sep@, from as int);
        }
        match find(&sv, &pv, from) {
            Some(i) => {
                let piece = text_of(&sv, from, i);
                parts.push(piece);
                assert(views(parts@) =~= before.push(s@.subrange(from as int, i as int)));
                assert(views(parts@) + spec_split_from(s@, sep@, i + sep@.len()) =~= before
                    + spec_split_from(s@, sep@, from as int));
                from = i + pv.len();
            },
            None => {
                let piece = text_of(&sv, from, n);
                parts.push(piece);
                assert(views(parts@) =~= before.push(s@.subrange(from as int, n as int)));
                assert(views(parts@) =~= before + spec_split_from(s@, sep@, from as int));
                return parts;
            },
        }
    }
}

/// The text `true`, and nothing else.
pub open spec fn spec_is_true(s: Seq<char>) -> bool {
    s == seq!['t', 'r', 'u', 'e']
}

/// Whether `s` is the text `true`.
pub fn is_true(s: &str) -> (yes: bool)
    ensures
        yes == spec_is_true(s@),
{
    let chars = chars_of(s);
    if chars.len() == 4 && chars[0] == 't' && chars[1] == 'r' && chars[2] == 'u' && chars[3]
        == 'e' {
        assert(s@ =~= seq!['t', 'r', 'u', 'e']);
        true
    } else {
        assert(s@ != seq!['t', 'r', 'u', 'e']) by {
            let t = seq!['t', 'r', 'u', 'e'];
            if s@ == t {
                assert(t.len() == 4);
                assert(t[0] == 't' && t[1] == 'r' && t[2] == 'u' && t[3] == 'e');
            }
        }
        false
    }
}

/// Whether the two texts are the same.
pub fn same(a: &str, b: &str) -> (yes: bool)
    ensures
        yes == (a@ == b@),
{
    let av = chars_of(a);
    let bv = chars_of(b);
    if av.len() != bv.len() {
        return false;
    }
    let same_here = matches_at(&av, &bv, 0);
    proof {
        assert(a@.subrange(0, a@.len() as int) =~= a@);
    }
    same_here
}

/// White space, as Unicode defines it.
pub open spec fn is_space(c: char) -> bool {
    let v = c as u32;
    v == 0x20 || (0x09 <= v <= 0x0d) || v == 0x85 || v == 0xa0 || v == 0x1680 || (0x2000 <= v
        <= 0x200a) || v == 0x2028 || v == 0x2029 || v == 0x202f || v == 0x205f || v == 0x3000
}

/// Whether `c` is white space.
pub fn is_whitespace(c: char) -> (yes: bool)
    ensures
        yes == is_space(c),
{
    let v: u32 = c as u32;
    v == 0x20 || (0x09 <= v && v <= 0x0d) || v == 0x85 || v == 0xa0 || v == 0x1680 || (0x2000 <= v
        && v <= 0x200a) || v == 0x2028 || v == 0x2029 || v == 0x202f || v == 0x205f || v == 0x3000
}

/// Where the word that starts at `from` ends: the index of the first white
/// space at or after `from`, or the length of the text.
pub open spec fn word_end(s: Seq<char>, from: int) -> int
    decreases s.len() - from,
{
    if from < 0 || from >= s.len() || is_space(s[from]) {
        from
    } else {
        word_end(s, from + 1)
    }
}

/// The words of `s` from index `from` on.
pub open spec fn spec_words_from(s: Seq<char>, from: int) -> Seq<Seq<char>>
    decreases s.len() - from,
{
    if from < 0 || from >= s.len() {
        Seq::empty()
    } else if is_space(s[from]) {
        spec_words_from(s, from + 1)
    } else {
        let end = word_end(s, from);
        if from < end <= s.len() {
            seq![s.subrange(from, end)] + spec_words_from(s, end)
        } else {
            Seq::empty()
        }
    }
}

/// The words of `s`: its longest runs of characters that are not white space,
/// in order.
pub open spec fn spec_words(s: Seq<char>) -> Seq<Seq<char>> {
    spec_words_from(s, 0)
}

/// Cuts `s` into its words.
pub fn words(s: &str) -> (out: Vec<String>)
    ensures
        views(out@) == spec_words(s@),
{
    let chars = chars_of(s);
    let n: usize = chars.len();
    let mut out: Vec<String> = Vec::new();
    let mut i: usize = 0;
    assert(views(out@) + spec_words_from(s@, 0) =~= spec_words(s@));
    while i < n
        invariant
            i <= n,
            n == s@.len(),
            chars@ == s@,
            spec_words(s@) == views(out@) + spec_words_from(s@, i as int),
        decreases n - i,
    {
        if is_whitespace(chars[i]) {
            i += 1;
        } else {
            let mut j: usize = i + 1;
            while j < n && !is_whitespace(chars[j])
                invariant
                    i < j <= n,
                    n == s@.len(),
                    chars@ == s@,
                    !is_space(s@[i as int]),
                    word_end(s@, i as int) == word_end(s@, j as int),
                decreases n - j,
            {
                j += 1;
            }
            let ghost before = views(out@);
            let piece = text_of(&chars, i, j);
            out.push(piece);
            assert(views(out@) =~= before.push(s@.subrange(i as int, j as int)));
            assert(views(out@) + spec_words_from(s@, j as int) =~= before + spec_words_from(
                s@,
                i as int,
            ));
            i = j;
        }
    }
    assert(views(out@) + Seq::<Seq<char>>::empty() =~= views(out@));
    out
}

/// `s` without the occurrences of `pat`, found from the left.
pub open spec fn spec_remove(s: Seq<char>, pat: Seq<char>) -> Seq<char> {
    spec_split(s, pat).flatten()
}

/// Removes every occurrence of `pat` from `s`.
pub fn remove(s: &str, pat: &str) -> (out: String)
    ensures
        out@ == spec_remove(s@, pat@),
{
    let pieces = split(s, pat);
    let mut out = String::new();
    let ghost all = views(pieces@);
    let mut i: usize = 0;
    assert(all.take(0) =~= Seq::<Seq<char>>::empty());
    assert(all.take(0).flatten() =~= Seq::<char>::empty());
    while i < pieces.len()
        invariant
            i <= pieces.len(),
            all == views(pieces@),
            out@ == all.take(i as int).flatten(),
        decreases pieces.len() - i,
    {
        proof {
            assert(all.take(i + 1) =~= all.take(i as int).push(all[i as int]));
            all.take(i as int).lemma_flatten_push(all[i as int]);
        }
        out.append(pieces[i].as_str());
        i += 1;
    }
    assert(all.take(pieces@.len() as int) =~= all);
    out
}

} // verus!
