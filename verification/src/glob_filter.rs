//! Path filters made of shell-style patterns.
//!
//! A filter holds a list of patterns that select paths and a list that
//! rules them out. Patterns are matched without regard to ASCII case. Compiling
//! and matching a pattern is the `glob` crate's work; which patterns enter the
//! filter, and how the two lists combine, is decided here.

use crate::text::{spec_split, split, views};
use vstd::prelude::*;

verus! {

/// Whether `glob::Pattern::new` accepts `pattern`.
pub uninterp spec fn glob_pattern_valid(pattern: Seq<char>) -> bool;

/// Whether the compiled `pattern` matches the whole of `text`, as
/// `glob::Pattern::matches_with` decides it. Separators and leading dots are
/// not treated specially; `case_sensitive` is the option of that name. The
/// crate takes `\` for a path separator on Windows targets only, so the
/// relation is the one of the target the library is built for.
pub uninterp spec fn glob_matches(pattern: Seq<char>, text: Seq<char>, case_sensitive: bool) -> bool;

/// Calls `glob::Pattern::new` and says whether it returned a pattern. The
/// function returns an error for malformed input and never panics.
#[verifier::external_body]
fn pattern_compiles(pattern: &str) -> (ok: bool)
    ensures
        ok == glob_pattern_valid(pattern@),
{
    glob::Pattern::new(pattern).is_ok()
}

/// Compiles `pattern` with `glob::Pattern::new` and calls
/// `glob::Pattern::matches_with` on `text`, with `MatchOptions::new()` but for
/// `case_sensitive`. A pattern that does not compile matches nothing.
#[verifier::external_body]
fn pattern_matches(pattern: &str, text: &str, case_sensitive: bool) -> (yes: bool)
    ensures
        yes == (glob_pattern_valid(pattern@) && glob_matches(pattern@, text@, case_sensitive)),
{
    let mut options = glob::MatchOptions::new();
    options.case_sensitive = case_sensitive;
    match glob::Pattern::new(pattern) {
        Ok(compiled) => compiled.matches_with(text, options),
        Err(_) => false,
    }
}

/// `pattern` is well formed and matches `text`, ignoring ASCII case.
pub open spec fn accepts(pattern: Seq<char>, text: Seq<char>) -> bool {
    glob_pattern_valid(pattern) && glob_matches(pattern, text, false)
}

/// Some pattern of the list accepts `text`.
pub open spec fn any_accepts(patterns: Seq<Seq<char>>, text: Seq<char>) -> bool {
    exists|i: int| 0 <= i < patterns.len() && accepts(#[trigger] patterns[i], text)
}

/// A path is kept if the wanted list is empty or one of its patterns accepts
/// the path, and no pattern of the ignored list accepts it.
pub open spec fn spec_keeps(
    wanted: Seq<Seq<char>>,
    ignored: Seq<Seq<char>>,
    path: Seq<char>,
) -> bool {
    spec_decide(wanted.len(), any_accepts(wanted, path), any_accepts(ignored, path))
}

/// The predicate "is a well-formed pattern".
pub open spec fn is_valid() -> spec_fn(Seq<char>) -> bool {
    |p: Seq<char>| glob_pattern_valid(p)
}

/// The predicate "is not a well-formed pattern".
pub open spec fn is_invalid() -> spec_fn(Seq<char>) -> bool {
    |p: Seq<char>| !glob_pattern_valid(p)
}

/// The predicate "no pattern of `ignored` accepts the text of this pattern".
pub open spec fn survives(ignored: Seq<Seq<char>>) -> spec_fn(Seq<char>) -> bool {
    |p: Seq<char>| !any_accepts(ignored, p)
}

/// The wanted list of a filter built from the candidate lists `wanted` and
/// `ignored`: the well-formed candidates whose own text no well-formed
/// ignored pattern accepts.
pub open spec fn compiled_wanted(wanted: Seq<Seq<char>>, ignored: Seq<Seq<char>>) -> Seq<
    Seq<char>,
> {
    wanted.filter(is_valid()).filter(survives(ignored.filter(is_valid())))
}

/// The ignored list of a filter built from the candidates `ignored`.
pub open spec fn compiled_ignored(ignored: Seq<Seq<char>>) -> Seq<Seq<char>> {
    ignored.filter(is_valid())
}

/// A file that lists patterns, one per line, as it was found on disk.
#[derive(Clone, Debug, PartialEq, Eq)]
pub struct SourceFile {
    /// The name the file was asked for by.
    pub name: String,
    /// What the file holds, or `None` if it could not be read.
    pub contents: Option<String>,
}

/// The elements of an inline list: nothing for an empty list, else its pieces.
pub open spec fn inline_patterns(list: Seq<char>, separator: Seq<char>) -> Seq<Seq<char>> {
    if list.len() == 0 {
        Seq::empty()
    } else {
        spec_split(list, separator)
    }
}

/// The lines of one source file; none if it could not be read.
pub open spec fn file_patterns(file: SourceFile) -> Seq<Seq<char>> {
    match file.contents {
        Some(contents) => spec_split(contents@, seq!['\n']),
        None => Seq::empty(),
    }
}

/// The lines of all the source files, in order.
pub open spec fn source_patterns(files: Seq<SourceFile>) -> Seq<Seq<char>>
    decreases files.len(),
{
    if files.len() == 0 {
        Seq::empty()
    } else {
        source_patterns(files.drop_last()) + file_patterns(files.last())
    }
}

/// The names of the source files that could not be read, in order.
pub open spec fn unreadable_names(files: Seq<SourceFile>) -> Seq<Seq<char>>
    decreases files.len(),
{
    if files.len() == 0 {
        Seq::empty()
    } else if files.last().contents is None {
        unreadable_names(files.drop_last()).push(files.last().name@)
    } else {
        unreadable_names(files.drop_last())
    }
}

/// All the candidate patterns of one side: the inline ones, then the sourced.
pub open spec fn candidates(list: Seq<char>, separator: Seq<char>, files: Seq<SourceFile>) -> Seq<
    Seq<char>,
> {
    inline_patterns(list, separator) + source_patterns(files)
}

/// How the two lists of a filter combine, given what matching against each
/// found: the path is kept if there are no wanted patterns or one of them
/// accepts it, and no ignored pattern accepts it.
pub open spec fn spec_decide(wanted_patterns: nat, wanted_hit: bool, ignored_hit: bool) -> bool {
    (wanted_patterns == 0 || wanted_hit) && !ignored_hit
}

/// Combines what matching a path against the two lists of a filter found.
pub fn decide(wanted_patterns: usize, wanted_hit: bool, ignored_hit: bool) -> (kept: bool)
    ensures
        kept == spec_decide(wanted_patterns as nat, wanted_hit, ignored_hit),
{
    (wanted_patterns == 0 || wanted_hit) && !ignored_hit
}

/// A compiled path filter.
#[derive(Clone, Debug, PartialEq, Eq)]
pub struct GlobFilter {
    /// Patterns of which one has to accept a path, unless there are none.
    pub wanted: Vec<String>,
    /// Patterns of which none may accept a path.
    pub ignored: Vec<String>,
}

impl GlobFilter {
    /// Every pattern of the filter is well formed.
    pub open spec fn wf(&self) -> bool {
        &&& forall|i: int|
            0 <= i < self.wanted@.len() ==> glob_pattern_valid(
                #[trigger] views(self.wanted@)[i],
            )
        &&& forall|i: int|
            0 <= i < self.ignored@.len() ==> glob_pattern_valid(
                #[trigger] views(self.ignored@)[i],
            )
    }

    /// Whether the filter keeps `path`.
    pub open spec fn keeps(&self, path: Seq<char>) -> bool {
        spec_keeps(views(self.wanted@), views(self.ignored@), path)
    }

    /// The filter without patterns, which keeps every path.
    pub fn empty() -> (filter: GlobFilter)
        ensures
            filter.wanted@.len() == 0,
            filter.ignored@.len() == 0,
            filter.wf(),
            forall|path: Seq<char>| filter.keeps(path),
    {
        GlobFilter { wanted: Vec::new(), ignored: Vec::new() }
    }

    /// Decides whether `path` passes the filter.
    pub fn matches(&self, path: &str) -> (kept: bool)
        ensures
            kept == self.keeps(path@),
    {
        let wanted_hit = matches_any(&self.wanted, path);
        let ignored_hit = matches_any(&self.ignored, path);
        decide(self.wanted.len(), wanted_hit, ignored_hit)
    }
}

/// What building a filter gives: the filter, and what was skipped on the way.
#[derive(Clone, Debug, PartialEq, Eq)]
pub struct GlobPatterns {
    pub filter: GlobFilter,
    /// Wanted candidates that are not well-formed patterns.
    pub invalid: Vec<String>,
    /// Ignored candidates that are not well-formed patterns.
    pub invalid_ignore: Vec<String>,
    /// Source files of either side that could not be read.
    pub unreadable: Vec<String>,
}

/// Whether one of `patterns` accepts `text`.
pub fn matches_any(patterns: &Vec<String>, text: &str) -> (yes: bool)
    ensures
        yes == any_accepts(views(patterns@), text@),
{
    let mut i: usize = 0;
    while i < patterns.len()
        invariant
            i <= patterns.len(),
            forall|k: int| 0 <= k < i ==> !accepts(#[trigger] views(patterns@)[k], text@),
        decreases patterns.len() - i,
    {
        if pattern_matches(patterns[i].as_str(), text, false) {
            assert(accepts(views(patterns@)[i as int], text@));
            return true;
        }
        i += 1;
    }
    false
}

/// The elements of an inline list of patterns or of file names.
pub fn split_list(list: &str, separator: &str) -> (items: Vec<String>)
    ensures
        views(items@) == inline_patterns(list@, separator@),
{
    if list.is_empty() {
        let items: Vec<String> = Vec::new();
        assert(views(items@) =~= Seq::<Seq<char>>::empty());
        items
    } else {
        split(list, separator)
    }
}

/// Appends to `into` the lines of every readable file, and to `unreadable` the
/// names of the others.
fn gather_sources(files: &Vec<SourceFile>, into: &mut Vec<String>, unreadable: &mut Vec<String>)
    ensures
        views(final(into)@) == views(old(into)@) + source_patterns(files@),
        views(final(unreadable)@) == views(old(unreadable)@) + unreadable_names(files@),
{
    let mut i: usize = 0;
    assert(files@.take(0) =~= Seq::<SourceFile>::empty());
    assert(views(into@) + source_patterns(files@.take(0)) =~= views(into@));
    assert(views(unreadable@) + unreadable_names(files@.take(0)) =~= views(unreadable@));
    while i < files.len()
        invariant
            i <= files.len(),
            views(into@) == views(old(into)@) + source_patterns(files@.take(i as int)),
            views(unreadable@) == views(old(unreadable)@) + unreadable_names(
                files@.take(i as int),
            ),
        decreases files.len() - i,
    {
        let ghost before = views(into@);
        let ghost before_unreadable = views(unreadable@);
        proof {
            assert(files@.take(i + 1).drop_last() =~= files@.take(i as int));
            assert(files@.take(i + 1).last() == files@[i as int]);
        }
        match &files[i].contents {
            Some(contents) => {
                let mut lines = split(contents.as_str(), "\n");
                proof {
                    reveal_strlit("\n");
                    assert("\n"@ =~= seq!['\n']);
                }
                let ghost added = views(lines@);
                into.append(&mut lines);
                assert(views(into@) =~= before + added);
                assert(views(into@) =~= views(old(into)@) + source_patterns(
                    files@.take(i + 1),
                ));
            },
            None => {
                unreadable.push(files[i].name.clone());
                assert(views(unreadable@) =~= before_unreadable.push(files@[i as int].name@));
                assert(views(unreadable@) =~= views(old(unreadable)@) + unreadable_names(
                    files@.take(i + 1),
                ));
            },
        }
        i += 1;
    }
    assert(files@.take(files@.len() as int) =~= files@);
}

/// Whether the `i`-th item is flagged: a missing flag counts as not set.
pub open spec fn flag_at(flags: Seq<bool>, i: int) -> bool {
    0 <= i < flags.len() && flags[i]
}

/// The first `n` of `items` whose flag is `set`, in order.
pub open spec fn flagged(items: Seq<Seq<char>>, flags: Seq<bool>, set: bool, n: int) -> Seq<
    Seq<char>,
>
    decreases n,
{
    if n <= 0 || n > items.len() {
        Seq::empty()
    } else if flag_at(flags, n - 1) == set {
        flagged(items, flags, set, n - 1).push(items[n - 1])
    } else {
        flagged(items, flags, set, n - 1)
    }
}

/// Parts `items` by their flags: those whose flag is set, and the others.
pub fn split_by_flags(items: Vec<String>, flags: &Vec<bool>) -> (parts: (Vec<String>, Vec<String>))
    ensures
        views(parts.0@) == flagged(views(items@), flags@, true, items@.len() as int),
        views(parts.1@) == flagged(views(items@), flags@, false, items@.len() as int),
{
    let mut set: Vec<String> = Vec::new();
    let mut unset: Vec<String> = Vec::new();
    let ghost all = views(items@);
    let mut i: usize = 0;
    assert(views(set@) =~= flagged(all, flags@, true, 0));
    assert(views(unset@) =~= flagged(all, flags@, false, 0));
    while i < items.len()
        invariant
            i <= items.len(),
            all == views(items@),
            views(set@) == flagged(all, flags@, true, i as int),
            views(unset@) == flagged(all, flags@, false, i as int),
        decreases items.len() - i,
    {
        let ghost set_before = views(set@);
        let ghost unset_before = views(unset@);
        if i < flags.len() && flags[i] {
            set.push(items[i].clone());
            assert(views(set@) =~= set_before.push(all[i as int]));
        } else {
            unset.push(items[i].clone());
            assert(views(unset@) =~= unset_before.push(all[i as int]));
        }
        i += 1;
    }
    (set, unset)
}

/// Where each flag says whether a predicate holds of its item, the flagged
/// items are the items that the predicate selects.
pub proof fn lemma_flagged_is_filter(
    items: Seq<Seq<char>>,
    flags: Seq<bool>,
    pred: spec_fn(Seq<char>) -> bool,
    set: bool,
    n: int,
)
    requires
        0 <= n <= items.len(),
        forall|i: int| 0 <= i < items.len() ==> flag_at(flags, i) == pred(#[trigger] items[i]),
    ensures
        flagged(items, flags, set, n) == items.take(n).filter(|p: Seq<char>| pred(p) == set),
    decreases n,
{
    reveal(Seq::filter);
    let choice = |p: Seq<char>| pred(p) == set;
    if n > 0 {
        lemma_flagged_is_filter(items, flags, pred, set, n - 1);
        assert(items.take(n) =~= items.take(n - 1).push(items[n - 1]));
        items.take(n - 1).lemma_filter_push(items[n - 1], choice);
    } else {
        assert(items.take(0) =~= Seq::<Seq<char>>::empty());
    }
}

/// Two predicates that agree on every item select the same items.
pub proof fn lemma_filter_agree(
    items: Seq<Seq<char>>,
    p: spec_fn(Seq<char>) -> bool,
    q: spec_fn(Seq<char>) -> bool,
)
    requires
        forall|i: int| 0 <= i < items.len() ==> p(#[trigger] items[i]) == q(items[i]),
    ensures
        items.filter(p) == items.filter(q),
    decreases items.len(),
{
    reveal(Seq::filter);
    if items.len() > 0 {
        lemma_filter_agree(items.drop_last(), p, q);
    }
}

/// For each candidate, whether it is a well-formed pattern.
fn validity(candidates: &Vec<String>) -> (flags: Vec<bool>)
    ensures
        flags@.len() == candidates@.len(),
        forall|i: int|
            0 <= i < candidates@.len() ==> flags@[i] == glob_pattern_valid(
                #[trigger] views(candidates@)[i],
            ),
{
    let mut flags: Vec<bool> = Vec::new();
    let mut i: usize = 0;
    while i < candidates.len()
        invariant
            i <= candidates.len(),
            flags@.len() == i,
            forall|k: int|
                0 <= k < i ==> flags@[k] == glob_pattern_valid(#[trigger] views(candidates@)[k]),
        decreases candidates.len() - i,
    {
        flags.push(pattern_compiles(candidates[i].as_str()));
        i += 1;
    }
    flags
}

/// For each wanted pattern, whether no ignored pattern accepts its text.
fn survival(wanted: &Vec<String>, ignored: &Vec<String>) -> (flags: Vec<bool>)
    ensures
        flags@.len() == wanted@.len(),
        forall|i: int|
            0 <= i < wanted@.len() ==> flags@[i] == !any_accepts(
                views(ignored@),
                #[trigger] views(wanted@)[i],
            ),
{
    let mut flags: Vec<bool> = Vec::new();
    let mut i: usize = 0;
    while i < wanted.len()
        invariant
            i <= wanted.len(),
            flags@.len() == i,
            forall|k: int|
                0 <= k < i ==> flags@[k] == !any_accepts(
                    views(ignored@),
                    #[trigger] views(wanted@)[k],
                ),
        decreases wanted.len() - i,
    {
        flags.push(!matches_any(ignored, wanted[i].as_str()));
        i += 1;
    }
    flags
}

/// Parts a list of candidates into the well-formed patterns and the others.
fn partition_valid(candidates: Vec<String>) -> (parts: (Vec<String>, Vec<String>))
    ensures
        views(parts.0@) == views(candidates@).filter(is_valid()),
        views(parts.1@) == views(candidates@).filter(is_invalid()),
{
    let flags = validity(&candidates);
    proof {
        let all = views(candidates@);
        let n = all.len() as int;
        lemma_flagged_is_filter(all, flags@, is_valid(), true, n);
        lemma_flagged_is_filter(all, flags@, is_valid(), false, n);
        assert(all.take(n) =~= all);
        lemma_filter_agree(all, |p: Seq<char>| is_valid()(p) == true, is_valid());
        lemma_filter_agree(all, |p: Seq<char>| is_valid()(p) == false, is_invalid());
    }
    split_by_flags(candidates, &flags)
}

/// Drops from `wanted` every pattern whose text a pattern of `ignored` accepts.
fn drop_ignored(wanted: Vec<String>, ignored: &Vec<String>) -> (kept: Vec<String>)
    ensures
        views(kept@) == views(wanted@).filter(survives(views(ignored@))),
{
    let flags = survival(&wanted, ignored);
    proof {
        let all = views(wanted@);
        let n = all.len() as int;
        let pred = survives(views(ignored@));
        lemma_flagged_is_filter(all, flags@, pred, true, n);
        assert(all.take(n) =~= all);
        lemma_filter_agree(all, |p: Seq<char>| pred(p) == true, pred);
    }
    let (kept, _) = split_by_flags(wanted, &flags);
    kept
}

/// Builds the path filter from the wanted and ignored lists.
///
/// Each side has an inline list with its separator and the source files named
/// for it, each holding one pattern per line. A candidate that is not a
/// well-formed pattern is skipped and reported, and so is a source file that
/// could not be read. A wanted pattern whose own text an ignored pattern
/// accepts is dropped from the filter.
pub fn get_glob_patterns(
    files: &str,
    files_separator: &str,
    files_from_source_file: &Vec<SourceFile>,
    files_ignore: &str,
    files_ignore_separator: &str,
    files_ignore_from_source_file: &Vec<SourceFile>,
) -> (built: GlobPatterns)
    ensures
        views(built.filter.wanted@) == compiled_wanted(
            candidates(files@, files_separator@, files_from_source_file@),
            candidates(files_ignore@, files_ignore_separator@, files_ignore_from_source_file@),
        ),
        views(built.filter.ignored@) == compiled_ignored(
            candidates(files_ignore@, files_ignore_separator@, files_ignore_from_source_file@),
        ),
        built.filter.wf(),
        views(built.invalid@) == candidates(
            files@,
            files_separator@,
            files_from_source_file@,
        ).filter(is_invalid()),
        views(built.invalid_ignore@) == candidates(
            files_ignore@,
            files_ignore_separator@,
            files_ignore_from_source_file@,
        ).filter(is_invalid()),
        views(built.unreadable@) == unreadable_names(files_from_source_file@) + unreadable_names(
            files_ignore_from_source_file@,
        ),
{
    let mut unreadable: Vec<String> = Vec::new();
    assert(views(unreadable@) =~= Seq::<Seq<char>>::empty());
    let mut wanted_candidates = split_list(files, files_separator);
    gather_sources(files_from_source_file, &mut wanted_candidates, &mut unreadable);
    let mut ignored_candidates = split_list(files_ignore, files_ignore_separator);
    gather_sources(files_ignore_from_source_file, &mut ignored_candidates, &mut unreadable);
    let (wanted_valid, invalid) = partition_valid(wanted_candidates);
    let (ignored, invalid_ignore) = partition_valid(ignored_candidates);
    let wanted = drop_ignored(wanted_valid, &ignored);
    proof {
        let inc = views(wanted@);
        let exc = views(ignored@);
        assert forall|i: int| 0 <= i < inc.len() implies glob_pattern_valid(#[trigger] inc[i]) by {
            let valid = views(wanted_valid@);
            valid.lemma_filter_contains_rev(survives(exc), inc[i]);
            let k = choose|k: int| 0 <= k < valid.len() && valid[k] == inc[i];
            views(wanted_candidates@).lemma_filter_pred(is_valid(), k);
        }
        assert forall|i: int| 0 <= i < exc.len() implies glob_pattern_valid(#[trigger] exc[i]) by {
            views(ignored_candidates@).lemma_filter_pred(is_valid(), i);
        }
        assert(views(unreadable@) =~= unreadable_names(files_from_source_file@)
            + unreadable_names(files_ignore_from_source_file@));
    }
    GlobPatterns { filter: GlobFilter { wanted, ignored }, invalid, invalid_ignore, unreadable }
}

/// A text that a pattern of a filtered list accepts is accepted by a pattern
/// of the whole list.
pub proof fn lemma_any_accepts_of_filtered(
    patterns: Seq<Seq<char>>,
    pred: spec_fn(Seq<char>) -> bool,
    text: Seq<char>,
)
    requires
        any_accepts(patterns.filter(pred), text),
    ensures
        any_accepts(patterns, text),
{
    let kept = patterns.filter(pred);
    let i = choose|i: int| 0 <= i < kept.len() && accepts(#[trigger] kept[i], text);
    assert(kept.contains(kept[i]));
    patterns.lemma_filter_contains_rev(pred, kept[i]);
    let k = choose|k: int| 0 <= k < patterns.len() && patterns[k] == kept[i];
    assert(accepts(patterns[k], text));
}

/// Skipping the candidates that are not well formed changes nothing about
/// which texts a list accepts.
pub proof fn lemma_any_accepts_of_valid(patterns: Seq<Seq<char>>, text: Seq<char>)
    ensures
        any_accepts(patterns.filter(is_valid()), text) == any_accepts(patterns, text),
{
    if any_accepts(patterns.filter(is_valid()), text) {
        lemma_any_accepts_of_filtered(patterns, is_valid(), text);
    }
    if any_accepts(patterns, text) {
        let i = choose|i: int| 0 <= i < patterns.len() && accepts(#[trigger] patterns[i], text);
        patterns.lemma_filter_contains(is_valid(), i);
        let kept = patterns.filter(is_valid());
        let k = choose|k: int| 0 <= k < kept.len() && kept[k] == patterns[i];
        assert(accepts(kept[k], text));
    }
}

/// A list of well-formed patterns loses nothing when the others are skipped.
pub proof fn lemma_valid_list_unchanged(patterns: Seq<Seq<char>>)
    requires
        forall|i: int| 0 <= i < patterns.len() ==> glob_pattern_valid(#[trigger] patterns[i]),
    ensures
        patterns.filter(is_valid()) == patterns,
    decreases patterns.len(),
{
    reveal(Seq::filter);
    if patterns.len() > 0 {
        lemma_valid_list_unchanged(patterns.drop_last());
        assert(patterns.drop_last().push(patterns.last()) =~= patterns);
    }
}

/// The composition law of a filter: a path is kept if and only if the wanted
/// list is empty or one of its patterns accepts the path, and no pattern of
/// the ignored list accepts it.
pub proof fn lemma_composition(filter: GlobFilter, path: Seq<char>)
    ensures
        filter.keeps(path) <==> ((filter.wanted@.len() == 0 || exists|i: int|
            0 <= i < filter.wanted@.len() && accepts(#[trigger] filter.wanted@[i]@, path))
            && forall|j: int|
            0 <= j < filter.ignored@.len() ==> !accepts(#[trigger] filter.ignored@[j]@, path)),
{
    let wanted = views(filter.wanted@);
    let ignored = views(filter.ignored@);
    if any_accepts(wanted, path) {
        let i = choose|i: int| 0 <= i < wanted.len() && accepts(#[trigger] wanted[i], path);
        assert(accepts(filter.wanted@[i]@, path));
    }
    if exists|i: int|
        0 <= i < filter.wanted@.len() && accepts(#[trigger] filter.wanted@[i]@, path) {
        let i = choose|i: int|
            0 <= i < filter.wanted@.len() && accepts(#[trigger] filter.wanted@[i]@, path);
        assert(accepts(wanted[i], path));
    }
    if any_accepts(ignored, path) {
        let j = choose|j: int| 0 <= j < ignored.len() && accepts(#[trigger] ignored[j], path);
        assert(accepts(filter.ignored@[j]@, path));
    }
    if exists|j: int|
        0 <= j < filter.ignored@.len() && accepts(#[trigger] filter.ignored@[j]@, path) {
        let j = choose|j: int|
            0 <= j < filter.ignored@.len() && accepts(#[trigger] filter.ignored@[j]@, path);
        assert(accepts(ignored[j], path));
    }
}

/// The ignored list wins: a path that a candidate of the ignored side accepts
/// is not kept by the filter built from the two sides, whatever the wanted side
/// holds, also where both sides hold the same pattern text.
pub proof fn lemma_ignored_wins(wanted: Seq<Seq<char>>, ignored: Seq<Seq<char>>, path: Seq<char>)
    requires
        any_accepts(ignored, path),
    ensures
        !spec_keeps(compiled_wanted(wanted, ignored), compiled_ignored(ignored), path),
{
    lemma_any_accepts_of_valid(ignored, path);
}

/// The one way in which dropping wanted patterns changes what is kept: no
/// ignored pattern accepts the path, and either every wanted pattern was
/// dropped and none of them accepts the path, or some survive and the path is
/// accepted by dropped ones alone.
pub open spec fn hidden_by_drop(wanted: Seq<Seq<char>>, ignored: Seq<Seq<char>>, path: Seq<char>) -> bool {
    let kept = wanted.filter(survives(ignored));
    &&& !any_accepts(ignored, path)
    &&& wanted.len() > 0
    &&& if kept.len() == 0 {
        !any_accepts(wanted, path)
    } else {
        any_accepts(wanted, path) && !any_accepts(kept, path)
    }
}

/// The composition law over the patterns that a filter is built from: for
/// lists of well-formed patterns, the built filter keeps a path if and only if
/// the wanted list is empty or accepts the path and the ignored list does not
/// accept it, unless dropping wanted patterns hides the difference.
pub proof fn lemma_composition_of_sources(
    wanted: Seq<Seq<char>>,
    ignored: Seq<Seq<char>>,
    path: Seq<char>,
)
    requires
        forall|i: int| 0 <= i < wanted.len() ==> glob_pattern_valid(#[trigger] wanted[i]),
        forall|i: int| 0 <= i < ignored.len() ==> glob_pattern_valid(#[trigger] ignored[i]),
    ensures
        !hidden_by_drop(wanted, ignored, path) ==> (spec_keeps(
            compiled_wanted(wanted, ignored),
            compiled_ignored(ignored),
            path,
        ) <==> spec_keeps(wanted, ignored, path)),
        hidden_by_drop(wanted, ignored, path) ==> (spec_keeps(
            compiled_wanted(wanted, ignored),
            compiled_ignored(ignored),
            path,
        ) != spec_keeps(wanted, ignored, path)),
{
    lemma_valid_list_unchanged(wanted);
    lemma_valid_list_unchanged(ignored);
    let kept = wanted.filter(survives(ignored));
    wanted.lemma_filter_len(survives(ignored));
    if any_accepts(kept, path) {
        lemma_any_accepts_of_filtered(wanted, survives(ignored), path);
    }
}

} // verus!
