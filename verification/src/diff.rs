//! The diff engine: which trees are compared for a range, and which of the
//! deltas between them make the result.
//!
//! The engine works on one repository. For each of its submodules it works
//! out the submodule's own range from the two commits that the trees of the
//! range record for it, keeps the operator, and asks for the result of the
//! same procedure in the submodule's repository.

use crate::change::{
    DiffFile, DiffFileView, DiffOperator, DiffType, RangeContext, RangeView, RawDelta,
    classify_for_filter, file_views, spec_classify_for_filter,
};
use crate::glob_filter::GlobFilter;
use crate::protocol::{Failure, Query, QueryView, Reply};
use crate::text::views;
use vstd::prelude::*;

verus! {

/// Where the computation of a diff stands.
#[derive(Clone, Debug, PartialEq, Eq)]
pub enum DiffProgress {
    /// A further reply is needed: the one to this query.
    Need(Query),
    /// The changed files, in the order in which the deltas were reported: those
    /// of the repository first, then those of each submodule in turn.
    Done(Vec<DiffFile>),
    /// The diff cannot be computed.
    Fatal(Failure),
}

/// What a [`DiffProgress`] holds, as values.
pub enum DiffProgressView {
    Need(QueryView),
    Done(Seq<DiffFileView>),
    Fatal(Failure),
}

impl View for DiffProgress {
    type V = DiffProgressView;

    open spec fn view(&self) -> DiffProgressView {
        match self {
            DiffProgress::Need(query) => DiffProgressView::Need(query@),
            DiffProgress::Done(files) => DiffProgressView::Done(file_views(files@)),
            DiffProgress::Fatal(failure) => DiffProgressView::Fatal(*failure),
        }
    }
}

/// The file that a delta stands for in a result.
pub open spec fn file_of() -> spec_fn(RawDelta) -> DiffFileView {
    |delta: RawDelta|
        DiffFileView { path: delta.path@, diff_type: spec_classify_for_filter(delta.status) }
}

/// The deltas that a request selects: those of a wanted kind whose path the
/// filter keeps.
pub open spec fn selected(kinds: Seq<DiffType>, filter: GlobFilter) -> spec_fn(RawDelta) -> bool {
    |delta: RawDelta|
        kinds.contains(spec_classify_for_filter(delta.status)) && filter.keeps(delta.path@)
}

/// The files of a result that a request selects.
pub open spec fn admitted(kinds: Seq<DiffType>, filter: GlobFilter) -> spec_fn(DiffFileView) -> bool {
    |file: DiffFileView| kinds.contains(file.diff_type) && filter.keeps(file.path)
}

/// The changed files among `deltas`: the selected ones, each classified, in
/// the order of the deltas.
pub open spec fn spec_select_changes(deltas: Seq<RawDelta>, kinds: Seq<DiffType>, filter: GlobFilter) -> Seq<
    DiffFileView,
> {
    deltas.filter(selected(kinds, filter)).map_values(file_of())
}

/// The range of a submodule: the commits that the trees of the two ends
/// record for it, with the operator of the range it is seen from.
pub open spec fn spec_submodule_range(operator: DiffOperator, before: Seq<char>, after: Seq<char>) -> RangeView {
    RangeView { previous: before, current: after, operator }
}

/// The changed files of the submodule at `path`, from the three replies that
/// start at `at`: the commit recorded for it at the previous commit, the one
/// recorded at the current commit, and the files changed between the two.
pub open spec fn spec_submodule_diff(
    range: RangeView,
    kinds: Seq<DiffType>,
    filter: GlobFilter,
    path: Seq<char>,
    replies: Seq<Reply>,
    at: int,
) -> DiffProgressView {
    if replies.len() <= at {
        DiffProgressView::Need(QueryView::Gitlink { commit: range.previous, path })
    } else {
        match replies[at].commit() {
            None => DiffProgressView::Fatal(Failure::SubmoduleNotFound),
            Some(before) => if replies.len() <= at + 1 {
                DiffProgressView::Need(QueryView::Gitlink { commit: range.current, path })
            } else {
                match replies[at + 1].commit() {
                    None => DiffProgressView::Fatal(Failure::SubmoduleNotFound),
                    Some(after) => if replies.len() <= at + 2 {
                        DiffProgressView::Need(
                            QueryView::SubmoduleDiff {
                                path,
                                range: spec_submodule_range(range.operator, before, after),
                            },
                        )
                    } else {
                        match replies[at + 2].files() {
                            None => DiffProgressView::Fatal(Failure::SubmoduleNotFound),
                            Some(files) => DiffProgressView::Done(
                                files.filter(admitted(kinds, filter)),
                            ),
                        }
                    },
                }
            },
        }
    }
}

/// `files` put before what `progress` has found.
pub open spec fn prepend(files: Seq<DiffFileView>, progress: DiffProgressView) -> DiffProgressView {
    match progress {
        DiffProgressView::Done(more) => DiffProgressView::Done(files + more),
        other => other,
    }
}

/// The changed files of the submodules from the `i`-th on, three replies each.
pub open spec fn spec_submodule_diffs(
    range: RangeView,
    kinds: Seq<DiffType>,
    filter: GlobFilter,
    paths: Seq<Seq<char>>,
    i: int,
    replies: Seq<Reply>,
    at: int,
) -> DiffProgressView
    decreases paths.len() - i,
{
    if i < 0 || i >= paths.len() {
        DiffProgressView::Done(Seq::empty())
    } else {
        match spec_submodule_diff(range, kinds, filter, paths[i], replies, at) {
            DiffProgressView::Done(files) => prepend(
                files,
                spec_submodule_diffs(range, kinds, filter, paths, i + 1, replies, at + 3),
            ),
            other => other,
        }
    }
}

/// The diff from the tree of `ancestor` to the tree of the current commit,
/// followed by the diffs of the submodules.
pub open spec fn spec_diff_from(
    range: RangeView,
    ancestor: Seq<char>,
    kinds: Seq<DiffType>,
    filter: GlobFilter,
    replies: Seq<Reply>,
    at: int,
) -> DiffProgressView {
    if replies.len() <= at {
        DiffProgressView::Need(QueryView::TreeDiff { ancestor, current: range.current })
    } else {
        match replies[at].deltas() {
            None => DiffProgressView::Fatal(Failure::DiffUnavailable),
            Some(deltas) => if replies.len() <= at + 1 {
                DiffProgressView::Need(QueryView::Submodules)
            } else {
                prepend(
                    spec_select_changes(deltas, kinds, filter),
                    spec_submodule_diffs(
                        range,
                        kinds,
                        filter,
                        replies[at + 1].names(),
                        0,
                        replies,
                        at + 2,
                    ),
                )
            },
        }
    }
}

/// Where the diff of a range stands after `replies`. Under two dots the
/// ancestor is the previous commit; under three dots it is the merge base of
/// the two commits, which is asked for first.
pub open spec fn spec_diff(range: RangeView, kinds: Seq<DiffType>, filter: GlobFilter, replies: Seq<Reply>) -> DiffProgressView {
    match range.operator {
        DiffOperator::TwoDot => spec_diff_from(range, range.previous, kinds, filter, replies, 0),
        DiffOperator::ThreeDot => if replies.len() == 0 {
            DiffProgressView::Need(QueryView::MergeBase(range.previous, range.current))
        } else {
            match replies[0].commit() {
                None => DiffProgressView::Fatal(Failure::MergeBaseNotFound),
                Some(base) => spec_diff_from(range, base, kinds, filter, replies, 1),
            }
        },
    }
}

/// Whether `kind` is among `kinds`.
pub fn is_wanted(kinds: &[DiffType], kind: DiffType) -> (yes: bool)
    ensures
        yes == kinds@.contains(kind),
{
    let mut i: usize = 0;
    while i < kinds.len()
        invariant
            i <= kinds.len(),
            forall|k: int| 0 <= k < i ==> kinds@[k] != kind,
        decreases kinds.len() - i,
    {
        if kinds[i] == kind {
            return true;
        }
        i += 1;
    }
    false
}

/// Classifies the deltas and keeps those that the request selects.
pub fn select_changes(deltas: &Vec<RawDelta>, kinds: &[DiffType], filter: &GlobFilter) -> (files: Vec<
    DiffFile,
>)
    ensures
        file_views(files@) == spec_select_changes(deltas@, kinds@, *filter),
{
    let mut files: Vec<DiffFile> = Vec::new();
    let ghost pred = selected(kinds@, *filter);
    let mut i: usize = 0;
    proof {
        reveal(Seq::filter);
        assert(deltas@.take(0) =~= Seq::<RawDelta>::empty());
        assert(file_views(files@) =~= deltas@.take(0).filter(pred).map_values(file_of()));
    }
    while i < deltas.len()
        invariant
            i <= deltas.len(),
            pred == selected(kinds@, *filter),
            file_views(files@) == deltas@.take(i as int).filter(pred).map_values(file_of()),
        decreases deltas.len() - i,
    {
        let ghost before = file_views(files@);
        let ghost seen = deltas@.take(i as int);
        proof {
            assert(deltas@.take(i + 1) =~= seen.push(deltas@[i as int]));
            seen.lemma_filter_push(deltas@[i as int], pred);
            seen.filter(pred).lemma_push_map_commute(file_of(), deltas@[i as int]);
        }
        let kind = classify_for_filter(deltas[i].status);
        if is_wanted(kinds, kind) && filter.matches(deltas[i].path.as_str()) {
            files.push(DiffFile { path: deltas[i].path.clone(), diff_type: kind });
            assert(file_views(files@) =~= before.push(file_of()(deltas@[i as int])));
        }
        i += 1;
    }
    assert(deltas@.take(deltas@.len() as int) =~= deltas@);
    files
}

/// Keeps the files that the request selects.
pub fn admit_files(found: &Vec<DiffFile>, kinds: &[DiffType], filter: &GlobFilter) -> (files: Vec<
    DiffFile,
>)
    ensures
        file_views(files@) == file_views(found@).filter(admitted(kinds@, *filter)),
{
    let mut files: Vec<DiffFile> = Vec::new();
    let ghost pred = admitted(kinds@, *filter);
    let ghost all = file_views(found@);
    let mut i: usize = 0;
    proof {
        reveal(Seq::filter);
        assert(all.take(0) =~= Seq::<DiffFileView>::empty());
        assert(file_views(files@) =~= all.take(0).filter(pred));
    }
    while i < found.len()
        invariant
            i <= found.len(),
            all == file_views(found@),
            pred == admitted(kinds@, *filter),
            file_views(files@) == all.take(i as int).filter(pred),
        decreases found.len() - i,
    {
        let ghost before = file_views(files@);
        proof {
            assert(all.take(i + 1) =~= all.take(i as int).push(all[i as int]));
            all.take(i as int).lemma_filter_push(all[i as int], pred);
        }
        if is_wanted(kinds, found[i].diff_type) && filter.matches(found[i].path.as_str()) {
            files.push(DiffFile { path: found[i].path.clone(), diff_type: found[i].diff_type });
            assert(file_views(files@) =~= before.push(all[i as int]));
        }
        i += 1;
    }
    assert(all.take(found@.len() as int) =~= all);
    files
}

/// The range in which a submodule is compared.
pub fn submodule_range(operator: DiffOperator, before: String, after: String) -> (range: RangeContext)
    ensures
        range@ == spec_submodule_range(operator, before@, after@),
{
    RangeContext { previous: before, current: after, operator }
}

/// The changed files of one submodule, from the three replies that start at
/// `at`.
pub fn get_submodule_diff(
    range: &RangeContext,
    diff_types: &[DiffType],
    glob_patterns: &GlobFilter,
    path: &String,
    replies: &Vec<Reply>,
    at: usize,
) -> (progress: DiffProgress)
    ensures
        progress@ == spec_submodule_diff(
            range@,
            diff_types@,
            *glob_patterns,
            path@,
            replies@,
            at as int,
        ),
        progress is Done ==> at + 3 <= replies.len(),
{
    if replies.len() <= at {
        return DiffProgress::Need(
            Query::Gitlink { commit: range.previous.clone(), path: path.clone() },
        );
    }
    let before = match replies[at].get_commit() {
        None => {
            return DiffProgress::Fatal(Failure::SubmoduleNotFound);
        },
        Some(sha) => sha,
    };
    if replies.len() - at <= 1 {
        return DiffProgress::Need(
            Query::Gitlink { commit: range.current.clone(), path: path.clone() },
        );
    }
    let after = match replies[at + 1].get_commit() {
        None => {
            return DiffProgress::Fatal(Failure::SubmoduleNotFound);
        },
        Some(sha) => sha,
    };
    if replies.len() - at <= 2 {
        return DiffProgress::Need(
            Query::SubmoduleDiff {
                path: path.clone(),
                range: submodule_range(range.operator, before, after),
            },
        );
    }
    match &replies[at + 2] {
        Reply::Files(Some(found)) => DiffProgress::Done(
            admit_files(found, diff_types, glob_patterns),
        ),
        _ => DiffProgress::Fatal(Failure::SubmoduleNotFound),
    }
}

fn submodule_diffs(
    range: &RangeContext,
    diff_types: &[DiffType],
    glob_patterns: &GlobFilter,
    paths: &Vec<String>,
    i: usize,
    replies: &Vec<Reply>,
    at: usize,
) -> (progress: DiffProgress)
    requires
        at <= replies.len(),
        i <= paths.len(),
    ensures
        progress@ == spec_submodule_diffs(
            range@,
            diff_types@,
            *glob_patterns,
            views(paths@),
            i as int,
            replies@,
            at as int,
        ),
    decreases paths.len() - i,
{
    if i >= paths.len() {
        let none: Vec<DiffFile> = Vec::new();
        assert(file_views(none@) =~= Seq::<DiffFileView>::empty());
        return DiffProgress::Done(none);
    }
    match get_submodule_diff(range, diff_types, glob_patterns, &paths[i], replies, at) {
        DiffProgress::Done(mut files) => {
            let ghost first = file_views(files@);
            match submodule_diffs(range, diff_types, glob_patterns, paths, i + 1, replies, at + 3) {
                DiffProgress::Done(mut more) => {
                    let ghost rest = file_views(more@);
                    files.append(&mut more);
                    assert(file_views(files@) =~= first + rest);
                    DiffProgress::Done(files)
                },
                other => other,
            }
        },
        other => other,
    }
}

fn diff_from(
    range: &RangeContext,
    ancestor: &String,
    diff_types: &[DiffType],
    glob_patterns: &GlobFilter,
    replies: &Vec<Reply>,
    at: usize,
) -> (progress: DiffProgress)
    requires
        at <= replies.len(),
    ensures
        progress@ == spec_diff_from(
            range@,
            ancestor@,
            diff_types@,
            *glob_patterns,
            replies@,
            at as int,
        ),
{
    if replies.len() <= at {
        return DiffProgress::Need(
            Query::TreeDiff { ancestor: ancestor.clone(), current: range.current.clone() },
        );
    }
    match &replies[at] {
        Reply::Deltas(Some(deltas)) => {
            if replies.len() - at <= 1 {
                return DiffProgress::Need(Query::Submodules);
            }
            let mut files = select_changes(deltas, diff_types, glob_patterns);
            let ghost first = file_views(files@);
            let paths = replies[at + 1].get_names();
            match submodule_diffs(range, diff_types, glob_patterns, &paths, 0, replies, at + 2) {
                DiffProgress::Done(mut more) => {
                    let ghost rest = file_views(more@);
                    files.append(&mut more);
                    assert(file_views(files@) =~= first + rest);
                    DiffProgress::Done(files)
                },
                other => other,
            }
        },
        _ => DiffProgress::Fatal(Failure::DiffUnavailable),
    }
}

/// Computes the changed files of a range that are of one of the wanted kinds
/// and pass the filter.
///
/// `replies` holds the answers to the queries that earlier calls asked for, in
/// the order in which they were asked. The result is the next query, the list
/// of files, or a failure.
pub fn get_diff(
    range: &RangeContext,
    diff_types: &[DiffType],
    glob_patterns: &GlobFilter,
    replies: &Vec<Reply>,
) -> (progress: DiffProgress)
    ensures
        progress@ == spec_diff(range@, diff_types@, *glob_patterns, replies@),
{
    match range.operator {
        DiffOperator::TwoDot => diff_from(
            range,
            &range.previous,
            diff_types,
            glob_patterns,
            replies,
            0,
        ),
        DiffOperator::ThreeDot => {
            if replies.len() == 0 {
                return DiffProgress::Need(
                    Query::MergeBase(range.previous.clone(), range.current.clone()),
                );
            }
            match replies[0].get_commit() {
                None => DiffProgress::Fatal(Failure::MergeBaseNotFound),
                Some(base) => diff_from(range, &base, diff_types, glob_patterns, replies, 1),
            }
        },
    }
}

/// Every kind of change, in the order in which the kinds are declared.
pub open spec fn spec_all_diff_types() -> Seq<DiffType> {
    seq![
        DiffType::Added,
        DiffType::Copied,
        DiffType::Modified,
        DiffType::Deleted,
        DiffType::Renamed,
        DiffType::TypeChanged,
        DiffType::Unmerged,
        DiffType::Unknown,
    ]
}

/// The list of all kinds holds every kind.
pub proof fn lemma_all_diff_types_complete()
    ensures
        forall|kind: DiffType| spec_all_diff_types().contains(kind),
{
    let kinds = spec_all_diff_types();
    assert forall|kind: DiffType| kinds.contains(kind) by {
        match kind {
            DiffType::Added => assert(kinds[0] == kind),
            DiffType::Copied => assert(kinds[1] == kind),
            DiffType::Modified => assert(kinds[2] == kind),
            DiffType::Deleted => assert(kinds[3] == kind),
            DiffType::Renamed => assert(kinds[4] == kind),
            DiffType::TypeChanged => assert(kinds[5] == kind),
            DiffType::Unmerged => assert(kinds[6] == kind),
            DiffType::Unknown => assert(kinds[7] == kind),
        }
    }
}

/// The kinds to ask for when every change is wanted.
pub fn all_diff_types() -> (kinds: Vec<DiffType>)
    ensures
        kinds@ == spec_all_diff_types(),
        forall|kind: DiffType| kinds@.contains(kind),
{
    let mut kinds: Vec<DiffType> = Vec::new();
    kinds.push(DiffType::Added);
    kinds.push(DiffType::Copied);
    kinds.push(DiffType::Modified);
    kinds.push(DiffType::Deleted);
    kinds.push(DiffType::Renamed);
    kinds.push(DiffType::TypeChanged);
    kinds.push(DiffType::Unmerged);
    kinds.push(DiffType::Unknown);
    assert(kinds@ =~= spec_all_diff_types());
    proof {
        lemma_all_diff_types_complete();
    }
    kinds
}

/// A list of which every element satisfies a predicate loses nothing when it
/// is filtered by it.
pub proof fn lemma_filter_all<A>(list: Seq<A>, pred: spec_fn(A) -> bool)
    requires
        forall|i: int| 0 <= i < list.len() ==> pred(#[trigger] list[i]),
    ensures
        list.filter(pred) == list,
    decreases list.len(),
{
    reveal(Seq::filter);
    if list.len() > 0 {
        lemma_filter_all(list.drop_last(), pred);
        assert(list.drop_last().push(list.last()) =~= list);
    }
}

/// A diff with two dots compares the tree of the previous commit directly with
/// the tree of the current one: that is the first thing it asks for, and no
/// merge base is involved.
pub proof fn lemma_two_dot_compares_directly(
    range: RangeView,
    kinds: Seq<DiffType>,
    filter: GlobFilter,
)
    requires
        range.operator == DiffOperator::TwoDot,
    ensures
        spec_diff(range, kinds, filter, Seq::empty()) == DiffProgressView::Need(
            QueryView::TreeDiff { ancestor: range.previous, current: range.current },
        ),
{
}

/// With every kind wanted and a filter without patterns, the changed files
/// are exactly the deltas: one file for each delta, in the same order, no more
/// and no fewer.
pub proof fn lemma_unfiltered_is_exact(deltas: Seq<RawDelta>, kinds: Seq<DiffType>, filter: GlobFilter)
    requires
        forall|kind: DiffType| kinds.contains(kind),
        filter.wanted@.len() == 0,
        filter.ignored@.len() == 0,
    ensures
        spec_select_changes(deltas, kinds, filter) == deltas.map_values(file_of()),
        spec_select_changes(deltas, kinds, filter).len() == deltas.len(),
        forall|i: int|
            0 <= i < deltas.len() ==> (#[trigger] spec_select_changes(deltas, kinds, filter)[i]).path
                == deltas[i].path@,
{
    let pred = selected(kinds, filter);
    assert forall|i: int| 0 <= i < deltas.len() implies pred(#[trigger] deltas[i]) by {
        assert(views(filter.wanted@).len() == 0);
        assert(views(filter.ignored@).len() == 0);
    }
    lemma_filter_all(deltas, pred);
}

/// In a repository without submodules, a diff with two dots, every kind wanted
/// and no patterns yields exactly the deltas between the two trees.
pub proof fn lemma_two_dot_unfiltered_diff(
    range: RangeView,
    kinds: Seq<DiffType>,
    filter: GlobFilter,
    replies: Seq<Reply>,
)
    requires
        range.operator == DiffOperator::TwoDot,
        forall|kind: DiffType| kinds.contains(kind),
        filter.wanted@.len() == 0,
        filter.ignored@.len() == 0,
        replies.len() >= 2,
        replies[0].deltas() is Some,
        replies[1].names().len() == 0,
    ensures
        spec_diff(range, kinds, filter, replies) == DiffProgressView::Done(
            replies[0].deltas().unwrap().map_values(file_of()),
        ),
{
    let deltas = replies[0].deltas().unwrap();
    lemma_unfiltered_is_exact(deltas, kinds, filter);
    assert(deltas.map_values(file_of()) + Seq::<DiffFileView>::empty() =~= deltas.map_values(
        file_of(),
    ));
}

/// `replies` are the answers of `world` to the queries of a diff: each reply
/// is what `world` says to the query that the diff asks for after the replies
/// before it.
pub open spec fn answers_of(
    range: RangeView,
    kinds: Seq<DiffType>,
    filter: GlobFilter,
    world: spec_fn(QueryView) -> Reply,
    replies: Seq<Reply>,
) -> bool {
    forall|i: int|
        0 <= i < replies.len() ==> ((#[trigger] spec_diff(range, kinds, filter, replies.take(i)))
            matches DiffProgressView::Need(query) && replies[i] == world(query))
}

/// Two runs of a diff that are answered by the same world get the same
/// replies, as far as both go.
pub proof fn lemma_same_answers(
    range: RangeView,
    kinds: Seq<DiffType>,
    filter: GlobFilter,
    world: spec_fn(QueryView) -> Reply,
    first: Seq<Reply>,
    second: Seq<Reply>,
    k: int,
)
    requires
        answers_of(range, kinds, filter, world, first),
        answers_of(range, kinds, filter, world, second),
        0 <= k <= first.len(),
        k <= second.len(),
    ensures
        first.take(k) == second.take(k),
    decreases k,
{
    if k == 0 {
        assert(first.take(0) =~= second.take(0));
    } else {
        lemma_same_answers(range, kinds, filter, world, first, second, k - 1);
        let asked = spec_diff(range, kinds, filter, first.take(k - 1));
        assert(asked == spec_diff(range, kinds, filter, second.take(k - 1)));
        assert(first[k - 1] == second[k - 1]);
        assert(first.take(k) =~= first.take(k - 1).push(first[k - 1]));
        assert(second.take(k) =~= second.take(k - 1).push(second[k - 1]));
    }
}

/// Computing a diff twice from the same range, the same kinds and the same
/// filter, against the same state of the repository, takes the same replies
/// and gives the same files in the same order.
pub proof fn lemma_diff_idempotent(
    range: RangeView,
    kinds: Seq<DiffType>,
    filter: GlobFilter,
    world: spec_fn(QueryView) -> Reply,
    first: Seq<Reply>,
    second: Seq<Reply>,
)
    requires
        answers_of(range, kinds, filter, world, first),
        answers_of(range, kinds, filter, world, second),
        !(spec_diff(range, kinds, filter, first) is Need),
        !(spec_diff(range, kinds, filter, second) is Need),
    ensures
        first == second,
        spec_diff(range, kinds, filter, first) == spec_diff(range, kinds, filter, second),
{
    let k = if first.len() <= second.len() {
        first.len() as int
    } else {
        second.len() as int
    };
    lemma_same_answers(range, kinds, filter, world, first, second, k);
    assert(first.take(first.len() as int) =~= first);
    assert(second.take(second.len() as int) =~= second);
    if first.len() < second.len() {
        assert(spec_diff(range, kinds, filter, second.take(k)) is Need);
    } else if second.len() < first.len() {
        assert(spec_diff(range, kinds, filter, first.take(k)) is Need);
    }
}

/// Every file that the submodules contribute is of a wanted kind and passes
/// the filter.
pub proof fn lemma_submodule_files_selected(
    range: RangeView,
    kinds: Seq<DiffType>,
    filter: GlobFilter,
    paths: Seq<Seq<char>>,
    i: int,
    replies: Seq<Reply>,
    at: int,
)
    ensures
        spec_submodule_diffs(range, kinds, filter, paths, i, replies, at) matches DiffProgressView::Done(
            files,
        ) ==> forall|k: int| 0 <= k < files.len() ==> admitted(kinds, filter)(#[trigger] files[k]),
    decreases paths.len() - i,
{
    if 0 <= i < paths.len() {
        lemma_submodule_files_selected(range, kinds, filter, paths, i + 1, replies, at + 3);
        match spec_submodule_diff(range, kinds, filter, paths[i], replies, at) {
            DiffProgressView::Done(files) => {
                let found = replies[at + 2].files().unwrap();
                assert forall|k: int| 0 <= k < files.len() implies admitted(kinds, filter)(
                    #[trigger] files[k],
                ) by {
                    found.lemma_filter_pred(admitted(kinds, filter), k);
                }
            },
            _ => {},
        }
    }
}

/// Every file of a result is of a wanted kind and passes the filter, whatever
/// the replies say.
pub proof fn lemma_diff_files_selected(
    range: RangeView,
    kinds: Seq<DiffType>,
    filter: GlobFilter,
    replies: Seq<Reply>,
)
    ensures
        spec_diff(range, kinds, filter, replies) matches DiffProgressView::Done(files) ==> forall|
            k: int,
        |
            0 <= k < files.len() ==> kinds.contains((#[trigger] files[k]).diff_type) && filter.keeps(
                files[k].path,
            ),
{
    let at: int = match range.operator {
        DiffOperator::TwoDot => 0,
        DiffOperator::ThreeDot => 1,
    };
    match spec_diff(range, kinds, filter, replies) {
        DiffProgressView::Done(files) => {
            let deltas = replies[at].deltas().unwrap();
            let kept = deltas.filter(selected(kinds, filter));
            let own = spec_select_changes(deltas, kinds, filter);
            lemma_submodule_files_selected(
                range,
                kinds,
                filter,
                replies[at + 1].names(),
                0,
                replies,
                at + 2,
            );
            assert forall|k: int| 0 <= k < files.len() implies kinds.contains(
                (#[trigger] files[k]).diff_type,
            ) && filter.keeps(files[k].path) by {
                if k < own.len() {
                    deltas.lemma_filter_pred(selected(kinds, filter), k);
                    assert(files[k] == file_of()(kept[k]));
                } else {
                    let sub = spec_submodule_diffs(
                        range,
                        kinds,
                        filter,
                        replies[at + 1].names(),
                        0,
                        replies,
                        at + 2,
                    )->Done_0;
                    assert(files[k] == sub[k - own.len()]);
                    assert(admitted(kinds, filter)(sub[k - own.len()]));
                }
            }
        },
        _ => {},
    }
}

/// The range in which a submodule is compared is made of the commits that the
/// trees of the two ends record for it, not of the two ends themselves; the
/// operator is the one of the range it is seen from.
pub proof fn lemma_submodule_range_from_gitlinks(
    range: RangeView,
    kinds: Seq<DiffType>,
    filter: GlobFilter,
    path: Seq<char>,
    replies: Seq<Reply>,
    at: int,
)
    requires
        0 <= at,
        replies.len() == at + 2,
        replies[at].commit() is Some,
        replies[at + 1].commit() is Some,
    ensures
        spec_submodule_diff(range, kinds, filter, path, replies, at) == DiffProgressView::Need(
            QueryView::SubmoduleDiff {
                path,
                range: RangeView {
                    previous: replies[at].commit().unwrap(),
                    current: replies[at + 1].commit().unwrap(),
                    operator: range.operator,
                },
            },
        ),
{
}

/// In a repository with one submodule, the result holds the selected changes
/// of the repository followed by the selected changes inside the submodule.
pub proof fn lemma_submodule_changes_included(
    range: RangeView,
    ancestor: Seq<char>,
    kinds: Seq<DiffType>,
    filter: GlobFilter,
    replies: Seq<Reply>,
    at: int,
)
    requires
        0 <= at,
        replies.len() >= at + 5,
        replies[at].deltas() is Some,
        replies[at + 1].names().len() == 1,
        replies[at + 2].commit() is Some,
        replies[at + 3].commit() is Some,
        replies[at + 4].files() is Some,
    ensures
        spec_diff_from(range, ancestor, kinds, filter, replies, at) == DiffProgressView::Done(
            spec_select_changes(replies[at].deltas().unwrap(), kinds, filter) + replies[at
                + 4].files().unwrap().filter(admitted(kinds, filter)),
        ),
{
    let paths = replies[at + 1].names();
    let inner = replies[at + 4].files().unwrap().filter(admitted(kinds, filter));
    assert(spec_submodule_diffs(range, kinds, filter, paths, 1, replies, at + 5)
        == DiffProgressView::Done(Seq::<DiffFileView>::empty()));
    assert(inner + Seq::<DiffFileView>::empty() =~= inner);
    assert(spec_submodule_diffs(range, kinds, filter, paths, 0, replies, at + 2)
        == DiffProgressView::Done(inner));
}

/// The diffs of the submodules end: three replies for each submodule that is
/// left are enough, whatever they say.
pub proof fn lemma_submodule_diffs_terminate(
    range: RangeView,
    kinds: Seq<DiffType>,
    filter: GlobFilter,
    paths: Seq<Seq<char>>,
    i: int,
    replies: Seq<Reply>,
    at: int,
)
    requires
        0 <= i <= paths.len(),
        0 <= at,
        replies.len() >= at + 3 * (paths.len() - i),
    ensures
        !(spec_submodule_diffs(range, kinds, filter, paths, i, replies, at) is Need),
    decreases paths.len() - i,
{
    if i < paths.len() {
        lemma_submodule_diffs_terminate(range, kinds, filter, paths, i + 1, replies, at + 3);
    }
}

/// A diff ends: once the replies hold the list of submodules and three replies
/// for each of them, no further query is asked.
pub proof fn lemma_diff_terminates(
    range: RangeView,
    kinds: Seq<DiffType>,
    filter: GlobFilter,
    replies: Seq<Reply>,
)
    requires
        ({
            let first: int = if range.operator == DiffOperator::ThreeDot {
                1
            } else {
                0
            };
            replies.len() >= first + 2 && replies.len() >= first + 2 + 3 * replies[first
                + 1].names().len()
        }),
    ensures
        !(spec_diff(range, kinds, filter, replies) is Need),
{
    let first: int = if range.operator == DiffOperator::ThreeDot {
        1
    } else {
        0
    };
    lemma_submodule_diffs_terminate(
        range,
        kinds,
        filter,
        replies[first + 1].names(),
        0,
        replies,
        first + 2,
    );
}

/// The index of the reply that holds the deltas of the repository.
pub open spec fn diff_first(range: RangeView) -> int {
    if range.operator == DiffOperator::ThreeDot {
        1
    } else {
        0
    }
}

/// How many replies a diff can still ask for once the submodules are known.
pub open spec fn diff_remaining(range: RangeView, replies: Seq<Reply>) -> int {
    let first = diff_first(range);
    if replies.len() < first + 2 {
        first + 2 - replies.len()
    } else {
        first + 2 + 3 * replies[first + 1].names().len() - replies.len()
    }
}

/// The `i`-th of `replies` is what `answer` gave to the query that the diff
/// asked for after the replies before it.
pub open spec fn diff_answered<F: Fn(&Query) -> Reply>(
    range: RangeView,
    kinds: Seq<DiffType>,
    filter: GlobFilter,
    answer: F,
    replies: Seq<Reply>,
    i: int,
) -> bool {
    exists|query: Query|
        spec_diff(range, kinds, filter, replies.take(i)) == DiffProgressView::Need(query@)
            && call_ensures(answer, (&query,), replies[i])
}

/// Computes the changed files of a range, asking `answer` for the reply to
/// each query in turn. The run ends; its outcome is where the diff stands
/// after the replies that `answer` gave, which are returned with it.
pub fn compute_diff<F: Fn(&Query) -> Reply>(
    range: &RangeContext,
    diff_types: &[DiffType],
    glob_patterns: &GlobFilter,
    answer: F,
) -> (found: (DiffProgress, Vec<Reply>))
    requires
        forall|query: &Query| call_requires(answer, (query,)),
    ensures
        !(found.0 is Need),
        found.0@ == spec_diff(range@, diff_types@, *glob_patterns, found.1@),
        forall|i: int|
            0 <= i < found.1@.len() ==> #[trigger] diff_answered(
                range@,
                diff_types@,
                *glob_patterns,
                answer,
                found.1@,
                i,
            ),
{
    let mut replies: Vec<Reply> = Vec::new();
    loop
        invariant
            forall|query: &Query| call_requires(answer, (query,)),
            forall|i: int|
                0 <= i < replies@.len() ==> #[trigger] diff_answered(
                    range@,
                    diff_types@,
                    *glob_patterns,
                    answer,
                    replies@,
                    i,
                ),
        decreases
                (if replies@.len() < diff_first(range@) + 2 {
                    1int
                } else {
                    0int
                }),
                diff_remaining(range@, replies@),
    {
        proof {
            if replies@.len() >= diff_first(range@) + 2 && diff_remaining(range@, replies@) <= 0 {
                lemma_diff_terminates(range@, diff_types@, *glob_patterns, replies@);
            }
        }
        match get_diff(range, diff_types, glob_patterns, &replies) {
            DiffProgress::Need(query) => {
                let reply = answer(&query);
                let ghost before = replies@;
                replies.push(reply);
                proof {
                    assert forall|i: int| 0 <= i < replies@.len() implies #[trigger] diff_answered(
                        range@,
                        diff_types@,
                        *glob_patterns,
                        answer,
                        replies@,
                        i,
                    ) by {
                        if i < before.len() {
                            assert(diff_answered(
                                range@,
                                diff_types@,
                                *glob_patterns,
                                answer,
                                before,
                                i,
                            ));
                            assert(replies@.take(i) =~= before.take(i));
                        } else {
                            assert(replies@.take(i) =~= before);
                        }
                    }
                }
            },
            outcome => {
                return (outcome, replies);
            },
        }
    }
}

} // verus!
