//! The kinds of change, the operators that compare two commits, and the
//! records that describe one changed file.

use vstd::prelude::*;

verus! {

/// The status that the commit-graph provider reports for one delta.
#[derive(Clone, Copy, Debug, PartialEq, Eq, Structural)]
pub enum RawStatus {
    Unmodified,
    Added,
    Deleted,
    Modified,
    Renamed,
    Copied,
    Ignored,
    Untracked,
    Typechange,
    Unreadable,
    Conflicted,
}

/// How a file changed between the two compared trees.
#[derive(Clone, Copy, Debug, PartialEq, Eq, Structural)]
pub enum DiffType {
    Added,
    Copied,
    Modified,
    Deleted,
    Renamed,
    TypeChanged,
    Unmerged,
    Unknown,
}

/// The mapping used when a delta is looked at without a request for particular
/// kinds: statuses of files that git does not track count as additions.
pub open spec fn spec_classify_for_detection(status: RawStatus) -> DiffType {
    match status {
        RawStatus::Added => DiffType::Added,
        RawStatus::Copied => DiffType::Copied,
        RawStatus::Deleted => DiffType::Deleted,
        RawStatus::Modified => DiffType::Modified,
        RawStatus::Renamed => DiffType::Renamed,
        RawStatus::Typechange => DiffType::TypeChanged,
        RawStatus::Conflicted => DiffType::Unmerged,
        RawStatus::Untracked | RawStatus::Ignored | RawStatus::Unreadable => DiffType::Added,
        RawStatus::Unmodified => DiffType::Unknown,
    }
}

/// The mapping used by the diff engine when it answers a request for a set of
/// kinds: statuses of files that git does not track are of unknown kind.
pub open spec fn spec_classify_for_filter(status: RawStatus) -> DiffType {
    match status {
        RawStatus::Added => DiffType::Added,
        RawStatus::Copied => DiffType::Copied,
        RawStatus::Deleted => DiffType::Deleted,
        RawStatus::Modified => DiffType::Modified,
        RawStatus::Renamed => DiffType::Renamed,
        RawStatus::Typechange => DiffType::TypeChanged,
        RawStatus::Conflicted => DiffType::Unmerged,
        RawStatus::Untracked | RawStatus::Ignored | RawStatus::Unreadable
        | RawStatus::Unmodified => DiffType::Unknown,
    }
}

pub fn classify_for_detection(status: RawStatus) -> (kind: DiffType)
    ensures
        kind == spec_classify_for_detection(status),
{
    match status {
        RawStatus::Added => DiffType::Added,
        RawStatus::Copied => DiffType::Copied,
        RawStatus::Deleted => DiffType::Deleted,
        RawStatus::Modified => DiffType::Modified,
        RawStatus::Renamed => DiffType::Renamed,
        RawStatus::Typechange => DiffType::TypeChanged,
        RawStatus::Conflicted => DiffType::Unmerged,
        RawStatus::Untracked => DiffType::Added,
        RawStatus::Ignored => DiffType::Added,
        RawStatus::Unreadable => DiffType::Added,
        RawStatus::Unmodified => DiffType::Unknown,
    }
}

pub fn classify_for_filter(status: RawStatus) -> (kind: DiffType)
    ensures
        kind == spec_classify_for_filter(status),
{
    match status {
        RawStatus::Added => DiffType::Added,
        RawStatus::Copied => DiffType::Copied,
        RawStatus::Deleted => DiffType::Deleted,
        RawStatus::Modified => DiffType::Modified,
        RawStatus::Renamed => DiffType::Renamed,
        RawStatus::Typechange => DiffType::TypeChanged,
        RawStatus::Conflicted => DiffType::Unmerged,
        RawStatus::Untracked => DiffType::Unknown,
        RawStatus::Ignored => DiffType::Unknown,
        RawStatus::Unreadable => DiffType::Unknown,
        RawStatus::Unmodified => DiffType::Unknown,
    }
}

impl From<RawStatus> for DiffType {
    /// The kind of a delta that is looked at without a request for particular
    /// kinds.
    fn from(status: RawStatus) -> (kind: DiffType) {
        classify_for_detection(status)
    }
}

impl vstd::std_specs::convert::FromSpecImpl<RawStatus> for DiffType {
    open spec fn obeys_from_spec() -> bool {
        true
    }

    open spec fn from_spec(status: RawStatus) -> DiffType {
        spec_classify_for_detection(status)
    }
}

/// How two commits are compared.
#[derive(Clone, Copy, Debug, PartialEq, Eq, Structural)]
pub enum DiffOperator {
    /// The tree of the previous commit against the tree of the current one.
    TwoDot,
    /// The tree of the merge base of the two commits against the current one.
    ThreeDot,
}

/// The text of an operator: two dots or three.
pub open spec fn spec_symbol(operator: DiffOperator) -> Seq<char> {
    match operator {
        DiffOperator::TwoDot => seq!['.', '.'],
        DiffOperator::ThreeDot => seq!['.', '.', '.'],
    }
}

impl DiffOperator {
    /// The operator as git writes it between two revisions.
    pub fn symbol(&self) -> (text: &'static str)
        ensures
            text@ == spec_symbol(*self),
    {
        match self {
            DiffOperator::TwoDot => {
                proof {
                    reveal_strlit("..");
                }
                assert(".."@ =~= seq!['.', '.']);
                ".."
            },
            DiffOperator::ThreeDot => {
                proof {
                    reveal_strlit("...");
                }
                assert("..."@ =~= seq!['.', '.', '.']);
                "..."
            },
        }
    }

    /// Reads an operator; any text but two or three dots is none.
    pub fn from_symbol(text: &str) -> (operator: Option<DiffOperator>)
        ensures
            match operator {
                Some(op) => text@ == spec_symbol(op),
                None => text@ != spec_symbol(DiffOperator::TwoDot) && text@ != spec_symbol(
                    DiffOperator::ThreeDot,
                ),
            },
    {
        let chars = crate::text::chars_of(text);
        let n: usize = chars.len();
        if n == 2 && chars[0] == '.' && chars[1] == '.' {
            assert(text@ =~= seq!['.', '.']);
            Some(DiffOperator::TwoDot)
        } else if n == 3 && chars[0] == '.' && chars[1] == '.' && chars[2] == '.' {
            assert(text@ =~= seq!['.', '.', '.']);
            Some(DiffOperator::ThreeDot)
        } else {
            assert(text@ != seq!['.', '.']) by {
                if text@ == seq!['.', '.'] {
                    assert(seq!['.', '.'].len() == 2);
                    assert(seq!['.', '.'][0] == '.');
                    assert(seq!['.', '.'][1] == '.');
                }
            }
            assert(text@ != seq!['.', '.', '.']) by {
                if text@ == seq!['.', '.', '.'] {
                    assert(seq!['.', '.', '.'].len() == 3);
                    assert(seq!['.', '.', '.'][0] == '.');
                    assert(seq!['.', '.', '.'][1] == '.');
                    assert(seq!['.', '.', '.'][2] == '.');
                }
            }
            None
        }
    }
}

/// The two commits to compare and the operator to compare them with.
#[derive(Clone, Debug, PartialEq, Eq)]
pub struct RangeContext {
    /// The commit that stands for the state before.
    pub previous: String,
    /// The commit that stands for the state after.
    pub current: String,
    pub operator: DiffOperator,
}

/// What a [`RangeContext`] holds, as values.
pub struct RangeView {
    pub previous: Seq<char>,
    pub current: Seq<char>,
    pub operator: DiffOperator,
}

impl View for RangeContext {
    type V = RangeView;

    open spec fn view(&self) -> RangeView {
        RangeView { previous: self.previous@, current: self.current@, operator: self.operator }
    }
}

impl RangeContext {
    /// A copy of the range.
    pub fn duplicate(&self) -> (copy: RangeContext)
        ensures
            copy@ == self@,
    {
        RangeContext {
            previous: self.previous.clone(),
            current: self.current.clone(),
            operator: self.operator,
        }
    }
}

/// One delta as the commit-graph provider reports it.
#[derive(Clone, Debug, PartialEq, Eq)]
pub struct RawDelta {
    pub status: RawStatus,
    /// The path of the file on the new side of the delta.
    pub path: String,
}

/// One changed file of a result.
#[derive(Clone, Debug, PartialEq, Eq)]
pub struct DiffFile {
    pub path: String,
    pub diff_type: DiffType,
}

/// What a [`DiffFile`] holds, as values.
pub struct DiffFileView {
    pub path: Seq<char>,
    pub diff_type: DiffType,
}

impl View for DiffFile {
    type V = DiffFileView;

    open spec fn view(&self) -> DiffFileView {
        DiffFileView { path: self.path@, diff_type: self.diff_type }
    }
}

/// The views of a list of files.
pub open spec fn file_views(files: Seq<DiffFile>) -> Seq<DiffFileView> {
    Seq::new(files.len(), |i: int| files[i]@)
}

} // verus!
