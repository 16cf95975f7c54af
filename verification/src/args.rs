//! The options of a run.

use vstd::prelude::*;

verus! {

/// The options that the command line gives.
#[derive(Clone, Debug, PartialEq, Eq)]
pub struct Args {
    /// Split character for output strings.
    pub separator: String,
    /// Whether to list the old and new names of all renamed files.
    pub include_all_old_new_renamed_files: bool,
    /// Split character between the old and the new name of a pair.
    pub old_new_separator: String,
    /// Split character between pairs of old and new names.
    pub old_new_files_separator: String,
    /// Patterns of the files to detect changes in; empty for the whole
    /// repository.
    pub files: String,
    /// Separator of the `files` list.
    pub files_separator: String,
    /// Source files that hold further patterns for `files`.
    pub files_from_source_file: String,
    /// Separator of the `files_from_source_file` list.
    pub files_from_source_file_separator: String,
    /// Patterns of the files whose changes are ignored.
    pub files_ignore: String,
    /// Separator of the `files_ignore` list.
    pub files_ignore_separator: String,
    /// Source files that hold further patterns for `files_ignore`.
    pub files_ignore_from_source_file: String,
    /// Separator of the `files_ignore_from_source_file` list.
    pub files_ignore_from_source_file_separator: String,
    /// The commit to take for the current one.
    pub sha: String,
    /// The commit to take for the previous one.
    pub base_sha: String,
    /// Compare with the state before the commits made since this time.
    pub since: String,
    /// Take the state at this time for the current one.
    pub until: String,
    /// Where the repository lies, relative to the workspace.
    pub path: String,
    /// The text `false` to have file names written out verbatim.
    pub quotepath: String,
    /// A directory to which the changes are restricted and paths relative.
    pub diff_relative: String,
    /// Give the changed directories in place of the files.
    pub dir_names: bool,
    /// How deep the directories given may lie.
    pub dir_names_max_depth: String,
    /// Leave the root directory out of the directories given.
    pub dir_names_exclude_root: bool,
    /// Give the lists as JSON.
    pub json: bool,
    /// Give the JSON without quotes and escapes.
    pub json_raw_format: bool,
    /// By how many commits a fetch deepens the history.
    pub fetch_depth: u32,
    /// Compare with the last commit that the remote had.
    pub since_last_remote_commit: bool,
    /// Write the outputs to files.
    pub write_output_files: bool,
    /// The directory for the output files.
    pub output_dir: String,
    /// Whether directories count as matches.
    pub match_directories: bool,
}

} // verus!
