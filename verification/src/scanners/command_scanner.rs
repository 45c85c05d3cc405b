//! The command scanner: finds command files (`*Command.*`) below the root
//! and reads their name and whether they carry an aggregate id.

use vstd::prelude::*;

use crate::config::CommandConfig;
use crate::domain::Command;
use crate::error::VsaError;
use crate::path::file_name_str;
use crate::text::{contains, ends_with, owned, str_contains, str_ends_with};
use crate::tree::{FsEntry, ProjectTree};
use crate::validation::file_name_or_empty;
use super::event_scanner::{strip_event_ext, strip_event_ext_str};
use super::file_walk::{suffixed_files, suffixed_files_exec};
use super::projection_scanner::invalid_utf8_message;

verus! {

/// Scanner for finding commands.
pub struct CommandScanner<'a> {
    config: &'a CommandConfig,
    root: &'a str,
}

/// Whether the text of a command names an aggregate id.
pub open spec fn names_aggregate_id(content: Seq<char>) -> bool {
    contains(content, "aggregateId"@) || contains(content, "aggregate_id"@)
}

/// Whether `c` is the command the file at `p`, with text `content`,
/// describes.
pub open spec fn is_command_of(c: Command, p: Seq<char>, content: Seq<char>) -> bool {
    &&& c.name@ == strip_event_ext(file_name_or_empty(p))
    &&& c.context is None
    &&& c.file_path@ == p
    &&& c.has_aggregate_id == names_aggregate_id(content)
    &&& c.fields@.len() == 0
}

/// Whether `c` is what parsing the file of entry `e` gives; false when its
/// text could not be read.
pub open spec fn command_at(c: Command, e: FsEntry) -> bool {
    match e.content {
        Some(t) => is_command_of(c, e.path@, t@),
        None => false,
    }
}

/// What scanning from `root` gives: a command for each command file met,
/// in tree order, or an error when one of them could not be read.
pub open spec fn command_scan_outcome(r: Result<Vec<Command>, VsaError>, es: Seq<FsEntry>, root: Seq<char>) -> bool {
    let idx = suffixed_files(es, root, "Command"@);
    match r {
        Ok(v) => v@.len() == idx.len() && forall|k: int|
            0 <= k < idx.len() ==> command_at(#[trigger] v@[k], es[idx[k]]),
        Err(e) => (e matches VsaError::IoError(m) && m@ == invalid_utf8_message()) && exists|k: int|
            0 <= k < idx.len() && (#[trigger] es[idx[k]]).content is None,
    }
}

impl<'a> CommandScanner<'a> {
    /// A scanner of the commands below `root`.
    pub fn new(config: &'a CommandConfig, root: &'a str) -> (r: Self)
        ensures
            r.spec_root() == root@,
    {
        CommandScanner { config, root }
    }

    /// The root the scanner searches.
    pub closed spec fn spec_root(&self) -> Seq<char> {
        self.root@
    }

    /// Whether a file name is a command's.
    pub fn matches_pattern(&self, file_name: &str) -> (r: bool)
        ensures
            r == ends_with(strip_event_ext(file_name@), "Command"@),
    {
        let n = strip_event_ext_str(file_name);
        str_ends_with(n.as_str(), "Command")
    }

    /// The name of a command: its file name without the extension.
    pub fn extract_command_name(&self, file_name: &str) -> (r: Result<String, VsaError>)
        ensures
            r matches Ok(n) && n@ == strip_event_ext(file_name@),
    {
        Ok(strip_event_ext_str(file_name))
    }

    /// The command the file at `path`, named `file_name`, with text
    /// `content`, describes.
    pub fn parse_command(&self, path: &str, file_name: &str, content: &str) -> (r: Result<
        Option<Command>,
        VsaError,
    >)
        requires
            file_name@ == file_name_or_empty(path@),
        ensures
            r matches Ok(Some(c)) && is_command_of(c, path@, content@),
    {
        let name = match self.extract_command_name(file_name) {
            Ok(n) => n,
            Err(e) => return Err(e),
        };
        let has_aggregate_id = str_contains(content, "aggregateId") || str_contains(
            content,
            "aggregate_id",
        );
        Ok(
            Some(
                Command {
                    name,
                    context: None,
                    file_path: owned(path),
                    has_aggregate_id,
                    fields: Vec::new(),
                },
            ),
        )
    }

    /// Scan for commands: each command file below the root, through
    /// directories that are not hidden, in tree order. A command file that
    /// cannot be read as UTF-8 makes the scan fail.
    pub fn scan(&self, tree: &ProjectTree) -> (r: Result<Vec<Command>, VsaError>)
        ensures
            command_scan_outcome(r, tree.entries@, self.spec_root()),
    {
        let ghost es = tree.entries@;
        let idx = suffixed_files_exec(tree, self.root, "Command");
        let ghost iv = idx@.map_values(|i: usize| i as int);
        let mut out: Vec<Command> = Vec::new();
        let mut k: usize = 0;
        while k < idx.len()
            invariant
                k <= idx@.len(),
                es == tree.entries@,
                iv == idx@.map_values(|i: usize| i as int),
                iv == suffixed_files(es, self.root@, "Command"@),
                forall|m: int| 0 <= m < idx@.len() ==> #[trigger] idx@[m] < es.len(),
                out@.len() == k,
                forall|m: int| 0 <= m < k ==> command_at(#[trigger] out@[m], es[iv[m]]),
            decreases idx.len() - k,
        {
            let i = idx[k];
            assert(iv[k as int] == i as int);
            let e = &tree.entries[i];
            match &e.content {
                Some(c) => {
                    let name = match file_name_str(e.path.as_str()) {
                        Some(n) => n,
                        None => String::new(),
                    };
                    match self.parse_command(e.path.as_str(), name.as_str(), c.as_str()) {
                        Ok(Some(cmd)) => out.push(cmd),
                        _ => {},
                    }
                },
                None => {
                    assert(es[iv[k as int]].content is None);
                    return Err(VsaError::IoError(owned("stream did not contain valid UTF-8")));
                },
            }
            k = k + 1;
        }
        Ok(out)
    }
}

} // verus!
