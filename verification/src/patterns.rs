//! Pattern matching of VSA file types: a file's stem against a glob-like
//! pattern of the configuration.

use vstd::prelude::*;

use crate::config::PatternsConfig;
use crate::path::{file_stem_of, file_stem_str};
use crate::re::{regex_is_match, regex_matches};
use crate::text::{chars_of, string_of};

verus! {

/// Pattern matcher for VSA file types.
#[derive(Debug)]
pub struct PatternMatcher {
    patterns: PatternsConfig,
    extension: String,
}

/// VSA file type.
#[derive(Debug, Clone, Copy, PartialEq, Eq, Structural)]
pub enum FileType {
    Command,
    Event,
    IntegrationEvent,
    Handler,
    Query,
    Test,
}

/// What one glob character becomes in a regular expression: `.` is
/// escaped, `*` matches any run, `?` any character.
pub open spec fn glob_piece(c: char) -> Seq<char> {
    if c == '.' {
        seq!['\\', '.']
    } else if c == '*' {
        seq!['.', '*']
    } else if c == '?' {
        seq!['.']
    } else {
        seq![c]
    }
}

/// The regular-expression pieces of the glob characters of `p`, in order.
pub open spec fn glob_body(p: Seq<char>) -> Seq<char>
    decreases p.len(),
{
    if p.len() == 0 {
        Seq::empty()
    } else {
        glob_body(p.drop_last()) + glob_piece(p.last())
    }
}

/// The regular expression a glob pattern stands for, anchored at both ends
/// so that the glob must match the whole stem.
pub open spec fn glob_regex(p: Seq<char>) -> Seq<char> {
    seq!['^'] + glob_body(p) + seq!['$']
}

/// Whether the stem of the file at `path` matches the glob `pattern` as a
/// whole (`*Command` matches the stems that end in `Command`); a pattern
/// that does not compile matches nothing.
pub open spec fn matches_glob(pattern: Seq<char>, path: Seq<char>) -> bool {
    match regex_matches(glob_regex(pattern), file_stem_of(path)) {
        Some(b) => b,
        None => false,
    }
}

/// The regular expression for a glob pattern.
pub fn glob_to_regex(pattern: &str) -> (r: String)
    ensures
        r@ == glob_regex(pattern@),
{
    let pc = chars_of(pattern);
    let mut out: Vec<char> = Vec::new();
    out.push('^');
    let mut i: usize = 0;
    while i < pc.len()
        invariant
            i <= pc.len(),
            out@ == seq!['^'] + glob_body(pc@.subrange(0, i as int)),
        decreases pc.len() - i,
    {
        let c = pc[i];
        let ghost before = out@;
        if c == '.' {
            out.push('\\');
            out.push('.');
        } else if c == '*' {
            out.push('.');
            out.push('*');
        } else if c == '?' {
            out.push('.');
        } else {
            out.push(c);
        }
        assert(pc@.subrange(0, i + 1).drop_last() =~= pc@.subrange(0, i as int));
        assert(out@ =~= before + glob_piece(c));
        i = i + 1;
    }
    assert(pc@.subrange(0, pc@.len() as int) =~= pc@);
    out.push('$');
    string_of(out.as_slice())
}

/// Whether the stem of the file at `path` matches `pattern`.
pub fn matches_glob_exec(path: &str, pattern: &str) -> (r: bool)
    ensures
        r == matches_glob(pattern@, path@),
{
    let stem = file_stem_str(path);
    let re = glob_to_regex(pattern);
    match regex_is_match(re.as_str(), stem.as_str()) {
        Some(b) => b,
        None => false,
    }
}

/// The file type of `path` under `patterns`: the first of command,
/// integration event, event, handler, query and test whose pattern the
/// file's stem matches.
pub open spec fn file_type_of(patterns: PatternsConfig, path: Seq<char>) -> Option<FileType> {
    if matches_glob(patterns.command@, path) {
        Some(FileType::Command)
    } else if matches_glob(patterns.integration_event@, path) {
        Some(FileType::IntegrationEvent)
    } else if matches_glob(patterns.event@, path) {
        Some(FileType::Event)
    } else if matches_glob(patterns.handler@, path) {
        Some(FileType::Handler)
    } else if matches_glob(patterns.query@, path) {
        Some(FileType::Query)
    } else if matches_glob(patterns.test@, path) {
        Some(FileType::Test)
    } else {
        None
    }
}

impl PatternMatcher {
    /// The patterns this matcher applies.
    pub closed spec fn spec_patterns(&self) -> PatternsConfig {
        self.patterns
    }

    /// Create a new pattern matcher.
    pub fn new(patterns: PatternsConfig, extension: String) -> (r: Self)
        ensures
            r.spec_patterns() == patterns,
    {
        PatternMatcher { patterns, extension }
    }

    /// Check if a file matches the command pattern.
    pub fn is_command(&self, path: &str) -> (r: bool)
        ensures
            r == matches_glob(self.spec_patterns().command@, path@),
    {
        matches_glob_exec(path, self.patterns.command.as_str())
    }

    /// Check if a file matches the event pattern.
    pub fn is_event(&self, path: &str) -> (r: bool)
        ensures
            r == matches_glob(self.spec_patterns().event@, path@),
    {
        matches_glob_exec(path, self.patterns.event.as_str())
    }

    /// Check if a file matches the handler pattern.
    pub fn is_handler(&self, path: &str) -> (r: bool)
        ensures
            r == matches_glob(self.spec_patterns().handler@, path@),
    {
        matches_glob_exec(path, self.patterns.handler.as_str())
    }

    /// Check if a file matches the query pattern.
    pub fn is_query(&self, path: &str) -> (r: bool)
        ensures
            r == matches_glob(self.spec_patterns().query@, path@),
    {
        matches_glob_exec(path, self.patterns.query.as_str())
    }

    /// Check if a file matches the integration event pattern.
    pub fn is_integration_event(&self, path: &str) -> (r: bool)
        ensures
            r == matches_glob(self.spec_patterns().integration_event@, path@),
    {
        matches_glob_exec(path, self.patterns.integration_event.as_str())
    }

    /// Check if a file matches the test pattern.
    pub fn is_test(&self, path: &str) -> (r: bool)
        ensures
            r == matches_glob(self.spec_patterns().test@, path@),
    {
        matches_glob_exec(path, self.patterns.test.as_str())
    }

    /// Get the file type.
    pub fn get_file_type(&self, path: &str) -> (r: Option<FileType>)
        ensures
            r == file_type_of(self.spec_patterns(), path@),
    {
        if self.is_command(path) {
            Some(FileType::Command)
        } else if self.is_integration_event(path) {
            Some(FileType::IntegrationEvent)
        } else if self.is_event(path) {
            Some(FileType::Event)
        } else if self.is_handler(path) {
            Some(FileType::Handler)
        } else if self.is_query(path) {
            Some(FileType::Query)
        } else if self.is_test(path) {
            Some(FileType::Test)
        } else {
            None
        }
    }
}

impl FileType {
    /// The file type's name.
    pub fn name(&self) -> (r: &'static str)
        ensures
            r@ == match self {
                FileType::Command => "Command"@,
                FileType::Event => "Event"@,
                FileType::IntegrationEvent => "IntegrationEvent"@,
                FileType::Handler => "Handler"@,
                FileType::Query => "Query"@,
                FileType::Test => "Test"@,
            },
    {
        match self {
            FileType::Command => "Command",
            FileType::Event => "Event",
            FileType::IntegrationEvent => "IntegrationEvent",
            FileType::Handler => "Handler",
            FileType::Query => "Query",
            FileType::Test => "Test",
        }
    }
}

} // verus!
