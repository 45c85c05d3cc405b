//! The basic validator: commands need handlers, and, when the
//! configuration asks for them, features need tests.

use vstd::prelude::*;

use crate::config::{VsaConfig, language_extension, supported_language};
use crate::error::VsaError;
use crate::patterns::{PatternMatcher, matches_glob};
use crate::scanner::{
    FileInfo, context_indices, contexts_in, contexts_match, entry_name, feature_file_paths,
    feature_paths_of, features_in, features_named, file_paths_of, files_in,
};
use crate::text::owned;
use crate::tree::{FsEntry, ProjectTree};
use crate::validation::bounded_context_rules::{context_count, context_path};
use crate::validation::slice_location_rules::context_features;
use crate::validation::{concat_map, lemma_concat_map_empty, lemma_concat_map_step};

verus! {

/// Validator for VSA structure.
#[derive(Debug)]
pub struct Validator {
    config: VsaConfig,
    root: String,
    pattern_matcher: PatternMatcher,
}

/// Validation report.
#[derive(Debug)]
pub struct ValidationReport {
    pub errors: Vec<ValidationError>,
    pub warnings: Vec<ValidationWarning>,
}

/// Validation error.
#[derive(Debug)]
pub struct ValidationError {
    pub path: String,
    pub message: String,
}

/// Validation warning.
#[derive(Debug)]
pub struct ValidationWarning {
    pub path: String,
    pub message: String,
}

impl Default for ValidationReport {
    fn default() -> (r: Self)
        ensures
            r.errors@.len() == 0,
            r.warnings@.len() == 0,
    {
        ValidationReport { errors: Vec::new(), warnings: Vec::new() }
    }
}

impl ValidationReport {
    /// Check if validation passed (no errors).
    pub fn is_valid(&self) -> (r: bool)
        ensures
            r == (self.errors@.len() == 0),
    {
        self.errors.len() == 0
    }

    /// Total issue count.
    pub fn total_issues(&self) -> (r: usize)
        requires
            self.errors@.len() + self.warnings@.len() <= usize::MAX,
        ensures
            r == self.errors@.len() + self.warnings@.len(),
    {
        self.errors.len() + self.warnings.len()
    }
}

/// A warning as plain values: path and message.
pub open spec fn warning_view(w: ValidationWarning) -> (Seq<char>, Seq<char>) {
    (w.path@, w.message@)
}

/// Whether some file of `files` is a command.
pub open spec fn has_command_file(files: Seq<Seq<char>>, config: VsaConfig) -> bool {
    exists|j: int| 0 <= j < files.len() && matches_glob(config.patterns.command@, #[trigger] files[j])
}

/// Whether some file of `files` is a handler and no command.
pub open spec fn has_handler_file(files: Seq<Seq<char>>, config: VsaConfig) -> bool {
    exists|j: int|
        0 <= j < files.len() && !matches_glob(config.patterns.command@, #[trigger] files[j])
            && matches_glob(config.patterns.handler@, files[j])
}

/// Whether some file of `files` is a test, and neither command nor handler.
pub open spec fn has_test_file(files: Seq<Seq<char>>, config: VsaConfig) -> bool {
    exists|j: int|
        0 <= j < files.len() && !matches_glob(config.patterns.command@, #[trigger] files[j])
            && !matches_glob(config.patterns.handler@, files[j]) && matches_glob(
            config.patterns.test@,
            files[j],
        )
}

/// The warnings for feature `fp` of context `ctx`.
pub open spec fn feature_warnings(es: Seq<FsEntry>, config: VsaConfig, ctx: Seq<char>, fp: Seq<char>) -> Seq<
    (Seq<char>, Seq<char>),
> {
    let files = feature_file_paths(es, fp);
    let c = has_command_file(files, config);
    let h = has_handler_file(files, config);
    let t = has_test_file(files, config);
    let name = entry_name(fp);
    let cname = entry_name(ctx);
    (if c && !h {
        seq![
            (
                fp,
                "Feature '"@ + name + "' in context '"@ + cname
                    + "' has a command but no handler"@,
            ),
        ]
    } else {
        Seq::empty()
    }) + (if config.validation.require_tests && (c || h) && !t {
        seq![(fp, "Feature '"@ + name + "' in context '"@ + cname + "' is missing tests"@)]
    } else {
        Seq::empty()
    })
}

/// A feature that holds a command file and no handler file (a file that
/// matches both patterns counts as a command) gets the warning that it has
/// a command but no handler; a feature with a handler file, or without a
/// command file, never gets it.
pub proof fn lemma_command_without_handler(es: Seq<FsEntry>, config: VsaConfig, ctx: Seq<char>, fp: Seq<char>)
    ensures
        ({
            let files = feature_file_paths(es, fp);
            let msg = "Feature '"@ + entry_name(fp) + "' in context '"@ + entry_name(ctx)
                + "' has a command but no handler"@;
            let command = exists|j: int|
                0 <= j < files.len() && matches_glob(config.patterns.command@, #[trigger] files[j]);
            let handler = exists|j: int|
                0 <= j < files.len() && !matches_glob(config.patterns.command@, #[trigger] files[j])
                    && matches_glob(config.patterns.handler@, files[j]);
            feature_warnings(es, config, ctx, fp).contains((fp, msg)) <==> command && !handler
        }),
{
    let files = feature_file_paths(es, fp);
    let pre = "Feature '"@ + entry_name(fp) + "' in context '"@ + entry_name(ctx);
    let msg = pre + "' has a command but no handler"@;
    let tmsg = pre + "' is missing tests"@;
    reveal_strlit("' has a command but no handler");
    reveal_strlit("' is missing tests");
    assert(msg.len() != tmsg.len());
    let w = feature_warnings(es, config, ctx, fp);
    let c = has_command_file(files, config);
    let h = has_handler_file(files, config);
    if c && !h {
        assert(w[0] == (fp, msg));
    } else {
        assert forall|i: int| 0 <= i < w.len() implies w[i] != (fp, msg) by {
            assert(w[i] == (fp, tmsg));
        }
    }
}

/// When tests are required, a feature with a command or handler file and
/// no test file (a file counts as command, else handler, else test) gets
/// the warning that it is missing tests; any other feature never gets it.
pub proof fn lemma_feature_missing_tests(es: Seq<FsEntry>, config: VsaConfig, ctx: Seq<char>, fp: Seq<char>)
    ensures
        ({
            let files = feature_file_paths(es, fp);
            let msg = "Feature '"@ + entry_name(fp) + "' in context '"@ + entry_name(ctx)
                + "' is missing tests"@;
            let command = exists|j: int|
                0 <= j < files.len() && matches_glob(config.patterns.command@, #[trigger] files[j]);
            let handler = exists|j: int|
                0 <= j < files.len() && !matches_glob(config.patterns.command@, #[trigger] files[j])
                    && matches_glob(config.patterns.handler@, files[j]);
            let test = exists|j: int|
                0 <= j < files.len() && !matches_glob(config.patterns.command@, #[trigger] files[j])
                    && !matches_glob(config.patterns.handler@, files[j]) && matches_glob(
                    config.patterns.test@,
                    files[j],
                );
            feature_warnings(es, config, ctx, fp).contains((fp, msg)) <==> config.validation.require_tests
                && (command || handler) && !test
        }),
{
    let files = feature_file_paths(es, fp);
    let pre = "Feature '"@ + entry_name(fp) + "' in context '"@ + entry_name(ctx);
    let hmsg = pre + "' has a command but no handler"@;
    let tmsg = pre + "' is missing tests"@;
    reveal_strlit("' has a command but no handler");
    reveal_strlit("' is missing tests");
    assert(hmsg.len() != tmsg.len());
    let w = feature_warnings(es, config, ctx, fp);
    let c = has_command_file(files, config);
    let h = has_handler_file(files, config);
    let t = has_test_file(files, config);
    if config.validation.require_tests && (c || h) && !t {
        assert(w[w.len() - 1] == (fp, tmsg));
    } else {
        assert forall|i: int| 0 <= i < w.len() implies w[i] != (fp, tmsg) by {
            assert(w[i] == (fp, hmsg));
        }
    }
}

/// The warnings of a validation of the project at `root`, context by
/// context, feature by feature.
pub open spec fn validation_warnings(es: Seq<FsEntry>, root: Seq<char>, config: VsaConfig) -> Seq<
    (Seq<char>, Seq<char>),
> {
    concat_map(
        context_count(es, root),
        |k: int|
            context_features(es, context_path(es, root, k), config).map_values(
                |fp: Seq<char>| feature_warnings(es, config, context_path(es, root, k), fp),
            ).flatten(),
    )
}

fn push_warning(list: &mut Vec<ValidationWarning>, path: String, message: String)
    ensures
        final(list)@.map_values(|w: ValidationWarning| warning_view(w)) == old(list)@.map_values(
            |w: ValidationWarning| warning_view(w),
        ).push((path@, message@)),
{
    let ghost before = list@.map_values(|w: ValidationWarning| warning_view(w));
    let w = ValidationWarning { path, message };
    list.push(w);
    assert(list@.map_values(|w: ValidationWarning| warning_view(w)) =~= before.push(warning_view(w)));
}

impl Validator {
    /// A validator of the project at `root` under `config`.
    pub fn new(config: VsaConfig, root: String) -> (r: Self)
        requires
            supported_language(config.language@),
        ensures
            r.spec_config() == config,
            r.spec_root() == root@,
            r.well_formed(),
    {
        let extension = owned(config.file_extension());
        let patterns = config.patterns.clone_patterns();
        let pattern_matcher = PatternMatcher::new(patterns, extension);
        Validator { config, root, pattern_matcher }
    }

    /// The configuration.
    pub closed spec fn spec_config(&self) -> VsaConfig {
        self.config
    }

    /// The project root.
    pub closed spec fn spec_root(&self) -> Seq<char> {
        self.root@
    }

    /// The validator's pattern matcher follows its configuration.
    pub closed spec fn well_formed(&self) -> bool {
        self.pattern_matcher.spec_patterns() == self.config.patterns
    }

    /// The warnings for one feature, whose files are `files`.
    fn validate_feature(
        &self,
        tree: &ProjectTree,
        ctx: &str,
        cname: &str,
        fp: &str,
        fname: &str,
        report: &mut ValidationReport,
    )
        requires
            self.well_formed(),
            cname@ == entry_name(ctx@),
            fname@ == entry_name(fp@),
        ensures
            final(report).errors@ == old(report).errors@,
            final(report).warnings@.map_values(|w: ValidationWarning| warning_view(w)) == old(
                report,
            ).warnings@.map_values(|w: ValidationWarning| warning_view(w)) + feature_warnings(
                tree.entries@,
                self.spec_config(),
                ctx@,
                fp@,
            ),
    {
        let files = files_in(tree, fp);
        let ghost fs = file_paths_of(files@);
        let ghost config = self.config;
        let mut c = false;
        let mut h = false;
        let mut t = false;
        let mut i: usize = 0;
        while i < files.len()
            invariant
                i <= files@.len(),
                fs == file_paths_of(files@),
                config == self.config,
                self.well_formed(),
                c == exists|j: int| 0 <= j < i && matches_glob(config.patterns.command@, #[trigger] fs[j]),
                h == exists|j: int|
                    0 <= j < i && !matches_glob(config.patterns.command@, #[trigger] fs[j])
                        && matches_glob(config.patterns.handler@, fs[j]),
                t == exists|j: int|
                    0 <= j < i && !matches_glob(config.patterns.command@, #[trigger] fs[j])
                        && !matches_glob(config.patterns.handler@, fs[j]) && matches_glob(
                        config.patterns.test@,
                        fs[j],
                    ),
            decreases files.len() - i,
        {
            let p = files[i].path.as_str();
            assert(fs[i as int] == p@);
            if self.pattern_matcher.is_command(p) {
                c = true;
            } else if self.pattern_matcher.is_handler(p) {
                h = true;
            } else if self.pattern_matcher.is_test(p) {
                t = true;
            }
            i = i + 1;
        }
        assert(fs == feature_file_paths(tree.entries@, fp@));
        let ghost w0 = report.warnings@.map_values(|w: ValidationWarning| warning_view(w));
        if c && !h {
            let mut msg = owned("Feature '");
            msg.append(fname);
            msg.append("' in context '");
            msg.append(cname);
            msg.append("' has a command but no handler");
            push_warning(&mut report.warnings, owned(fp), msg);
        }
        let ghost w1 = report.warnings@.map_values(|w: ValidationWarning| warning_view(w));
        if self.config.validation.require_tests && (c || h) && !t {
            let mut msg = owned("Feature '");
            msg.append(fname);
            msg.append("' in context '");
            msg.append(cname);
            msg.append("' is missing tests");
            push_warning(&mut report.warnings, owned(fp), msg);
        }
        assert(report.warnings@.map_values(|w: ValidationWarning| warning_view(w)) =~= w0
            + feature_warnings(tree.entries@, config, ctx@, fp@));
    }

    /// Validate the entire structure: for each context, each feature, a
    /// warning for a command without a handler, and one for a missing test
    /// when tests are required.
    pub fn validate(&self, tree: &ProjectTree) -> (r: Result<ValidationReport, VsaError>)
        requires
            self.well_formed(),
        ensures
            r matches Ok(rep) && rep.errors@.len() == 0 && rep.warnings@.map_values(
                |w: ValidationWarning| warning_view(w),
            ) == validation_warnings(tree.entries@, self.spec_root(), self.spec_config()),
    {
        let mut report = ValidationReport { errors: Vec::new(), warnings: Vec::new() };
        let ghost es = tree.entries@;
        let ghost root = self.root@;
        let ghost config = self.config;
        let ghost f = |k: int|
            context_features(es, context_path(es, root, k), config).map_values(
                |fp: Seq<char>| feature_warnings(es, config, context_path(es, root, k), fp),
            ).flatten();
        let contexts = contexts_in(tree, self.root.as_str());
        proof {
            lemma_concat_map_empty(f);
            assert(report.warnings@.map_values(|w: ValidationWarning| warning_view(w)) =~= Seq::<
                (Seq<char>, Seq<char>),
            >::empty());
        }
        let mut k: usize = 0;
        while k < contexts.len()
            invariant
                k <= contexts@.len(),
                es == tree.entries@,
                root == self.root@,
                config == self.config,
                self.well_formed(),
                f == (|k: int|
                    context_features(es, context_path(es, root, k), config).map_values(
                        |fp: Seq<char>| feature_warnings(es, config, context_path(es, root, k), fp),
                    ).flatten()),
                contexts_match(contexts@, es, context_indices(es, root)),
                report.errors@.len() == 0,
                report.warnings@.map_values(|w: ValidationWarning| warning_view(w)) == concat_map(
                    k as int,
                    f,
                ),
            decreases contexts.len() - k,
        {
            let c = &contexts[k];
            let ghost cp = context_path(es, root, k as int);
            assert(c.path@ == cp);
            let features = features_in(&self.config, tree, c.path.as_str());
            let ghost fs = feature_paths_of(features@);
            let ghost g = |fp: Seq<char>| feature_warnings(es, config, cp, fp);
            let ghost before = report.warnings@.map_values(|w: ValidationWarning| warning_view(w));
            let mut j: usize = 0;
            assert(fs.subrange(0, 0).map_values(g) =~= Seq::<Seq<(Seq<char>, Seq<char>)>>::empty());
            assert(Seq::<Seq<(Seq<char>, Seq<char>)>>::empty().flatten() =~= Seq::<
                (Seq<char>, Seq<char>),
            >::empty());
            while j < features.len()
                invariant
                    j <= features@.len(),
                    es == tree.entries@,
                    config == self.config,
                    self.well_formed(),
                    c.path@ == cp,
                    c.name@ == entry_name(cp),
                    fs == feature_paths_of(features@),
                    features_named(features@, c.path@),
                    g == (|fp: Seq<char>| feature_warnings(es, config, cp, fp)),
                    report.errors@.len() == 0,
                    report.warnings@.map_values(|w: ValidationWarning| warning_view(w)) == before
                        + fs.subrange(0, j as int).map_values(g).flatten(),
                decreases features.len() - j,
            {
                let ft = &features[j];
                let ghost fp = fs[j as int];
                assert(ft.path@ == fp);
                self.validate_feature(tree, c.path.as_str(), c.name.as_str(), ft.path.as_str(), ft.name.as_str(), &mut report);
                proof {
                    assert(fs.subrange(0, j + 1).map_values(g) =~= fs.subrange(0, j as int).map_values(
                        g,
                    ).push(g(fp)));
                    fs.subrange(0, j as int).map_values(g).lemma_flatten_push(g(fp));
                    assert(report.warnings@.map_values(|w: ValidationWarning| warning_view(w))
                        =~= before + fs.subrange(0, j + 1).map_values(g).flatten());
                }
                j = j + 1;
            }
            proof {
                assert(fs.subrange(0, features@.len() as int) =~= fs);
                assert(fs == context_features(es, cp, config));
                lemma_concat_map_step(k as int, f);
                assert(report.warnings@.map_values(|w: ValidationWarning| warning_view(w))
                    =~= concat_map(k + 1, f));
            }
            k = k + 1;
        }
        Ok(report)
    }
}

} // verus!
