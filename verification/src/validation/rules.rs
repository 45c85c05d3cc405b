//! The rule set and the basic structure rules: tests (VSA001), handlers
//! (VSA002) and events (VSA003) for commands, file naming (VSA004),
//! nesting depth (VSA005) and the `_shared` folder (VSA006).

use vstd::prelude::*;

use crate::assoc::strs;
use crate::config::{PatternsConfig, VsaConfig, language_extension};
use crate::error::VsaError;
use crate::path::{components_of, components_str, file_stem_of, file_stem_str, push_path, push_path_str};
use crate::patterns::{PatternMatcher, matches_glob};
use crate::scanner::{
    FileInfo, context_indices, contexts_in, contexts_match, entry_name, feature_file_paths,
    feature_paths_of, features_in, features_named, file_paths_of, files_in, files_named,
    relative_to,
};
use crate::text::{decimal, decimal_usize, owned, replace_all, replace_all_str, str_eq};
use crate::tree::{FsEntry, path_exists};
use super::bounded_context_rules::{
    ContextBoundariesRule, NoCircularDependenciesRule, RequireSharedFolderRule, boundaries_warnings,
    context_count, context_names, context_path, cyclic_contexts, reports_cycles,
};
use super::integration_event_rules::{
    IntegrationEventNamingRule, IntegrationEventsLocationRule, NoDuplicateIntegrationEventsRule,
    ctx_events, duplicate_errors, location_warnings, naming_warnings,
};
use super::slice_location_rules::context_features;
use super::suggestions::{Suggestion, SuggestionView, create_file_view, manual_view};
use super::{
    EnhancedValidationReport, IssueView, Severity, ValidationContext, ValidationIssue, ValidationRule,
    concat_map, file_name_or_empty, issue, issue_with, issues_view, lemma_concat_map_empty,
    lemma_concat_map_step, lemma_extends_transitive, lemma_grew_extends, push_issue,
    push_issue_with, report_extends, report_grew,
};

verus! {

/// Rule: features with commands should have tests.
pub struct RequireTestsRule;

/// Rule: commands should have handlers.
pub struct RequireHandlerForCommandRule;

/// Rule: commands should produce events.
pub struct RequireEventForCommandRule;

/// Rule: files should follow naming conventions.
pub struct NamingConventionRule;

/// Rule: features should not be nested too deeply.
pub struct MaxNestingDepthRule;

/// Rule: a `_shared` folder should hold `integration-events`.
pub struct SharedFolderRule;

// ============================================================================
// What the feature rules report
// ============================================================================

/// Whether some of `files` matches the glob `pattern`.
pub open spec fn any_file_matches(files: Seq<Seq<char>>, pattern: Seq<char>) -> bool {
    exists|j: int| 0 <= j < files.len() && matches_glob(pattern, #[trigger] files[j])
}

/// The handler file VSA002 suggests for command file `p`.
pub open spec fn handler_file_for(p: Seq<char>, ext: Seq<char>) -> Seq<char> {
    replace_all(file_stem_of(p), "Command"@, "Handler"@) + "."@ + ext
}

/// The suggestion VSA002 makes for command file `p` of feature `fp`.
pub open spec fn handler_suggestion(fp: Seq<char>, p: Seq<char>, ext: Seq<char>) -> SuggestionView {
    create_file_view(
        push_path(fp, handler_file_for(p, ext)),
        "Create "@ + handler_file_for(p, ext) + " to handle the command"@,
    )
}

/// Stems that name no specific thing.
pub open spec fn is_generic_stem(s: Seq<char>) -> bool {
    ||| s == "command"@
    ||| s == "event"@
    ||| s == "handler"@
    ||| s == "query"@
    ||| s == "index"@
    ||| s == "types"@
}

/// What a feature rule checks.
#[derive(Clone, Copy)]
pub enum FeatureCheck {
    /// VSA001.
    Tests,
    /// VSA002.
    Handler,
    /// VSA003.
    Event,
    /// VSA004.
    Naming,
    /// VSA005.
    Depth,
}

/// The issue VSA004 reports for file `p`, if its stem is generic.
pub open spec fn naming_issues(p: Seq<char>) -> Seq<IssueView> {
    if is_generic_stem(file_stem_of(p)) {
        seq![
            issue(
                p,
                "File '"@ + entry_name(p)
                    + "' uses generic name - prefer specific names like 'CreateProductCommand'"@,
                "VSA004"@,
                Severity::Warning,
                manual_view(
                    "Rename to a specific name that describes what this "@ + file_stem_of(p)
                        + " does"@,
                ),
            ),
        ]
    } else {
        Seq::empty()
    }
}

/// The issues `check` reports for feature `fp` of context `ctx`.
pub open spec fn feature_issues(
    check: FeatureCheck,
    es: Seq<FsEntry>,
    config: VsaConfig,
    ctx: Seq<char>,
    fp: Seq<char>,
) -> Seq<IssueView> {
    let files = feature_file_paths(es, fp);
    let pats = config.patterns;
    let ext = language_extension(config.language@);
    let name = entry_name(fp);
    let cname = entry_name(ctx);
    match check {
        FeatureCheck::Tests => if config.validation.require_tests && (any_file_matches(
            files,
            pats.command@,
        ) || any_file_matches(files, pats.handler@)) && !any_file_matches(files, pats.test@) {
            let test_file = name + ".test."@ + ext;
            seq![
                issue(
                    fp,
                    "Feature '"@ + name + "' in context '"@ + cname + "' is missing tests"@,
                    "VSA001"@,
                    Severity::Warning,
                    create_file_view(
                        push_path(fp, test_file),
                        "Create "@ + test_file + " with unit tests"@,
                    ),
                ),
            ]
        } else {
            Seq::empty()
        },
        FeatureCheck::Handler => {
            let cmds = files.filter(|p: Seq<char>| matches_glob(pats.command@, p));
            if cmds.len() > 0 && !any_file_matches(files, pats.handler@) {
                seq![
                    issue_with(
                        fp,
                        "Feature '"@ + name + "' in context '"@ + cname
                            + "' has command(s) but no handler"@,
                        "VSA002"@,
                        Severity::Error,
                        cmds.map_values(|p: Seq<char>| handler_suggestion(fp, p, ext)),
                    ),
                ]
            } else {
                Seq::empty()
            }
        },
        FeatureCheck::Event => if any_file_matches(files, pats.command@) && !any_file_matches(
            files,
            pats.event@,
        ) {
            seq![
                issue(
                    fp,
                    "Feature '"@ + name + "' in context '"@ + cname
                        + "' has command but no event (consider event sourcing)"@,
                    "VSA003"@,
                    Severity::Warning,
                    manual_view("Create an event that represents the outcome of this command"@),
                ),
            ]
        } else {
            Seq::empty()
        },
        FeatureCheck::Naming => files.map_values(|p: Seq<char>| naming_issues(p)).flatten(),
        FeatureCheck::Depth => {
            let depth = components_of(relative_to(fp, ctx)).len();
            if depth > config.validation.max_nesting_depth {
                seq![
                    issue(
                        fp,
                        "Feature '"@ + name + "' exceeds maximum nesting depth ("@ + decimal(depth)
                            + " > "@ + decimal(config.validation.max_nesting_depth as nat) + ")"@,
                        "VSA005"@,
                        Severity::Warning,
                        manual_view(
                            "Consider flattening the feature structure or adjusting max_nesting_depth in config"@,
                        ),
                    ),
                ]
            } else {
                Seq::empty()
            }
        },
    }
}

/// The issues `check` reports over every feature of every context under
/// `root`, context by context, feature by feature.
pub open spec fn feature_rule_issues(
    check: FeatureCheck,
    es: Seq<FsEntry>,
    root: Seq<char>,
    config: VsaConfig,
) -> Seq<IssueView> {
    concat_map(
        context_count(es, root),
        |k: int|
            context_features(es, context_path(es, root, k), config).map_values(
                |fp: Seq<char>| feature_issues(check, es, config, context_path(es, root, k), fp),
            ).flatten(),
    )
}

/// The warning VSA006 reports for context `ctx`.
pub open spec fn shared_folder_warnings(es: Seq<FsEntry>, config: VsaConfig, ctx: Seq<char>) -> Seq<
    IssueView,
> {
    let shared = push_path(ctx, "_shared"@);
    let events = push_path(shared, "integration-events"@);
    if path_exists(es, shared) && !path_exists(es, events)
        && config.validation.require_integration_events_in_shared {
        seq![
            issue(
                shared,
                "Context '"@ + entry_name(ctx)
                    + "' has _shared folder but no integration-events directory"@,
                "VSA006"@,
                Severity::Warning,
                create_file_view(
                    push_path(events, ".gitkeep"@),
                    "Create _shared/integration-events/ directory"@,
                ),
            ),
        ]
    } else {
        Seq::empty()
    }
}

// ============================================================================
// Checking features
// ============================================================================

/// What the files of a feature hold: a command, a handler, a test, an
/// event.
fn feature_facts(matcher: &PatternMatcher, files: &Vec<FileInfo>) -> (r: (bool, bool, bool, bool))
    ensures
        r.0 == any_file_matches(file_paths_of(files@), matcher.spec_patterns().command@),
        r.1 == any_file_matches(file_paths_of(files@), matcher.spec_patterns().handler@),
        r.2 == any_file_matches(file_paths_of(files@), matcher.spec_patterns().test@),
        r.3 == any_file_matches(file_paths_of(files@), matcher.spec_patterns().event@),
{
    let ghost fs = file_paths_of(files@);
    let ghost pats = matcher.spec_patterns();
    let mut c = false;
    let mut h = false;
    let mut t = false;
    let mut e = false;
    let mut i: usize = 0;
    while i < files.len()
        invariant
            i <= files@.len(),
            fs == file_paths_of(files@),
            pats == matcher.spec_patterns(),
            c == exists|j: int| 0 <= j < i && matches_glob(pats.command@, #[trigger] fs[j]),
            h == exists|j: int| 0 <= j < i && matches_glob(pats.handler@, #[trigger] fs[j]),
            t == exists|j: int| 0 <= j < i && matches_glob(pats.test@, #[trigger] fs[j]),
            e == exists|j: int| 0 <= j < i && matches_glob(pats.event@, #[trigger] fs[j]),
        decreases files.len() - i,
    {
        let p = files[i].path.as_str();
        assert(fs[i as int] == p@);
        c = c || matcher.is_command(p);
        h = h || matcher.is_handler(p);
        t = t || matcher.is_test(p);
        e = e || matcher.is_event(p);
        i = i + 1;
    }
    (c, h, t, e)
}

/// The suggestions VSA002 makes for the command files of feature `fp`.
fn handler_suggestions(matcher: &PatternMatcher, files: &Vec<FileInfo>, fp: &str, ext: &str) -> (r:
    Vec<Suggestion>)
    ensures
        r@.map_values(|s: Suggestion| s@) == file_paths_of(files@).filter(
            |p: Seq<char>| matches_glob(matcher.spec_patterns().command@, p),
        ).map_values(|p: Seq<char>| handler_suggestion(fp@, p, ext@)),
{
    let ghost fs = file_paths_of(files@);
    let ghost pats = matcher.spec_patterns();
    let ghost isc = |p: Seq<char>| matches_glob(pats.command@, p);
    let ghost sug = |p: Seq<char>| handler_suggestion(fp@, p, ext@);
    let mut out: Vec<Suggestion> = Vec::new();
    let mut i: usize = 0;
    assert(fs.subrange(0, 0).filter(isc) =~= Seq::<Seq<char>>::empty()) by {
        reveal_with_fuel(Seq::<_>::filter, 1);
    }
    while i < files.len()
        invariant
            i <= files@.len(),
            fs == file_paths_of(files@),
            pats == matcher.spec_patterns(),
            isc == (|p: Seq<char>| matches_glob(pats.command@, p)),
            sug == (|p: Seq<char>| handler_suggestion(fp@, p, ext@)),
            out@.map_values(|s: Suggestion| s@) == fs.subrange(0, i as int).filter(isc).map_values(
                sug,
            ),
        decreases files.len() - i,
    {
        let p = files[i].path.as_str();
        assert(fs[i as int] == p@);
        let ghost before = fs.subrange(0, i as int).filter(isc);
        proof {
            reveal_with_fuel(Seq::<_>::filter, 1);
            assert(fs.subrange(0, i + 1).drop_last() =~= fs.subrange(0, i as int));
        }
        if matcher.is_command(p) {
            let stem = file_stem_str(p);
            proof {
                reveal_strlit("Command");
            }
            let mut hf = replace_all_str(stem.as_str(), "Command", "Handler");
            hf.append(".");
            hf.append(ext);
            let target = push_path_str(fp, hf.as_str());
            let mut msg = owned("Create ");
            msg.append(hf.as_str());
            msg.append(" to handle the command");
            let ghost ov = out@.map_values(|s: Suggestion| s@);
            let s = Suggestion::create_file(target, msg.as_str());
            out.push(s);
            assert(fs.subrange(0, i + 1).filter(isc) == before.push(p@));
            assert(out@.map_values(|s: Suggestion| s@) =~= ov.push(sug(p@)));
            assert(before.push(p@).map_values(sug) =~= before.map_values(sug).push(sug(p@)));
        } else {
            assert(fs.subrange(0, i + 1).filter(isc) == before);
        }
        i = i + 1;
    }
    assert(fs.subrange(0, files@.len() as int) =~= fs);
    out
}

/// Appends the issues VSA004 reports for the files of a feature.
fn push_naming_issues(files: &Vec<FileInfo>, warnings: &mut Vec<ValidationIssue>)
    requires
        files_named(files@),
    ensures
        issues_view(final(warnings)@) == issues_view(old(warnings)@) + file_paths_of(files@).map_values(
            |p: Seq<char>| naming_issues(p),
        ).flatten(),
{
    let ghost fs = file_paths_of(files@);
    let ghost g = |p: Seq<char>| naming_issues(p);
    let ghost w0 = issues_view(warnings@);
    let mut i: usize = 0;
    assert(fs.subrange(0, 0).map_values(g) =~= Seq::<Seq<IssueView>>::empty());
    assert(Seq::<Seq<IssueView>>::empty().flatten() =~= Seq::<IssueView>::empty());
    while i < files.len()
        invariant
            i <= files@.len(),
            files_named(files@),
            fs == file_paths_of(files@),
            g == (|p: Seq<char>| naming_issues(p)),
            issues_view(warnings@) == w0 + fs.subrange(0, i as int).map_values(g).flatten(),
        decreases files.len() - i,
    {
        let f = &files[i];
        let ghost p = fs[i as int];
        assert(f.path@ == p && f.name@ == entry_name(p));
        let stem = file_stem_str(f.path.as_str());
        let s = stem.as_str();
        if str_eq(s, "command") || str_eq(s, "event") || str_eq(s, "handler") || str_eq(s, "query")
            || str_eq(s, "index") || str_eq(s, "types") {
            let mut msg = owned("File '");
            msg.append(f.name.as_str());
            msg.append("' uses generic name - prefer specific names like 'CreateProductCommand'");
            let mut advice = owned("Rename to a specific name that describes what this ");
            advice.append(s);
            advice.append(" does");
            push_issue(
                warnings,
                f.path.clone(),
                msg,
                "VSA004",
                Severity::Warning,
                Suggestion::manual(advice.as_str()),
            );
        } else {
            assert(g(p) =~= Seq::<IssueView>::empty());
        }
        proof {
            assert(fs.subrange(0, i + 1).map_values(g) =~= fs.subrange(0, i as int).map_values(g).push(
                g(p),
            ));
            fs.subrange(0, i as int).map_values(g).lemma_flatten_push(g(p));
            assert(issues_view(warnings@) =~= w0 + fs.subrange(0, i + 1).map_values(g).flatten());
        }
        i = i + 1;
    }
    assert(fs.subrange(0, files@.len() as int) =~= fs);
}

/// Appends the issues `check` reports for feature `fp` of the context at
/// `ctx`: errors for VSA002, warnings otherwise.
fn push_feature_issues(
    check: FeatureCheck,
    config: &VsaConfig,
    matcher: &PatternMatcher,
    tree: &crate::tree::ProjectTree,
    ctx: &str,
    cname: &str,
    ext: &str,
    fp: &str,
    fname: &str,
    rel: &str,
    out: &mut Vec<ValidationIssue>,
)
    requires
        matcher.spec_patterns() == config.patterns,
        ext@ == language_extension(config.language@),
        cname@ == entry_name(ctx@),
        fname@ == entry_name(fp@),
        rel@ == relative_to(fp@, ctx@),
    ensures
        issues_view(final(out)@) == issues_view(old(out)@) + feature_issues(
            check,
            tree.entries@,
            *config,
            ctx@,
            fp@,
        ),
{
    let files = files_in(tree, fp);
    let ghost fs = file_paths_of(files@);
    assert(fs == feature_file_paths(tree.entries@, fp@));
    let ghost o0 = issues_view(out@);
    match check {
        FeatureCheck::Tests => {
            let (c, h, t, _e) = feature_facts(matcher, &files);
            if config.validation.require_tests && (c || h) && !t {
                let mut tf = owned(fname);
                tf.append(".test.");
                tf.append(ext);
                let mut msg = owned("Feature '");
                msg.append(fname);
                msg.append("' in context '");
                msg.append(cname);
                msg.append("' is missing tests");
                let mut advice = owned("Create ");
                advice.append(tf.as_str());
                advice.append(" with unit tests");
                let target = push_path_str(fp, tf.as_str());
                push_issue(
                    out,
                    owned(fp),
                    msg,
                    "VSA001",
                    Severity::Warning,
                    Suggestion::create_file(target, advice.as_str()),
                );
            } else {
                assert(issues_view(out@) =~= o0 + Seq::<IssueView>::empty());
            }
        },
        FeatureCheck::Handler => {
            let (_c, h, _t, _e) = feature_facts(matcher, &files);
            let sugs = handler_suggestions(matcher, &files, fp, ext);
            proof {
                assert(fs.filter(|p: Seq<char>| matches_glob(config.patterns.command@, p)).map_values(
                    |p: Seq<char>| handler_suggestion(fp@, p, ext@),
                ).len() == fs.filter(|p: Seq<char>| matches_glob(config.patterns.command@, p)).len());
            }
            if sugs.len() > 0 && !h {
                let mut msg = owned("Feature '");
                msg.append(fname);
                msg.append("' in context '");
                msg.append(cname);
                msg.append("' has command(s) but no handler");
                push_issue_with(out, owned(fp), msg, "VSA002", Severity::Error, sugs);
            } else {
                assert(issues_view(out@) =~= o0 + Seq::<IssueView>::empty());
            }
        },
        FeatureCheck::Event => {
            let (c, _h, _t, e) = feature_facts(matcher, &files);
            if c && !e {
                let mut msg = owned("Feature '");
                msg.append(fname);
                msg.append("' in context '");
                msg.append(cname);
                msg.append("' has command but no event (consider event sourcing)");
                push_issue(
                    out,
                    owned(fp),
                    msg,
                    "VSA003",
                    Severity::Warning,
                    Suggestion::manual("Create an event that represents the outcome of this command"),
                );
            } else {
                assert(issues_view(out@) =~= o0 + Seq::<IssueView>::empty());
            }
        },
        FeatureCheck::Naming => {
            push_naming_issues(&files, out);
        },
        FeatureCheck::Depth => {
            let comps = components_str(rel);
            let depth = comps.len();
            let max = config.validation.max_nesting_depth;
            if depth > max {
                let mut msg = owned("Feature '");
                msg.append(fname);
                msg.append("' exceeds maximum nesting depth (");
                let d = decimal_usize(depth);
                msg.append(d.as_str());
                msg.append(" > ");
                let m = decimal_usize(max);
                msg.append(m.as_str());
                msg.append(")");
                push_issue(
                    out,
                    owned(fp),
                    msg,
                    "VSA005",
                    Severity::Warning,
                    Suggestion::manual(
                        "Consider flattening the feature structure or adjusting max_nesting_depth in config",
                    ),
                );
            } else {
                assert(issues_view(out@) =~= o0 + Seq::<IssueView>::empty());
            }
        },
    }
}

/// The extension `language_extension` gives for the configured language
/// (the file extension for a supported one). Only the checks of supported
/// languages read it: the naming and depth checks use no extension.
fn extension_of(config: &VsaConfig) -> (r: &'static str)
    ensures
        r@ == language_extension(config.language@),
{
    proof {
        reveal_strlit("typescript");
        reveal_strlit("python");
    }
    if str_eq(config.language.as_str(), "typescript") {
        "ts"
    } else if str_eq(config.language.as_str(), "python") {
        "py"
    } else {
        "rs"
    }
}

/// Appends the issues `check` reports over every feature of every context.
fn push_feature_rule_issues(check: FeatureCheck, ctx: &ValidationContext, out: &mut Vec<ValidationIssue>)
    ensures
        issues_view(final(out)@) == issues_view(old(out)@) + feature_rule_issues(
            check,
            ctx.tree.entries@,
            ctx.root@,
            ctx.config,
        ),
{
    let ghost es = ctx.tree.entries@;
    let ghost root = ctx.root@;
    let ghost config = ctx.config;
    let ghost f = |k: int|
        context_features(es, context_path(es, root, k), config).map_values(
            |fp: Seq<char>| feature_issues(check, es, config, context_path(es, root, k), fp),
        ).flatten();
    let ext = extension_of(&ctx.config);
    let matcher = PatternMatcher::new(ctx.config.patterns.clone_patterns(), owned(ext));
    let ghost o0 = issues_view(out@);
    let contexts = contexts_in(&ctx.tree, ctx.root.as_str());
    proof {
        lemma_concat_map_empty(f);
    }
    let mut k: usize = 0;
    while k < contexts.len()
        invariant
            k <= contexts@.len(),
            es == ctx.tree.entries@,
            root == ctx.root@,
            config == ctx.config,
            ext@ == language_extension(ctx.config.language@),
            matcher.spec_patterns() == ctx.config.patterns,
            f == (|k: int|
                context_features(es, context_path(es, root, k), config).map_values(
                    |fp: Seq<char>| feature_issues(check, es, config, context_path(es, root, k), fp),
                ).flatten()),
            contexts_match(contexts@, es, context_indices(es, root)),
            issues_view(out@) == o0 + concat_map(k as int, f),
        decreases contexts.len() - k,
    {
        let c = &contexts[k];
        let ghost cp = context_path(es, root, k as int);
        assert(c.path@ == cp);
        let features = features_in(&ctx.config, &ctx.tree, c.path.as_str());
        let ghost fs = feature_paths_of(features@);
        let ghost g = |fp: Seq<char>| feature_issues(check, es, config, cp, fp);
        let ghost before = issues_view(out@);
        assert(fs == context_features(es, cp, config));
        let mut j: usize = 0;
        assert(fs.subrange(0, 0).map_values(g) =~= Seq::<Seq<IssueView>>::empty());
        assert(Seq::<Seq<IssueView>>::empty().flatten() =~= Seq::<IssueView>::empty());
        while j < features.len()
            invariant
                j <= features@.len(),
                es == ctx.tree.entries@,
                config == ctx.config,
                ext@ == language_extension(ctx.config.language@),
                matcher.spec_patterns() == ctx.config.patterns,
                c.path@ == cp,
                c.name@ == entry_name(cp),
                fs == feature_paths_of(features@),
                features_named(features@, c.path@),
                g == (|fp: Seq<char>| feature_issues(check, es, config, cp, fp)),
                issues_view(out@) == before + fs.subrange(0, j as int).map_values(g).flatten(),
            decreases features.len() - j,
        {
            let ft = &features[j];
            let ghost fp = fs[j as int];
            assert(ft.path@ == fp);
            let ghost mid = issues_view(out@);
            push_feature_issues(
                check,
                &ctx.config,
                &matcher,
                &ctx.tree,
                c.path.as_str(),
                c.name.as_str(),
                ext,
                ft.path.as_str(),
                ft.name.as_str(),
                ft.relative_path.as_str(),
                out,
            );
            proof {
                assert(fs.subrange(0, j + 1).map_values(g) =~= fs.subrange(0, j as int).map_values(g).push(
                    g(fp),
                ));
                fs.subrange(0, j as int).map_values(g).lemma_flatten_push(g(fp));
                assert(issues_view(out@) =~= before + fs.subrange(0, j + 1).map_values(g).flatten());
            }
            j = j + 1;
        }
        proof {
            assert(fs.subrange(0, features@.len() as int) =~= fs);
            lemma_concat_map_step(k as int, f);
            assert(fs.map_values(g) =~= context_features(es, cp, config).map_values(
                |fp: Seq<char>| feature_issues(check, es, config, context_path(es, root, k as int), fp),
            ));
            assert(issues_view(out@) =~= o0 + concat_map(k + 1, f));
        }
        k = k + 1;
    }
}

// ============================================================================
// The rules
// ============================================================================

impl ValidationRule for RequireTestsRule {
    open spec fn validate_outcome(
        &self,
        ctx: ValidationContext,
        before: EnhancedValidationReport,
        r: Result<(), VsaError>,
        after: EnhancedValidationReport,
    ) -> bool {
        crate::validation::rules::builtin_result(crate::validation::rules::BuiltinRule::RequireTests, ctx, before, r, after)
    }

    fn name(&self) -> (r: &str)
        ensures
            r@ == "require-tests"@,
    {
        "require-tests"
    }

    fn code(&self) -> (r: &str)
        ensures
            r@ == "VSA001"@,
    {
        "VSA001"
    }

    fn validate(&self, ctx: &ValidationContext, report: &mut EnhancedValidationReport) -> (r:
        Result<(), VsaError>)
        ensures
            r is Ok <==> crate::config::supported_language(ctx.config.language@),
            r matches Err(e) ==> crate::config::is_unsupported_language(e, ctx.config.language@)
                && *final(report) == *old(report),
            r is Ok ==> report_grew(
                *old(report),
                *final(report),
                Seq::empty(),
                feature_rule_issues(FeatureCheck::Tests, ctx.tree.entries@, ctx.root@, ctx.config),
            ),
    {
        match ctx.config.check_language() {
            Ok(()) => {},
            Err(e) => {
                proof {
                    crate::validation::lemma_extends_refl(*report);
                }
                return Err(e);
            },
        }
        push_feature_rule_issues(FeatureCheck::Tests, ctx, &mut report.warnings);
        proof {
            assert(issues_view(report.errors@) =~= issues_view(old(report).errors@) + Seq::<IssueView>::empty());
            lemma_grew_extends(
                *old(report),
                *report,
                Seq::empty(),
                feature_rule_issues(FeatureCheck::Tests, ctx.tree.entries@, ctx.root@, ctx.config),
            );
        }
        Ok(())
    }
}

impl ValidationRule for RequireHandlerForCommandRule {
    open spec fn validate_outcome(
        &self,
        ctx: ValidationContext,
        before: EnhancedValidationReport,
        r: Result<(), VsaError>,
        after: EnhancedValidationReport,
    ) -> bool {
        crate::validation::rules::builtin_result(crate::validation::rules::BuiltinRule::RequireHandlerForCommand, ctx, before, r, after)
    }

    fn name(&self) -> (r: &str)
        ensures
            r@ == "require-handler-for-command"@,
    {
        "require-handler-for-command"
    }

    fn code(&self) -> (r: &str)
        ensures
            r@ == "VSA002"@,
    {
        "VSA002"
    }

    fn validate(&self, ctx: &ValidationContext, report: &mut EnhancedValidationReport) -> (r:
        Result<(), VsaError>)
        ensures
            r is Ok <==> crate::config::supported_language(ctx.config.language@),
            r matches Err(e) ==> crate::config::is_unsupported_language(e, ctx.config.language@)
                && *final(report) == *old(report),
            r is Ok ==> report_grew(
                *old(report),
                *final(report),
                feature_rule_issues(FeatureCheck::Handler, ctx.tree.entries@, ctx.root@, ctx.config),
                Seq::empty(),
            ),
    {
        match ctx.config.check_language() {
            Ok(()) => {},
            Err(e) => {
                proof {
                    crate::validation::lemma_extends_refl(*report);
                }
                return Err(e);
            },
        }
        push_feature_rule_issues(FeatureCheck::Handler, ctx, &mut report.errors);
        proof {
            assert(issues_view(report.warnings@) =~= issues_view(old(report).warnings@) + Seq::<IssueView>::empty());
            lemma_grew_extends(
                *old(report),
                *report,
                feature_rule_issues(FeatureCheck::Handler, ctx.tree.entries@, ctx.root@, ctx.config),
                Seq::empty(),
            );
        }
        Ok(())
    }
}

impl ValidationRule for RequireEventForCommandRule {
    open spec fn validate_outcome(
        &self,
        ctx: ValidationContext,
        before: EnhancedValidationReport,
        r: Result<(), VsaError>,
        after: EnhancedValidationReport,
    ) -> bool {
        crate::validation::rules::builtin_result(crate::validation::rules::BuiltinRule::RequireEventForCommand, ctx, before, r, after)
    }

    fn name(&self) -> (r: &str)
        ensures
            r@ == "require-event-for-command"@,
    {
        "require-event-for-command"
    }

    fn code(&self) -> (r: &str)
        ensures
            r@ == "VSA003"@,
    {
        "VSA003"
    }

    fn validate(&self, ctx: &ValidationContext, report: &mut EnhancedValidationReport) -> (r:
        Result<(), VsaError>)
        ensures
            r is Ok <==> crate::config::supported_language(ctx.config.language@),
            r matches Err(e) ==> crate::config::is_unsupported_language(e, ctx.config.language@)
                && *final(report) == *old(report),
            r is Ok ==> report_grew(
                *old(report),
                *final(report),
                Seq::empty(),
                feature_rule_issues(FeatureCheck::Event, ctx.tree.entries@, ctx.root@, ctx.config),
            ),
    {
        match ctx.config.check_language() {
            Ok(()) => {},
            Err(e) => {
                proof {
                    crate::validation::lemma_extends_refl(*report);
                }
                return Err(e);
            },
        }
        push_feature_rule_issues(FeatureCheck::Event, ctx, &mut report.warnings);
        proof {
            assert(issues_view(report.errors@) =~= issues_view(old(report).errors@) + Seq::<IssueView>::empty());
            lemma_grew_extends(
                *old(report),
                *report,
                Seq::empty(),
                feature_rule_issues(FeatureCheck::Event, ctx.tree.entries@, ctx.root@, ctx.config),
            );
        }
        Ok(())
    }
}

impl ValidationRule for NamingConventionRule {
    open spec fn validate_outcome(
        &self,
        ctx: ValidationContext,
        before: EnhancedValidationReport,
        r: Result<(), VsaError>,
        after: EnhancedValidationReport,
    ) -> bool {
        crate::validation::rules::builtin_result(crate::validation::rules::BuiltinRule::NamingConvention, ctx, before, r, after)
    }

    fn name(&self) -> (r: &str)
        ensures
            r@ == "naming-convention"@,
    {
        "naming-convention"
    }

    fn code(&self) -> (r: &str)
        ensures
            r@ == "VSA004"@,
    {
        "VSA004"
    }

    fn validate(&self, ctx: &ValidationContext, report: &mut EnhancedValidationReport) -> (r:
        Result<(), VsaError>)
        ensures
            r is Ok,
            report_grew(
                *old(report),
                *final(report),
                Seq::empty(),
                feature_rule_issues(FeatureCheck::Naming, ctx.tree.entries@, ctx.root@, ctx.config),
            ),
    {
        push_feature_rule_issues(FeatureCheck::Naming, ctx, &mut report.warnings);
        proof {
            assert(issues_view(report.errors@) =~= issues_view(old(report).errors@) + Seq::<IssueView>::empty());
            lemma_grew_extends(
                *old(report),
                *report,
                Seq::empty(),
                feature_rule_issues(FeatureCheck::Naming, ctx.tree.entries@, ctx.root@, ctx.config),
            );
        }
        Ok(())
    }
}

impl ValidationRule for MaxNestingDepthRule {
    open spec fn validate_outcome(
        &self,
        ctx: ValidationContext,
        before: EnhancedValidationReport,
        r: Result<(), VsaError>,
        after: EnhancedValidationReport,
    ) -> bool {
        crate::validation::rules::builtin_result(crate::validation::rules::BuiltinRule::MaxNestingDepth, ctx, before, r, after)
    }

    fn name(&self) -> (r: &str)
        ensures
            r@ == "max-nesting-depth"@,
    {
        "max-nesting-depth"
    }

    fn code(&self) -> (r: &str)
        ensures
            r@ == "VSA005"@,
    {
        "VSA005"
    }

    fn validate(&self, ctx: &ValidationContext, report: &mut EnhancedValidationReport) -> (r:
        Result<(), VsaError>)
        ensures
            r is Ok,
            report_grew(
                *old(report),
                *final(report),
                Seq::empty(),
                feature_rule_issues(FeatureCheck::Depth, ctx.tree.entries@, ctx.root@, ctx.config),
            ),
    {
        push_feature_rule_issues(FeatureCheck::Depth, ctx, &mut report.warnings);
        proof {
            assert(issues_view(report.errors@) =~= issues_view(old(report).errors@) + Seq::<IssueView>::empty());
            lemma_grew_extends(
                *old(report),
                *report,
                Seq::empty(),
                feature_rule_issues(FeatureCheck::Depth, ctx.tree.entries@, ctx.root@, ctx.config),
            );
        }
        Ok(())
    }
}

/// VSA006's warnings over all contexts under `root`.
pub open spec fn shared_folder_rule_warnings(es: Seq<FsEntry>, root: Seq<char>, config: VsaConfig) -> Seq<
    IssueView,
> {
    concat_map(context_count(es, root), |k: int| shared_folder_warnings(es, config, context_path(es, root, k)))
}

impl ValidationRule for SharedFolderRule {
    open spec fn validate_outcome(
        &self,
        ctx: ValidationContext,
        before: EnhancedValidationReport,
        r: Result<(), VsaError>,
        after: EnhancedValidationReport,
    ) -> bool {
        crate::validation::rules::builtin_result(crate::validation::rules::BuiltinRule::SharedFolder, ctx, before, r, after)
    }

    fn name(&self) -> (r: &str)
        ensures
            r@ == "shared-folder-structure"@,
    {
        "shared-folder-structure"
    }

    fn code(&self) -> (r: &str)
        ensures
            r@ == "VSA006"@,
    {
        "VSA006"
    }

    fn validate(&self, ctx: &ValidationContext, report: &mut EnhancedValidationReport) -> (r:
        Result<(), VsaError>)
        ensures
            r is Ok,
            report_grew(
                *old(report),
                *final(report),
                Seq::empty(),
                shared_folder_rule_warnings(ctx.tree.entries@, ctx.root@, ctx.config),
            ),
    {
        let ghost es = ctx.tree.entries@;
        let ghost root = ctx.root@;
        let ghost f = |k: int| shared_folder_warnings(es, ctx.config, context_path(es, root, k));
        let ghost w0 = issues_view(report.warnings@);
        let contexts = contexts_in(&ctx.tree, ctx.root.as_str());
        proof {
            lemma_concat_map_empty(f);
        }
        let mut k: usize = 0;
        while k < contexts.len()
            invariant
                k <= contexts@.len(),
                es == ctx.tree.entries@,
                root == ctx.root@,
                f == (|k: int| shared_folder_warnings(es, ctx.config, context_path(es, root, k))),
                contexts_match(contexts@, es, context_indices(es, root)),
                w0 == issues_view(old(report).warnings@),
                issues_view(report.warnings@) == w0 + concat_map(k as int, f),
                report.errors@ == old(report).errors@,
                report.suggestions@ == old(report).suggestions@,
            decreases contexts.len() - k,
        {
            let c = &contexts[k];
            let ghost before = issues_view(report.warnings@);
            let shared = push_path_str(c.path.as_str(), "_shared");
            let events = push_path_str(shared.as_str(), "integration-events");
            if ctx.tree.has_path(shared.as_str()) && !ctx.tree.has_path(events.as_str())
                && ctx.config.validation.require_integration_events_in_shared {
                let mut msg = owned("Context '");
                msg.append(c.name.as_str());
                msg.append("' has _shared folder but no integration-events directory");
                let target = push_path_str(events.as_str(), ".gitkeep");
                push_issue(
                    &mut report.warnings,
                    shared,
                    msg,
                    "VSA006",
                    Severity::Warning,
                    Suggestion::create_file(target, "Create _shared/integration-events/ directory"),
                );
            } else {
                assert(f(k as int) =~= Seq::<IssueView>::empty());
            }
            proof {
                lemma_concat_map_step(k as int, f);
                assert(issues_view(report.warnings@) =~= before + f(k as int));
            }
            k = k + 1;
        }
        proof {
            assert(issues_view(report.errors@) =~= issues_view(old(report).errors@) + Seq::<IssueView>::empty());
            lemma_grew_extends(
                *old(report),
                *report,
                Seq::empty(),
                shared_folder_rule_warnings(es, root, ctx.config),
            );
        }
        Ok(())
    }
}

// ============================================================================
// The rule set
// ============================================================================

/// The rules of the default set.
#[derive(Clone, Copy, PartialEq, Eq, Structural)]
pub enum BuiltinRule {
    RequireTests,
    RequireHandlerForCommand,
    RequireEventForCommand,
    NamingConvention,
    MaxNestingDepth,
    SharedFolder,
    NoDuplicateIntegrationEvents,
    IntegrationEventsLocation,
    IntegrationEventNaming,
    NoCircularDependencies,
    ContextBoundaries,
    RequireSharedFolder,
}

/// The default rules, in the order they run.
pub open spec fn default_rule_list() -> Seq<BuiltinRule> {
    seq![
        BuiltinRule::RequireTests,
        BuiltinRule::RequireHandlerForCommand,
        BuiltinRule::RequireEventForCommand,
        BuiltinRule::NamingConvention,
        BuiltinRule::MaxNestingDepth,
        BuiltinRule::SharedFolder,
        BuiltinRule::NoDuplicateIntegrationEvents,
        BuiltinRule::IntegrationEventsLocation,
        BuiltinRule::IntegrationEventNaming,
        BuiltinRule::NoCircularDependencies,
        BuiltinRule::ContextBoundaries,
        BuiltinRule::RequireSharedFolder,
    ]
}

/// The publishers of the integration events of the project `ctx` holds.
pub open spec fn ctx_publishers(ctx: ValidationContext) -> Seq<Seq<char>> {
    crate::integration_events::event_publishers(
        crate::integration_events::scanned_events(ctx.tree.entries@, ctx.root@, ctx.config.patterns),
    )
}

/// What running built-in rule `rule` on `ctx` makes of the report
/// `before`.
pub open spec fn builtin_outcome(
    rule: BuiltinRule,
    ctx: ValidationContext,
    before: EnhancedValidationReport,
    after: EnhancedValidationReport,
) -> bool {
    let es = ctx.tree.entries@;
    let root = ctx.root@;
    match rule {
        BuiltinRule::RequireTests => report_grew(
            before,
            after,
            Seq::empty(),
            feature_rule_issues(FeatureCheck::Tests, es, root, ctx.config),
        ),
        BuiltinRule::RequireHandlerForCommand => report_grew(
            before,
            after,
            feature_rule_issues(FeatureCheck::Handler, es, root, ctx.config),
            Seq::empty(),
        ),
        BuiltinRule::RequireEventForCommand => report_grew(
            before,
            after,
            Seq::empty(),
            feature_rule_issues(FeatureCheck::Event, es, root, ctx.config),
        ),
        BuiltinRule::NamingConvention => report_grew(
            before,
            after,
            Seq::empty(),
            feature_rule_issues(FeatureCheck::Naming, es, root, ctx.config),
        ),
        BuiltinRule::MaxNestingDepth => report_grew(
            before,
            after,
            Seq::empty(),
            feature_rule_issues(FeatureCheck::Depth, es, root, ctx.config),
        ),
        BuiltinRule::SharedFolder => report_grew(
            before,
            after,
            Seq::empty(),
            shared_folder_rule_warnings(es, root, ctx.config),
        ),
        BuiltinRule::NoDuplicateIntegrationEvents => report_grew(
            before,
            after,
            duplicate_errors(root, ctx_events(ctx)),
            Seq::empty(),
        ),
        BuiltinRule::IntegrationEventsLocation => report_grew(
            before,
            after,
            Seq::empty(),
            concat_map(ctx_events(ctx).len() as int, |k: int| location_warnings(ctx_events(ctx)[k])),
        ),
        BuiltinRule::IntegrationEventNaming => report_grew(
            before,
            after,
            Seq::empty(),
            concat_map(
                ctx_events(ctx).len() as int,
                |k: int| naming_warnings(ctx_events(ctx)[k], language_extension(ctx.config.language@)),
            ),
        ),
        BuiltinRule::NoCircularDependencies => {
            &&& after.warnings@ == before.warnings@
            &&& after.suggestions@ == before.suggestions@
            &&& issues_view(before.errors@).is_prefix_of(issues_view(after.errors@))
            &&& reports_cycles(
                after.errors@,
                before.errors@.len() as int,
                cyclic_contexts(context_names(es, root), ctx_publishers(ctx)),
                context_names(es, root),
                ctx_publishers(ctx),
                root,
            )
        },
        BuiltinRule::ContextBoundaries => report_grew(
            before,
            after,
            Seq::empty(),
            boundaries_warnings(es, root, ctx.config),
        ),
        BuiltinRule::RequireSharedFolder => report_grew(
            before,
            after,
            Seq::empty(),
            super::bounded_context_rules::shared_folder_warnings(es, root),
        ),
    }
}

/// Whether built-in rule `rule` needs the extension of the configured
/// language (its file patterns or the integration-event scan use it), so
/// that it fails on a language without one.
pub open spec fn reads_language(rule: BuiltinRule) -> bool {
    ||| rule == BuiltinRule::RequireTests
    ||| rule == BuiltinRule::RequireHandlerForCommand
    ||| rule == BuiltinRule::RequireEventForCommand
    ||| rule == BuiltinRule::NoDuplicateIntegrationEvents
    ||| rule == BuiltinRule::IntegrationEventsLocation
    ||| rule == BuiltinRule::IntegrationEventNaming
    ||| rule == BuiltinRule::NoCircularDependencies
}

/// The position of the first rule of `rules` that needs the language's
/// extension, or the number of rules when none does.
pub open spec fn first_reading(rules: Seq<BuiltinRule>) -> int
    decreases rules.len(),
{
    if rules.len() == 0 {
        0
    } else if reads_language(rules[0]) {
        0
    } else {
        1 + first_reading(rules.drop_first())
    }
}

/// How many built-in rules of `rules` run to completion for the language
/// `lang`: all of them for a supported language, else those before the
/// first that needs the language's extension.
pub open spec fn builtin_run_len(rules: Seq<BuiltinRule>, lang: Seq<char>) -> int {
    if crate::config::supported_language(lang) {
        rules.len() as int
    } else {
        first_reading(rules)
    }
}

/// Whether `reports` is what running the added rules `rules` in order
/// makes, with `r` as the result: each rule that ran took the report its
/// predecessor left (`reports[0]` first) and left the next one; every rule
/// that ran but the last returned `Ok`, the last returned `r`; when `r` is
/// `Ok` every rule ran, when it is an error the rules after the failing
/// one did not run.
pub open spec fn added_trace(
    rules: Seq<Box<dyn ValidationRule>>,
    ctx: ValidationContext,
    reports: Seq<EnhancedValidationReport>,
    r: Result<(), VsaError>,
) -> bool {
    &&& 1 <= reports.len() <= rules.len() + 1
    &&& forall|i: int|
        0 <= i < reports.len() - 1 ==> (#[trigger] rules[i]).validate_outcome(
            ctx,
            reports[i],
            if i == reports.len() - 2 {
                r
            } else {
                Ok(())
            },
            reports[i + 1],
        )
    &&& r is Ok ==> reports.len() == rules.len() + 1
    &&& r is Err ==> reports.len() >= 2
}

/// What running built-in rule `rule` on `ctx` does to the report
/// `before`, returning `r` and leaving `after`: on an unsupported language
/// a rule that needs its extension fails with `UnsupportedLanguage` and
/// leaves the report as it was; otherwise it succeeds as `builtin_outcome`
/// says.
pub open spec fn builtin_result(
    rule: BuiltinRule,
    ctx: ValidationContext,
    before: EnhancedValidationReport,
    r: Result<(), VsaError>,
    after: EnhancedValidationReport,
) -> bool {
    if reads_language(rule) && !crate::config::supported_language(ctx.config.language@) {
        r_is_unsupported(r, ctx.config.language@) && after == before
    } else {
        r is Ok && builtin_outcome(rule, ctx, before, after)
    }
}

/// `r` is the error for the unsupported language `lang`.
pub open spec fn r_is_unsupported(r: Result<(), VsaError>, lang: Seq<char>) -> bool {
    r matches Err(e) && crate::config::is_unsupported_language(e, lang)
}

proof fn lemma_first_reading(rules: Seq<BuiltinRule>)
    ensures
        0 <= first_reading(rules) <= rules.len(),
        forall|j: int| 0 <= j < first_reading(rules) ==> !reads_language(#[trigger] rules[j]),
        first_reading(rules) < rules.len() ==> reads_language(rules[first_reading(rules)]),
    decreases rules.len(),
{
    if rules.len() > 0 && !reads_language(rules[0]) {
        let t = rules.drop_first();
        lemma_first_reading(t);
        assert forall|j: int| 0 <= j < first_reading(rules) implies !reads_language(#[trigger] rules[j]) by {
            if j > 0 {
                assert(rules[j] == t[j - 1]);
            }
        }
        if first_reading(rules) < rules.len() {
            assert(rules[first_reading(rules)] == t[first_reading(t)]);
        }
    }
}

/// Whether `chain` is the succession of reports the rules make, one after
/// the other, on `ctx`: it starts with the report they are run on, and
/// each next report is what the next rule makes of the one before.
pub open spec fn builtin_chain(
    rules: Seq<BuiltinRule>,
    ctx: ValidationContext,
    chain: Seq<EnhancedValidationReport>,
) -> bool {
    &&& chain.len() == rules.len() + 1
    &&& forall|i: int| 0 <= i < rules.len() ==> builtin_outcome(#[trigger] rules[i], ctx, chain[i], chain[i + 1])
}

fn validate_builtin(rule: BuiltinRule, ctx: &ValidationContext, report: &mut EnhancedValidationReport) -> (r:
    Result<(), VsaError>)
    ensures
        reads_language(rule) && !crate::config::supported_language(ctx.config.language@) ==> (r matches Err(
            e,
        ) && crate::config::is_unsupported_language(e, ctx.config.language@) && *final(report) == *old(report)),
        !(reads_language(rule) && !crate::config::supported_language(ctx.config.language@)) ==> (r is Ok
            && builtin_outcome(rule, *ctx, *old(report), *final(report))),
        report_extends(*old(report), *final(report)),
{
    match rule {
        BuiltinRule::RequireTests => RequireTestsRule.validate(ctx, report),
        BuiltinRule::RequireHandlerForCommand => RequireHandlerForCommandRule.validate(ctx, report),
        BuiltinRule::RequireEventForCommand => RequireEventForCommandRule.validate(ctx, report),
        BuiltinRule::NamingConvention => NamingConventionRule.validate(ctx, report),
        BuiltinRule::MaxNestingDepth => MaxNestingDepthRule.validate(ctx, report),
        BuiltinRule::SharedFolder => SharedFolderRule.validate(ctx, report),
        BuiltinRule::NoDuplicateIntegrationEvents => NoDuplicateIntegrationEventsRule.validate(
            ctx,
            report,
        ),
        BuiltinRule::IntegrationEventsLocation => IntegrationEventsLocationRule.validate(ctx, report),
        BuiltinRule::IntegrationEventNaming => IntegrationEventNamingRule.validate(ctx, report),
        BuiltinRule::NoCircularDependencies => NoCircularDependenciesRule.validate(ctx, report),
        BuiltinRule::ContextBoundaries => ContextBoundariesRule.validate(ctx, report),
        BuiltinRule::RequireSharedFolder => RequireSharedFolderRule.validate(ctx, report),
    }
}

/// Collection of validation rules: the built-in rules it was made with,
/// then the rules added to it, each run in order.
pub struct ValidationRuleSet {
    builtin: Vec<BuiltinRule>,
    custom: Vec<Box<dyn ValidationRule>>,
}

impl ValidationRuleSet {
    /// Create a new empty rule set.
    pub fn new() -> (r: Self)
        ensures
            r.builtin_rules() == Seq::<BuiltinRule>::empty(),
            r.added_rules() == Seq::<Box<dyn ValidationRule>>::empty(),
    {
        ValidationRuleSet { builtin: Vec::new(), custom: Vec::new() }
    }

    /// Create a new rule set with the default rules.
    pub fn default_rules() -> (r: Self)
        ensures
            r.builtin_rules() == default_rule_list(),
            r.added_rules() == Seq::<Box<dyn ValidationRule>>::empty(),
    {
        let mut builtin: Vec<BuiltinRule> = Vec::new();
        builtin.push(BuiltinRule::RequireTests);
        builtin.push(BuiltinRule::RequireHandlerForCommand);
        builtin.push(BuiltinRule::RequireEventForCommand);
        builtin.push(BuiltinRule::NamingConvention);
        builtin.push(BuiltinRule::MaxNestingDepth);
        builtin.push(BuiltinRule::SharedFolder);
        builtin.push(BuiltinRule::NoDuplicateIntegrationEvents);
        builtin.push(BuiltinRule::IntegrationEventsLocation);
        builtin.push(BuiltinRule::IntegrationEventNaming);
        builtin.push(BuiltinRule::NoCircularDependencies);
        builtin.push(BuiltinRule::ContextBoundaries);
        builtin.push(BuiltinRule::RequireSharedFolder);
        assert(builtin@ =~= default_rule_list());
        ValidationRuleSet { builtin, custom: Vec::new() }
    }

    /// The built-in rules of the set, in order.
    pub closed spec fn builtin_rules(&self) -> Seq<BuiltinRule> {
        self.builtin@
    }

    /// The rules added to the set, in order; they run after the built-in
    /// ones.
    pub closed spec fn added_rules(&self) -> Seq<Box<dyn ValidationRule>> {
        self.custom@
    }

    /// Add a custom rule.
    pub fn add_rule(&mut self, rule: Box<dyn ValidationRule>)
        ensures
            final(self).builtin_rules() == old(self).builtin_rules(),
            final(self).added_rules() == old(self).added_rules().push(rule),
    {
        self.custom.push(rule);
    }

    /// Validate all rules, in order: the built-in rules, each adding the
    /// issues it finds, then the added rules. The first rule that fails
    /// stops the validation with its error: a built-in rule that needs the
    /// language's extension fails on an unsupported language, an added rule
    /// as its own `validate` says. What the report held stays.
    pub fn validate_all(&self, ctx: &ValidationContext, report: &mut EnhancedValidationReport) -> (r:
        Result<(), VsaError>)
        ensures
            report_extends(*old(report), *final(report)),
            exists|chain: Seq<EnhancedValidationReport>|
                #[trigger] builtin_chain(
                    self.builtin_rules().subrange(
                        0,
                        builtin_run_len(self.builtin_rules(), ctx.config.language@),
                    ),
                    *ctx,
                    chain,
                ) && chain[0] == *old(report) && (if builtin_run_len(
                    self.builtin_rules(),
                    ctx.config.language@,
                ) < self.builtin_rules().len() {
                    r_is_unsupported(r, ctx.config.language@) && *final(report) == chain.last()
                } else {
                    exists|trace: Seq<EnhancedValidationReport>|
                        #[trigger] added_trace(self.added_rules(), *ctx, trace, r) && trace[0]
                            == chain.last() && trace.last() == *final(report)
                }),
    {
        proof {
            crate::validation::lemma_extends_refl(*report);
            lemma_first_reading(self.builtin@);
        }
        let ghost rules = self.builtin@;
        let ghost n = builtin_run_len(rules, ctx.config.language@);
        let ghost mut chain: Seq<EnhancedValidationReport> = seq![*report];
        let mut i: usize = 0;
        while i < self.builtin.len()
            invariant
                rules == self.builtin@,
                n == builtin_run_len(rules, ctx.config.language@),
                0 <= first_reading(rules) <= rules.len(),
                forall|j: int| 0 <= j < first_reading(rules) ==> !reads_language(#[trigger] rules[j]),
                first_reading(rules) < rules.len() ==> reads_language(rules[first_reading(rules)]),
                report_extends(*old(report), *report),
                i <= n,
                chain.len() == i + 1,
                chain[0] == *old(report),
                chain.last() == *report,
                forall|t: int| 0 <= t < i ==> builtin_outcome(#[trigger] rules[t], *ctx, chain[t], chain[t + 1]),
            decreases self.builtin.len() - i,
        {
            let ghost mid = *report;
            let ghost c0 = chain;
            let res = validate_builtin(self.builtin[i], ctx, report);
            proof {
                lemma_extends_transitive(*old(report), mid, *report);
            }
            match res {
                Ok(()) => {},
                Err(e) => {
                    proof {
                        assert(reads_language(rules[i as int]));
                        assert(!crate::config::supported_language(ctx.config.language@));
                        assert(i == first_reading(rules));
                        assert(n < rules.len());
                        assert(rules.subrange(0, n) =~= rules.subrange(0, i as int));
                        assert(builtin_chain(rules.subrange(0, n), *ctx, chain));
                        assert(builtin_chain(
                            self.builtin_rules().subrange(0, builtin_run_len(self.builtin_rules(), ctx.config.language@)),
                            *ctx,
                            chain,
                        ) && chain[0] == *old(report) && (r_is_unsupported(Err(e), ctx.config.language@) && *report == chain.last()));
                    }
                    return Err(e);
                },
            }
            proof {
                if !crate::config::supported_language(ctx.config.language@) {
                    assert(!reads_language(rules[i as int]));
                    assert(i < first_reading(rules));
                }
                chain = c0.push(*report);
                assert forall|t: int| 0 <= t < i + 1 implies builtin_outcome(#[trigger] rules[t], *ctx, chain[t], chain[t + 1]) by {
                    if t < i {
                        assert(chain[t] == c0[t] && chain[t + 1] == c0[t + 1]);
                    }
                }
            }
            i = i + 1;
        }
        proof {
            assert(rules.subrange(0, n) =~= rules);
            assert(builtin_chain(rules.subrange(0, n), *ctx, chain));
        }
        let ghost last = *report;
        proof {
            assert(n == rules.len());
        }
        let ghost mut trace: Seq<EnhancedValidationReport> = seq![*report];
        let mut j: usize = 0;
        while j < self.custom.len()
            invariant
                report_extends(*old(report), *report),
                rules == self.builtin@,
                n == builtin_run_len(rules, ctx.config.language@),
                n == rules.len(),
                builtin_chain(rules.subrange(0, n), *ctx, chain),
                chain[0] == *old(report),
                chain.last() == last,
                j <= self.custom@.len(),
                trace.len() == j + 1,
                trace[0] == last,
                trace.last() == *report,
                forall|t: int|
                    0 <= t < j ==> (#[trigger] self.custom@[t]).validate_outcome(*ctx, trace[t], Ok(()), trace[t + 1]),
            decreases self.custom.len() - j,
        {
            let ghost mid = *report;
            let ghost t0 = trace;
            let res = self.custom[j].validate(ctx, report);
            let ghost rg = res;
            proof {
                lemma_extends_transitive(*old(report), mid, *report);
                trace = t0.push(*report);
                assert(self.custom@[j as int].validate_outcome(*ctx, trace[j as int], res, trace[j + 1]));
                assert forall|t: int| 0 <= t < j implies (#[trigger] self.custom@[t]).validate_outcome(
                    *ctx,
                    trace[t],
                    Ok(()),
                    trace[t + 1],
                ) by {
                    assert(trace[t] == t0[t] && trace[t + 1] == t0[t + 1]);
                }
            }
            match res {
                Ok(()) => {
                    proof {
                        assert forall|t: int| 0 <= t < j + 1 implies (#[trigger] self.custom@[t]).validate_outcome(
                            *ctx,
                            trace[t],
                            Ok(()),
                            trace[t + 1],
                        ) by {
                            if t < j {
                                assert(trace[t] == t0[t] && trace[t + 1] == t0[t + 1]);
                            } else {
                                assert(rg is Ok);
                                let u: () = rg->Ok_0;
                                assert(rg == Ok::<(), VsaError>(u));
                            }
                        }
                    }
                },
                Err(e) => {
                    proof {
                        assert forall|t: int| 0 <= t < trace.len() - 1 implies (#[trigger] self.custom@[t]).validate_outcome(
                            *ctx,
                            trace[t],
                            if t == trace.len() - 2 { Err(e) } else { Ok(()) },
                            trace[t + 1],
                        ) by {}
                        assert(added_trace(self.custom@, *ctx, trace, Err(e)));
                        assert(added_trace(self.added_rules(), *ctx, trace, Err(e)) && trace[0] == chain.last() && trace.last() == *report);
                        assert(builtin_chain(
                            self.builtin_rules().subrange(0, builtin_run_len(self.builtin_rules(), ctx.config.language@)),
                            *ctx,
                            chain,
                        ) && chain[0] == *old(report) && !(builtin_run_len(self.builtin_rules(), ctx.config.language@)
                            < self.builtin_rules().len()) && (exists|tr: Seq<EnhancedValidationReport>|
                            #[trigger] added_trace(self.added_rules(), *ctx, tr, Err(e)) && tr[0] == chain.last()
                                && tr.last() == *report));
                    }
                    return Err(e);
                },
            }
            j = j + 1;
        }
        proof {
            assert forall|t: int| 0 <= t < trace.len() - 1 implies (#[trigger] self.custom@[t]).validate_outcome(
                *ctx,
                trace[t],
                if t == trace.len() - 2 { Ok(()) } else { Ok(()) },
                trace[t + 1],
            ) by {}
            assert(added_trace(self.custom@, *ctx, trace, Ok(())));
            assert(added_trace(self.added_rules(), *ctx, trace, Ok(())) && trace[0] == chain.last() && trace.last() == *report);
            assert(builtin_chain(
                            self.builtin_rules().subrange(0, builtin_run_len(self.builtin_rules(), ctx.config.language@)),
                            *ctx,
                            chain,
                        ) && chain[0] == *old(report) && !(builtin_run_len(self.builtin_rules(), ctx.config.language@)
                            < self.builtin_rules().len()) && (exists|tr: Seq<EnhancedValidationReport>|
                            #[trigger] added_trace(self.added_rules(), *ctx, tr, Ok(())) && tr[0] == chain.last()
                                && tr.last() == *report));
        }
        Ok(())
    }
}


impl Default for ValidationRuleSet {
    fn default() -> (r: Self)
        ensures
            r.builtin_rules() == default_rule_list(),
            r.added_rules() == Seq::<Box<dyn ValidationRule>>::empty(),
    {
        Self::default_rules()
    }
}

} // verus!
