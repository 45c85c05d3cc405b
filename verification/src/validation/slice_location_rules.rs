//! Slice location rule: command and query slices belong in the `slices/`
//! directory of their context (VSA015).

use vstd::prelude::*;

use crate::config::{VsaConfig, language_extension};
use crate::error::VsaError;
use crate::path::{file_name_of, file_name_str, path_parent_str, push_path, push_path_str};
use crate::scanner::{
    FeatureInfo, context_indices, contexts_in, contexts_match, entry_name, feature_paths,
    feature_paths_of, features_in, features_named, relative_to, skipped_domain,
};
use crate::text::{ends_with, owned, starts_with, str_ends_with, str_eq, str_starts_with};
use crate::tree::{FsEntry, ProjectTree, is_child_path, path_is_dir};
use super::bounded_context_rules::{context_count, context_path};
use super::suggestions::{Suggestion, manual_view};
use super::{
    EnhancedValidationReport, IssueView, Severity, ValidationContext, ValidationIssue, ValidationRule,
    concat_map, file_name_or_empty, issue, issues_view, lemma_concat_map_empty,
    lemma_concat_map_step, lemma_grew_extends, push_issue, report_grew,
};

verus! {

/// VSA015: all slices must be located in the `slices/` directory.
pub struct RequireSliceLocationRule;

/// Names of directories that are never slices: infrastructure,
/// organizational and special-purpose directories.
pub open spec fn is_reserved_dir_name(n: Seq<char>) -> bool {
    ||| n == "_shared"@
    ||| n == "domain"@
    ||| n == "events"@
    ||| n == "ports"@
    ||| n == "commands"@
    ||| n == "queries"@
    ||| n == "aggregates"@
    ||| n == "application"@
    ||| n == "infrastructure"@
    ||| n == "tests"@
    ||| n == "fixtures"@
    ||| n == "__pycache__"@
}

/// The names of entries that mark a slice: commands, events, handlers and
/// projections, and the generic `handler`, `projection` and `commands`
/// modules.
pub open spec fn is_slice_like_name(n: Seq<char>, ext: Seq<char>) -> bool {
    ||| ends_with(n, "Command."@ + ext)
    ||| ends_with(n, "Event."@ + ext)
    ||| ends_with(n, "Handler."@ + ext)
    ||| ends_with(n, "Projection."@ + ext)
    ||| n == "handler."@ + ext
    ||| n == "projection."@ + ext
    ||| n == "commands."@ + ext
}

/// Whether the directory at `p` looks like a slice: it is a directory of
/// the tree, named neither `slices` nor a reserved name, with an entry
/// whose name marks a slice.
pub open spec fn is_potential_slice(es: Seq<FsEntry>, p: Seq<char>, ext: Seq<char>) -> bool {
    &&& path_is_dir(es, p)
    &&& file_name_of(p) matches Some(n) && n != "slices"@ && !is_reserved_dir_name(n)
    &&& exists|i: int|
        0 <= i < es.len() && is_child_path(es[i].path@, p) && is_slice_like_name(
            file_name_or_empty(#[trigger] es[i].path@),
            ext,
        )
}

/// Whether the feature at `fp` of context `ctx` is a slice outside
/// `slices/`.
pub open spec fn is_misplaced_slice(es: Seq<FsEntry>, ctx: Seq<char>, fp: Seq<char>, ext: Seq<char>) -> bool {
    let rel = relative_to(fp, ctx);
    &&& !starts_with(rel, "slices/"@)
    &&& !starts_with(rel, "slices\\"@)
    &&& !is_reserved_dir_name(entry_name(fp))
    &&& is_potential_slice(es, fp, ext)
}

/// The error for the misplaced slice at `fp` of context `ctx`.
pub open spec fn misplaced_slice_issue(ctx: Seq<char>, fp: Seq<char>) -> IssueView {
    let name = entry_name(fp);
    issue(
        fp,
        "Slice '"@ + name + "' in context '"@ + entry_name(ctx)
            + "' is not located in slices/ directory. All command and query slices should be organized under slices/ (found at: "@
            + relative_to(fp, ctx) + ")"@,
        "VSA015"@,
        Severity::Error,
        manual_view(
            "Move this slice to slices/"@ + name + "/\nCommand: git mv "@ + fp + " "@ + push_path(
                push_path(ctx, "slices"@),
                name,
            ),
        ),
    )
}

/// The features of context `ctx`, as the scanner finds them.
pub open spec fn context_features(es: Seq<FsEntry>, ctx: Seq<char>, config: VsaConfig) -> Seq<
    Seq<char>,
> {
    feature_paths(
        es,
        ctx,
        skipped_domain(config),
        config.validation.allow_nested_features,
        es.len() as nat,
    )
}

/// VSA015's errors for context `ctx`, feature by feature.
pub open spec fn context_slice_location_errors(
    es: Seq<FsEntry>,
    ctx: Seq<char>,
    config: VsaConfig,
) -> Seq<IssueView> {
    let ext = language_extension(config.language@);
    context_features(es, ctx, config).map_values(
        |fp: Seq<char>|
            if is_misplaced_slice(es, ctx, fp, ext) {
                seq![misplaced_slice_issue(ctx, fp)]
            } else {
                Seq::empty()
            },
    ).flatten()
}

/// VSA015's errors over all contexts under `root`.
pub open spec fn slice_location_errors(es: Seq<FsEntry>, root: Seq<char>, config: VsaConfig) -> Seq<
    IssueView,
> {
    concat_map(
        context_count(es, root),
        |k: int| context_slice_location_errors(es, context_path(es, root, k), config),
    )
}

fn is_reserved_dir_name_exec(n: &str) -> (r: bool)
    ensures
        r == is_reserved_dir_name(n@),
{
    str_eq(n, "_shared") || str_eq(n, "domain") || str_eq(n, "events") || str_eq(n, "ports")
        || str_eq(n, "commands") || str_eq(n, "queries") || str_eq(n, "aggregates") || str_eq(
        n,
        "application",
    ) || str_eq(n, "infrastructure") || str_eq(n, "tests") || str_eq(n, "fixtures") || str_eq(
        n,
        "__pycache__",
    )
}

fn with_ext(prefix: &str, ext: &str) -> (r: String)
    ensures
        r@ == prefix@ + ext@,
{
    let mut r = owned(prefix);
    r.append(ext);
    r
}

fn is_slice_like_name_exec(n: &str, ext: &str) -> (r: bool)
    ensures
        r == is_slice_like_name(n@, ext@),
{
    let c = with_ext("Command.", ext);
    let e = with_ext("Event.", ext);
    let h = with_ext("Handler.", ext);
    let p = with_ext("Projection.", ext);
    let h2 = with_ext("handler.", ext);
    let p2 = with_ext("projection.", ext);
    let c2 = with_ext("commands.", ext);
    str_ends_with(n, c.as_str()) || str_ends_with(n, e.as_str()) || str_ends_with(n, h.as_str())
        || str_ends_with(n, p.as_str()) || str_eq(n, h2.as_str()) || str_eq(n, p2.as_str())
        || str_eq(n, c2.as_str())
}

impl RequireSliceLocationRule {
    /// Whether the directory at `p` looks like a slice.
    pub fn is_potential_slice(&self, tree: &ProjectTree, p: &str, ext: &str) -> (r: bool)
        ensures
            r == is_potential_slice(tree.entries@, p@, ext@),
    {
        if !tree.is_dir(p) {
            return false;
        }
        let n = match file_name_str(p) {
            Some(n) => n,
            None => return false,
        };
        if str_eq(n.as_str(), "slices") || is_reserved_dir_name_exec(n.as_str()) {
            return false;
        }
        let ghost es = tree.entries@;
        let mut i: usize = 0;
        while i < tree.entries.len()
            invariant
                i <= es.len(),
                es == tree.entries@,
                path_is_dir(es, p@),
                file_name_of(p@) == Some(n@),
                n@ != "slices"@,
                !is_reserved_dir_name(n@),
                forall|j: int|
                    0 <= j < i ==> !(is_child_path(es[j].path@, p@) && is_slice_like_name(
                        file_name_or_empty(#[trigger] es[j].path@),
                        ext@,
                    )),
            decreases tree.entries.len() - i,
        {
            let e = &tree.entries[i];
            let child = match path_parent_str(e.path.as_str()) {
                Some(q) => str_eq(q.as_str(), p),
                None => false,
            };
            if child {
                let name = match file_name_str(e.path.as_str()) {
                    Some(m) => m,
                    None => String::new(),
                };
                assert(name@ == file_name_or_empty(es[i as int].path@));
                if is_slice_like_name_exec(name.as_str(), ext) {
                    assert(is_child_path(es[i as int].path@, p@));
                    return true;
                }
            }
            i = i + 1;
        }
        false
    }
}

/// Appends VSA015's errors for the context at `ctx`.
fn check_context_slices(
    rule: &RequireSliceLocationRule,
    config: &VsaConfig,
    tree: &ProjectTree,
    ctx: &str,
    ext: &str,
    errors: &mut Vec<ValidationIssue>,
)
    requires
        ext@ == language_extension(config.language@),
    ensures
        issues_view(final(errors)@) == issues_view(old(errors)@) + context_slice_location_errors(
            tree.entries@,
            ctx@,
            *config,
        ),
{
    let ghost es = tree.entries@;
    let features = features_in(config, tree, ctx);
    let ghost fs = feature_paths_of(features@);
    let ghost f = |fp: Seq<char>|
        if is_misplaced_slice(es, ctx@, fp, ext@) {
            seq![misplaced_slice_issue(ctx@, fp)]
        } else {
            Seq::<IssueView>::empty()
        };
    let ghost e0 = issues_view(errors@);
    let cname = crate::path::last_component_str(ctx);
    let mut k: usize = 0;
    assert(fs.subrange(0, 0).map_values(f) =~= Seq::<Seq<IssueView>>::empty());
    assert(Seq::<Seq<IssueView>>::empty().flatten() =~= Seq::<IssueView>::empty());
    while k < features.len()
        invariant
            k <= features@.len(),
            es == tree.entries@,
            fs == feature_paths_of(features@),
            features_named(features@, ctx@),
            cname@ == entry_name(ctx@),
            f == (|fp: Seq<char>|
                if is_misplaced_slice(es, ctx@, fp, ext@) {
                    seq![misplaced_slice_issue(ctx@, fp)]
                } else {
                    Seq::<IssueView>::empty()
                }),
            issues_view(errors@) == e0 + fs.subrange(0, k as int).map_values(f).flatten(),
        decreases features.len() - k,
    {
        let ft = &features[k];
        let ghost fp = fs[k as int];
        assert(ft.path@ == fp);
        assert(ft.name@ == entry_name(fp) && ft.relative_path@ == relative_to(fp, ctx@));
        let rel = ft.relative_path.as_str();
        let ghost before = issues_view(errors@);
        if !str_starts_with(rel, "slices/") && !str_starts_with(rel, "slices\\")
            && !is_reserved_dir_name_exec(ft.name.as_str()) && rule.is_potential_slice(
            tree,
            ft.path.as_str(),
            ext,
        ) {
            let mut msg = owned("Slice '");
            msg.append(ft.name.as_str());
            msg.append("' in context '");
            msg.append(cname.as_str());
            msg.append(
                "' is not located in slices/ directory. All command and query slices should be organized under slices/ (found at: ",
            );
            msg.append(rel);
            msg.append(")");
            let mut advice = owned("Move this slice to slices/");
            advice.append(ft.name.as_str());
            advice.append("/\nCommand: git mv ");
            advice.append(ft.path.as_str());
            advice.append(" ");
            let sl = push_path_str(ctx, "slices");
            let target = push_path_str(sl.as_str(), ft.name.as_str());
            advice.append(target.as_str());
            push_issue(
                errors,
                ft.path.clone(),
                msg,
                "VSA015",
                Severity::Error,
                Suggestion::manual(advice.as_str()),
            );
            assert(f(fp) == seq![misplaced_slice_issue(ctx@, fp)]);
        } else {
            assert(f(fp) =~= Seq::<IssueView>::empty());
        }
        proof {
            assert(fs.subrange(0, k + 1).map_values(f) =~= fs.subrange(0, k as int).map_values(f).push(
                f(fp),
            ));
            fs.subrange(0, k as int).map_values(f).lemma_flatten_push(f(fp));
            assert(issues_view(errors@) =~= e0 + fs.subrange(0, k + 1).map_values(f).flatten());
        }
        k = k + 1;
    }
    assert(fs.subrange(0, features@.len() as int) =~= fs);
}

impl ValidationRule for RequireSliceLocationRule {
    open spec fn validate_outcome(
        &self,
        ctx: ValidationContext,
        before: EnhancedValidationReport,
        r: Result<(), VsaError>,
        after: EnhancedValidationReport,
    ) -> bool {
        &&& (r is Ok <==> crate::config::supported_language(ctx.config.language@))
        &&& (r matches Err(e) ==> crate::config::is_unsupported_language(e, ctx.config.language@)
                && after == before)
        &&& (r is Ok ==> report_grew(
                before,
                after,
                slice_location_errors(ctx.tree.entries@, ctx.root@, ctx.config),
                Seq::empty(),
            ))
    }

    fn name(&self) -> (r: &str)
        ensures
            r@ == "require-slice-location"@,
    {
        "require-slice-location"
    }

    fn code(&self) -> (r: &str)
        ensures
            r@ == "VSA015"@,
    {
        "VSA015"
    }

    fn validate(&self, ctx: &ValidationContext, report: &mut EnhancedValidationReport) -> (r:
        Result<(), VsaError>)
        ensures
            r is Ok <==> crate::config::supported_language(ctx.config.language@),
            r matches Err(e) ==> crate::config::is_unsupported_language(e, ctx.config.language@)
                && *final(report) == *old(report),
            r is Ok ==> report_grew(
                *old(report),
                *final(report),
                slice_location_errors(ctx.tree.entries@, ctx.root@, ctx.config),
                Seq::empty(),
            ),
    {
        match ctx.config.check_language() {
            Ok(()) => {},
            Err(e) => {
                proof {
                    crate::validation::lemma_extends_refl(*report);
                }
                return Err(e);
            },
        }
        let ext = ctx.config.file_extension();
        let ghost es = ctx.tree.entries@;
        let ghost root = ctx.root@;
        let ghost f = |k: int| context_slice_location_errors(es, context_path(es, root, k), ctx.config);
        let ghost e0 = issues_view(report.errors@);
        let contexts = contexts_in(&ctx.tree, ctx.root.as_str());
        proof {
            lemma_concat_map_empty(f);
        }
        let mut k: usize = 0;
        while k < contexts.len()
            invariant
                k <= contexts@.len(),
                es == ctx.tree.entries@,
                root == ctx.root@,
                ext@ == language_extension(ctx.config.language@),
                f == (|k: int| context_slice_location_errors(es, context_path(es, root, k), ctx.config)),
                contexts_match(contexts@, es, context_indices(es, root)),
                e0 == issues_view(old(report).errors@),
                issues_view(report.errors@) == e0 + concat_map(k as int, f),
                report.warnings@ == old(report).warnings@,
                report.suggestions@ == old(report).suggestions@,
            decreases contexts.len() - k,
        {
            let c = &contexts[k];
            let ghost before = issues_view(report.errors@);
            check_context_slices(self, &ctx.config, &ctx.tree, c.path.as_str(), ext, &mut report.errors);
            proof {
                lemma_concat_map_step(k as int, f);
                assert(issues_view(report.errors@) =~= before + f(k as int));
            }
            k = k + 1;
        }
        proof {
            assert(issues_view(report.warnings@) =~= issues_view(old(report).warnings@) + Seq::<IssueView>::empty());
            lemma_grew_extends(*old(report), *report, slice_location_errors(es, root, ctx.config), Seq::empty());
        }
        Ok(())
    }
}

} // verus!
