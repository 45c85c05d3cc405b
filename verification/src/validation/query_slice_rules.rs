//! Query slice rules: a query slice needs a projection (VSA007) and a
//! handler (VSA008); a projection should subscribe to events (VSA009).

use vstd::prelude::*;

use crate::assoc::strs;
use crate::case::{char_to_uppercase, uppercase_char};
use crate::config::{SliceType, SlicesConfig, VsaConfig, language_extension};
use crate::error::VsaError;
use crate::path::{push_path, push_path_str};
use crate::scanners::projection_scanner::{
    ProjectionScanner, event_candidates, is_sorted_set_of, projection_at, projection_indices,
    projection_name, projection_scan_outcome,
};
use crate::scanners::slice_scanner::{
    ManifestView, Slice, SliceFile, SliceFileType, SliceManifest, SliceScanner, file_view,
    has_file_type, manifest_of, scan_outcome, scanned_slice_paths, slice_file_views, slice_of_dir,
    slice_type_from, views_have_type,
};
use crate::text::{chars_of, concat_all, owned, split_chars, split_on, string_of};
use crate::tree::FsEntry;
use super::suggestions::{Suggestion, create_file_view, manual_view};
use super::{
    EnhancedValidationReport, IssueView, Severity, ValidationContext, ValidationIssue, ValidationRule,
    file_name_or_empty, issue, issues_view, lemma_grew_extends, push_issue, report_grew,
};

verus! {

/// VSA007: query slices must have a projection.
pub struct RequireProjectionForQueryRule;

/// VSA008: query slices must have a handler.
pub struct RequireHandlerForQueryRule;

/// VSA009: projections should subscribe to events.
pub struct ProjectionEventSubscriptionRule;

// ============================================================================
// PascalCase
// ============================================================================

/// The words of a snake_case or kebab-case name: its pieces between `_`,
/// each split again at `-`.
pub open spec fn pascal_words(s: Seq<char>) -> Seq<Seq<char>> {
    split_on(s, '_').map_values(|p: Seq<char>| split_on(p, '-')).flatten()
}

/// A word with its first character in uppercase.
pub open spec fn capitalized(w: Seq<char>) -> Seq<char> {
    if w.len() == 0 {
        Seq::empty()
    } else {
        uppercase_char(w[0]) + w.subrange(1, w.len() as int)
    }
}

/// A snake_case or kebab-case name in PascalCase.
pub open spec fn pascal_case(s: Seq<char>) -> Seq<char> {
    concat_all(pascal_words(s).map_values(|w: Seq<char>| capitalized(w)))
}

fn capitalized_exec(w: &Vec<char>) -> (r: String)
    ensures
        r@ == capitalized(w@),
{
    if w.len() == 0 {
        return String::new();
    }
    let up = char_to_uppercase(w[0]);
    let mut r = string_of(up.as_slice());
    let rest = crate::text::slice_chars(w.as_slice(), 1, w.len());
    let rs = string_of(rest.as_slice());
    r.append(rs.as_str());
    r
}

/// Convert snake_case or kebab-case to PascalCase.
pub fn to_pascal_case(s: &str) -> (r: String)
    ensures
        r@ == pascal_case(s@),
{
    let sc = chars_of(s);
    let parts = split_chars(sc.as_slice(), '_');
    let ghost pv = parts@.map_values(|p: Vec<char>| p@);
    let ghost sp = |p: Seq<char>| split_on(p, '-');
    let mut words: Vec<Vec<char>> = Vec::new();
    let mut i: usize = 0;
    assert(pv.subrange(0, 0).map_values(sp) =~= Seq::<Seq<Seq<char>>>::empty());
    assert(Seq::<Seq<Seq<char>>>::empty().flatten() =~= Seq::<Seq<char>>::empty());
    assert(words@.map_values(|w: Vec<char>| w@) =~= Seq::<Seq<char>>::empty());
    while i < parts.len()
        invariant
            i <= parts@.len(),
            pv == parts@.map_values(|p: Vec<char>| p@),
            sp == (|p: Seq<char>| split_on(p, '-')),
            words@.map_values(|w: Vec<char>| w@) == pv.subrange(0, i as int).map_values(sp).flatten(),
        decreases parts.len() - i,
    {
        let sub = split_chars(parts[i].as_slice(), '-');
        let ghost before = words@.map_values(|w: Vec<char>| w@);
        let ghost subv = sub@.map_values(|w: Vec<char>| w@);
        let mut sub = sub;
        words.append(&mut sub);
        proof {
            assert(words@.map_values(|w: Vec<char>| w@) =~= before + subv);
            assert(pv[i as int] == parts@[i as int]@);
            assert(pv.subrange(0, i + 1).map_values(sp) =~= pv.subrange(0, i as int).map_values(sp).push(
                sp(pv[i as int]),
            ));
            pv.subrange(0, i as int).map_values(sp).lemma_flatten_push(sp(pv[i as int]));
        }
        i = i + 1;
    }
    assert(pv.subrange(0, parts@.len() as int) =~= pv);
    let ghost wv = words@.map_values(|w: Vec<char>| w@);
    assert(wv == pascal_words(s@));
    let ghost cap = |w: Seq<char>| capitalized(w);
    let mut out = String::new();
    let mut j: usize = 0;
    assert(wv.subrange(0, 0).map_values(cap) =~= Seq::<Seq<char>>::empty());
    while j < words.len()
        invariant
            j <= words@.len(),
            wv == words@.map_values(|w: Vec<char>| w@),
            cap == (|w: Seq<char>| capitalized(w)),
            out@ == concat_all(wv.subrange(0, j as int).map_values(cap)),
        decreases words.len() - j,
    {
        let c = capitalized_exec(&words[j]);
        out.append(c.as_str());
        proof {
            let prev = wv.subrange(0, j as int).map_values(cap);
            assert(wv[j as int] == words@[j as int]@);
            assert(wv.subrange(0, j + 1).map_values(cap) =~= prev.push(cap(wv[j as int])));
            assert(prev.push(cap(wv[j as int])).drop_last() =~= prev);
        }
        j = j + 1;
    }
    assert(wv.subrange(0, words@.len() as int) =~= wv);
    out
}

// ============================================================================
// What the rules report
// ============================================================================

/// Whether query slices must have a projection (the default).
pub open spec fn query_needs_projection(config: VsaConfig) -> bool {
    match config.slices {
        Some(s) => match s.query {
            Some(q) => q.require_projection,
            None => true,
        },
        None => true,
    }
}

/// The slice directories a validation scans.
pub open spec fn ctx_slice_dirs(ctx: ValidationContext) -> Seq<Seq<char>> {
    scanned_slice_paths(ctx.tree.entries@, ctx.config.slices, ctx.root@)
}

/// Whether every slice manifest the scan meets could be read.
pub open spec fn slices_readable(ctx: ValidationContext) -> bool {
    let ds = ctx_slice_dirs(ctx);
    forall|k: int|
        0 <= k < ds.len() ==> (#[trigger] manifest_of(
            ctx.tree.entries@,
            ctx.tree.slice_manifests@,
            ds[k],
        )) is Ok
}

/// The type of slice `d`, when its manifest could be read.
pub open spec fn slice_type_at(ctx: ValidationContext, d: Seq<char>) -> SliceType {
    match manifest_of(ctx.tree.entries@, ctx.tree.slice_manifests@, d) {
        Ok(m) => slice_type_from(slice_file_views(ctx.tree.entries@, d), m).0,
        Err(_) => SliceType::Command,
    }
}

/// Whether slice `d` is a query slice without a file of type `t`.
pub open spec fn query_slice_lacks(ctx: ValidationContext, d: Seq<char>, t: SliceFileType) -> bool {
    slice_type_at(ctx, d) == SliceType::Query && !views_have_type(
        slice_file_views(ctx.tree.entries@, d),
        t,
    )
}

/// The file VSA007 suggests for query slice `d`: its PascalCase name
/// followed by `Projection`.
pub open spec fn projection_file_name(d: Seq<char>) -> Seq<char> {
    pascal_case(file_name_or_empty(d)) + "Projection"@
}

/// The file VSA008 suggests for query slice `d`.
pub open spec fn handler_file_name(d: Seq<char>) -> Seq<char> {
    pascal_case(file_name_or_empty(d)) + "Handler"@
}

/// The error for query slice `d` without a projection.
pub open spec fn missing_projection_issue(d: Seq<char>, ext: Seq<char>) -> IssueView {
    issue(
        d,
        "Query slice '"@ + file_name_or_empty(d)
            + "' is missing a projection. Projections build read models from events."@,
        "VSA007"@,
        Severity::Error,
        create_file_view(
            push_path(d, projection_file_name(d) + "."@ + ext),
            "Create "@ + projection_file_name(d) + " to build the read model"@,
        ),
    )
}

/// The error for query slice `d` without a handler.
pub open spec fn missing_handler_issue(d: Seq<char>, ext: Seq<char>) -> IssueView {
    issue(
        d,
        "Query slice '"@ + file_name_or_empty(d)
            + "' is missing a handler. Handlers execute queries against the projection."@,
        "VSA008"@,
        Severity::Error,
        create_file_view(
            push_path(d, handler_file_name(d) + "."@ + ext),
            "Create "@ + handler_file_name(d) + " to handle the query"@,
        ),
    )
}

/// VSA007's errors: one for each query slice without a projection, in
/// scan order.
pub open spec fn missing_projection_errors(ctx: ValidationContext) -> Seq<IssueView> {
    ctx_slice_dirs(ctx).map_values(
        |d: Seq<char>|
            if query_slice_lacks(ctx, d, SliceFileType::Projection) {
                seq![missing_projection_issue(d, language_extension(ctx.config.language@))]
            } else {
                Seq::empty()
            },
    ).flatten()
}

/// VSA008's errors: one for each query slice without a handler.
pub open spec fn missing_handler_errors(ctx: ValidationContext) -> Seq<IssueView> {
    ctx_slice_dirs(ctx).map_values(
        |d: Seq<char>|
            if query_slice_lacks(ctx, d, SliceFileType::Handler) {
                seq![missing_handler_issue(d, language_extension(ctx.config.language@))]
            } else {
                Seq::empty()
            },
    ).flatten()
}

/// The text of entry `i`, empty when it could not be read.
pub open spec fn entry_text(es: Seq<FsEntry>, i: int) -> Seq<char> {
    match es[i].content {
        Some(c) => c@,
        None => Seq::empty(),
    }
}

/// Whether every projection file the scan from `root` meets could be read.
pub open spec fn projections_readable(es: Seq<FsEntry>, root: Seq<char>) -> bool {
    let idx = projection_indices(es, root);
    forall|k: int| 0 <= k < idx.len() ==> (#[trigger] es[idx[k]]).content is Some
}

/// The warning for the projection at entry `i` when it subscribes to no
/// event.
pub open spec fn subscription_warnings(es: Seq<FsEntry>, i: int) -> Seq<IssueView> {
    if event_candidates(entry_text(es, i)).len() == 0 {
        seq![
            issue(
                es[i].path@,
                "Projection '"@ + projection_name(entry_text(es, i), file_name_or_empty(es[i].path@))
                    + "' has no event subscriptions. Projections should handle events to build read models."@,
                "VSA009"@,
                Severity::Warning,
                manual_view(
                    "Add event handler methods (e.g., on_WorkflowCreated, @Handles(WorkflowCreatedEvent))"@,
                ),
            ),
        ]
    } else {
        Seq::empty()
    }
}

/// VSA009's warnings, in scan order.
pub open spec fn missing_subscription_warnings(es: Seq<FsEntry>, root: Seq<char>) -> Seq<IssueView> {
    projection_indices(es, root).map_values(|i: int| subscription_warnings(es, i)).flatten()
}

// ============================================================================
// Checking
// ============================================================================

/// A sorted set of strings is empty exactly when what it holds is.
pub proof fn lemma_sorted_set_empty(r: Seq<Seq<char>>, s: Seq<Seq<char>>)
    requires
        is_sorted_set_of(r, s),
    ensures
        (r.len() == 0) == (s.len() == 0),
{
    if s.len() > 0 {
        assert(s.to_set().contains(s[0]));
        assert(r.to_set().contains(s[0]));
    }
    if r.len() > 0 {
        assert(r.to_set().contains(r[0]));
        assert(s.to_set().contains(r[0]));
    }
}

/// What a slice's files say of its types is what the tree says of them.
proof fn lemma_slice_has_type(s: Slice, es: Seq<FsEntry>, d: Seq<char>, t: SliceFileType)
    requires
        s.files@.map_values(|f: SliceFile| file_view(f)) == slice_file_views(es, d),
    ensures
        has_file_type(s.files@, t) == views_have_type(slice_file_views(es, d), t),
{
    let v = slice_file_views(es, d);
    if has_file_type(s.files@, t) {
        let i = choose|i: int| 0 <= i < s.files@.len() && (#[trigger] s.files@[i]).file_type == t;
        assert(v[i].2 == t);
    }
    if views_have_type(v, t) {
        let i = choose|i: int| 0 <= i < v.len() && (#[trigger] v[i]).2 == t;
        assert(s.files@[i].file_type == t);
    }
}

/// Appends, for each scanned slice that is a query slice without a file
/// of type `t`, the issue `missing_projection_issue` or
/// `missing_handler_issue` gives.
fn push_missing_parts(
    ctx: &ValidationContext,
    slices: &Vec<Slice>,
    t: SliceFileType,
    errors: &mut Vec<ValidationIssue>,
)
    requires
        crate::config::supported_language(ctx.config.language@),
        t == SliceFileType::Projection || t == SliceFileType::Handler,
        slices@.len() == ctx_slice_dirs(*ctx).len(),
        forall|k: int|
            0 <= k < slices@.len() ==> slice_of_dir(
                #[trigger] slices@[k],
                ctx.tree.entries@,
                ctx.tree.slice_manifests@,
                ctx_slice_dirs(*ctx)[k],
            ),
    ensures
        issues_view(final(errors)@) == issues_view(old(errors)@) + (if t == SliceFileType::Projection {
            missing_projection_errors(*ctx)
        } else {
            missing_handler_errors(*ctx)
        }),
{
    let ghost ds = ctx_slice_dirs(*ctx);
    let ghost ext = language_extension(ctx.config.language@);
    let ghost f = |d: Seq<char>|
        if query_slice_lacks(*ctx, d, t) {
            seq![
                if t == SliceFileType::Projection {
                    missing_projection_issue(d, ext)
                } else {
                    missing_handler_issue(d, ext)
                },
            ]
        } else {
            Seq::<IssueView>::empty()
        };
    let ghost e0 = issues_view(errors@);
    let ext_s = ctx.config.file_extension();
    let mut k: usize = 0;
    assert(ds.subrange(0, 0).map_values(f) =~= Seq::<Seq<IssueView>>::empty());
    assert(Seq::<Seq<IssueView>>::empty().flatten() =~= Seq::<IssueView>::empty());
    while k < slices.len()
        invariant
            k <= slices@.len(),
            t == SliceFileType::Projection || t == SliceFileType::Handler,
            ds == ctx_slice_dirs(*ctx),
            ext == language_extension(ctx.config.language@),
            ext_s@ == ext,
            slices@.len() == ds.len(),
            forall|m: int|
                0 <= m < slices@.len() ==> slice_of_dir(
                    #[trigger] slices@[m],
                    ctx.tree.entries@,
                    ctx.tree.slice_manifests@,
                    ds[m],
                ),
            f == (|d: Seq<char>|
                if query_slice_lacks(*ctx, d, t) {
                    seq![
                        if t == SliceFileType::Projection {
                            missing_projection_issue(d, ext)
                        } else {
                            missing_handler_issue(d, ext)
                        },
                    ]
                } else {
                    Seq::<IssueView>::empty()
                }),
            issues_view(errors@) == e0 + ds.subrange(0, k as int).map_values(f).flatten(),
        decreases slices.len() - k,
    {
        let s = &slices[k];
        let ghost d = ds[k as int];
        proof {
            assert(slice_of_dir(slices@[k as int], ctx.tree.entries@, ctx.tree.slice_manifests@, d));
            lemma_slice_has_type(*s, ctx.tree.entries@, d, t);
        }
        let is_query = match s.slice_type {
            SliceType::Query => true,
            _ => false,
        };
        let present = match t {
            SliceFileType::Projection => s.has_projection(),
            _ => s.has_handler(),
        };
        let ghost before = issues_view(errors@);
        if is_query && !present {
            let pascal = to_pascal_case(s.name.as_str());
            let mut file = pascal;
            let mut msg = owned("Query slice '");
            msg.append(s.name.as_str());
            let mut advice = owned("Create ");
            match t {
                SliceFileType::Projection => {
                    file.append("Projection");
                    msg.append("' is missing a projection. Projections build read models from events.");
                },
                _ => {
                    file.append("Handler");
                    msg.append("' is missing a handler. Handlers execute queries against the projection.");
                },
            }
            advice.append(file.as_str());
            match t {
                SliceFileType::Projection => advice.append(" to build the read model"),
                _ => advice.append(" to handle the query"),
            }
            file.append(".");
            file.append(ext_s);
            let target = push_path_str(s.path.as_str(), file.as_str());
            let code = match t {
                SliceFileType::Projection => "VSA007",
                _ => "VSA008",
            };
            push_issue(
                errors,
                s.path.clone(),
                msg,
                code,
                Severity::Error,
                Suggestion::create_file(target, advice.as_str()),
            );
            proof {
                assert(f(d) == seq![
                    if t == SliceFileType::Projection {
                        missing_projection_issue(d, ext)
                    } else {
                        missing_handler_issue(d, ext)
                    },
                ]);
            }
        } else {
            assert(f(d) =~= Seq::<IssueView>::empty());
        }
        proof {
            assert(ds.subrange(0, k + 1).map_values(f) =~= ds.subrange(0, k as int).map_values(f).push(
                f(d),
            ));
            ds.subrange(0, k as int).map_values(f).lemma_flatten_push(f(d));
            assert(issues_view(errors@) =~= e0 + ds.subrange(0, k + 1).map_values(f).flatten());
        }
        k = k + 1;
    }
    proof {
        assert(ds.subrange(0, slices@.len() as int) =~= ds);
        if t == SliceFileType::Projection {
            assert(ds.map_values(f) =~= ds.map_values(
                |d: Seq<char>|
                    if query_slice_lacks(*ctx, d, SliceFileType::Projection) {
                        seq![missing_projection_issue(d, language_extension(ctx.config.language@))]
                    } else {
                        Seq::empty()
                    },
            ));
        } else {
            assert(ds.map_values(f) =~= ds.map_values(
                |d: Seq<char>|
                    if query_slice_lacks(*ctx, d, SliceFileType::Handler) {
                        seq![missing_handler_issue(d, language_extension(ctx.config.language@))]
                    } else {
                        Seq::empty()
                    },
            ));
        }
    }
}


impl ValidationRule for RequireProjectionForQueryRule {
    open spec fn validate_outcome(
        &self,
        ctx: ValidationContext,
        before: EnhancedValidationReport,
        r: Result<(), VsaError>,
        after: EnhancedValidationReport,
    ) -> bool {
        &&& (!query_needs_projection(ctx.config) ==> r is Ok && after == before)
        &&& (query_needs_projection(ctx.config) && !slices_readable(ctx) ==> r is Err
                && after == before)
        &&& (query_needs_projection(ctx.config) && slices_readable(ctx) ==> (r is Ok <==> crate::config::supported_language(ctx.config.language@)))
        &&& (query_needs_projection(ctx.config) && slices_readable(ctx) ==> (r matches Err(e) ==> crate::config::is_unsupported_language(e, ctx.config.language@)
                && after == before))
        &&& (query_needs_projection(ctx.config) && slices_readable(ctx) && r is Ok ==> report_grew(
                before,
                after,
                missing_projection_errors(ctx),
                Seq::empty(),
            ))
    }

    fn name(&self) -> (r: &str)
        ensures
            r@ == "require-projection-for-query"@,
    {
        "require-projection-for-query"
    }

    fn code(&self) -> (r: &str)
        ensures
            r@ == "VSA007"@,
    {
        "VSA007"
    }

    fn validate(&self, ctx: &ValidationContext, report: &mut EnhancedValidationReport) -> (r:
        Result<(), VsaError>)
        ensures
            !query_needs_projection(ctx.config) ==> r is Ok && *final(report) == *old(report),
            query_needs_projection(ctx.config) && !slices_readable(*ctx) ==> r is Err
                && *final(report) == *old(report),
            query_needs_projection(ctx.config) && slices_readable(*ctx) ==> (r is Ok <==> crate::config::supported_language(ctx.config.language@)),
            query_needs_projection(ctx.config) && slices_readable(*ctx) ==> (r matches Err(e) ==> crate::config::is_unsupported_language(e, ctx.config.language@)
                && *final(report) == *old(report)),
            query_needs_projection(ctx.config) && slices_readable(*ctx) && r is Ok ==> report_grew(
                *old(report),
                *final(report),
                missing_projection_errors(*ctx),
                Seq::empty(),
            ),
    {
        let required = match &ctx.config.slices {
            Some(s) => match &s.query {
                Some(q) => q.require_projection,
                None => true,
            },
            None => true,
        };
        if !required {
            proof {
                crate::validation::lemma_extends_refl(*report);
            }
            return Ok(());
        }
        let scanner = SliceScanner::new(ctx.config.slices.as_ref(), ctx.root.as_str());
        let slices = match scanner.scan(&ctx.tree) {
            Ok(v) => v,
            Err(e) => {
                proof {
                    crate::validation::lemma_extends_refl(*report);
                }
                return Err(e);
            },
        };
        proof {
            let ds = ctx_slice_dirs(*ctx);
            assert forall|k: int| 0 <= k < ds.len() implies (#[trigger] manifest_of(
                ctx.tree.entries@,
                ctx.tree.slice_manifests@,
                ds[k],
            )) is Ok by {
                assert(slice_of_dir(slices@[k], ctx.tree.entries@, ctx.tree.slice_manifests@, ds[k]));
            }
        }
        match ctx.config.check_language() {
            Ok(()) => {},
            Err(e) => {
                proof {
                    crate::validation::lemma_extends_refl(*report);
                }
                return Err(e);
            },
        }
        push_missing_parts(ctx, &slices, SliceFileType::Projection, &mut report.errors);
        proof {
            assert(issues_view(report.warnings@) =~= issues_view(old(report).warnings@) + Seq::<IssueView>::empty());
            lemma_grew_extends(*old(report), *report, missing_projection_errors(*ctx), Seq::empty());
        }
        Ok(())
    }
}

impl ValidationRule for RequireHandlerForQueryRule {
    open spec fn validate_outcome(
        &self,
        ctx: ValidationContext,
        before: EnhancedValidationReport,
        r: Result<(), VsaError>,
        after: EnhancedValidationReport,
    ) -> bool {
        &&& (!slices_readable(ctx) ==> r is Err && after == before)
        &&& (slices_readable(ctx) ==> (r is Ok <==> crate::config::supported_language(ctx.config.language@)))
        &&& (slices_readable(ctx) ==> (r matches Err(e) ==> crate::config::is_unsupported_language(e, ctx.config.language@)
                && after == before))
        &&& (slices_readable(ctx) && r is Ok ==> report_grew(
                before,
                after,
                missing_handler_errors(ctx),
                Seq::empty(),
            ))
    }

    fn name(&self) -> (r: &str)
        ensures
            r@ == "require-handler-for-query"@,
    {
        "require-handler-for-query"
    }

    fn code(&self) -> (r: &str)
        ensures
            r@ == "VSA008"@,
    {
        "VSA008"
    }

    fn validate(&self, ctx: &ValidationContext, report: &mut EnhancedValidationReport) -> (r:
        Result<(), VsaError>)
        ensures
            !slices_readable(*ctx) ==> r is Err && *final(report) == *old(report),
            slices_readable(*ctx) ==> (r is Ok <==> crate::config::supported_language(ctx.config.language@)),
            slices_readable(*ctx) ==> (r matches Err(e) ==> crate::config::is_unsupported_language(e, ctx.config.language@)
                && *final(report) == *old(report)),
            slices_readable(*ctx) && r is Ok ==> report_grew(
                *old(report),
                *final(report),
                missing_handler_errors(*ctx),
                Seq::empty(),
            ),
    {
        let scanner = SliceScanner::new(ctx.config.slices.as_ref(), ctx.root.as_str());
        let slices = match scanner.scan(&ctx.tree) {
            Ok(v) => v,
            Err(e) => {
                proof {
                    crate::validation::lemma_extends_refl(*report);
                }
                return Err(e);
            },
        };
        proof {
            let ds = ctx_slice_dirs(*ctx);
            assert forall|k: int| 0 <= k < ds.len() implies (#[trigger] manifest_of(
                ctx.tree.entries@,
                ctx.tree.slice_manifests@,
                ds[k],
            )) is Ok by {
                assert(slice_of_dir(slices@[k], ctx.tree.entries@, ctx.tree.slice_manifests@, ds[k]));
            }
        }
        match ctx.config.check_language() {
            Ok(()) => {},
            Err(e) => {
                proof {
                    crate::validation::lemma_extends_refl(*report);
                }
                return Err(e);
            },
        }
        push_missing_parts(ctx, &slices, SliceFileType::Handler, &mut report.errors);
        proof {
            assert(issues_view(report.warnings@) =~= issues_view(old(report).warnings@) + Seq::<IssueView>::empty());
            lemma_grew_extends(*old(report), *report, missing_handler_errors(*ctx), Seq::empty());
        }
        Ok(())
    }
}

impl ValidationRule for ProjectionEventSubscriptionRule {
    open spec fn validate_outcome(
        &self,
        ctx: ValidationContext,
        before: EnhancedValidationReport,
        r: Result<(), VsaError>,
        after: EnhancedValidationReport,
    ) -> bool {
        &&& (!projections_readable(ctx.tree.entries@, ctx.root@) ==> r is Err && after
                == before)
        &&& (projections_readable(ctx.tree.entries@, ctx.root@) ==> r is Ok && report_grew(
                before,
                after,
                Seq::empty(),
                missing_subscription_warnings(ctx.tree.entries@, ctx.root@),
            ))
    }

    fn name(&self) -> (r: &str)
        ensures
            r@ == "projection-event-subscription"@,
    {
        "projection-event-subscription"
    }

    fn code(&self) -> (r: &str)
        ensures
            r@ == "VSA009"@,
    {
        "VSA009"
    }

    fn validate(&self, ctx: &ValidationContext, report: &mut EnhancedValidationReport) -> (r:
        Result<(), VsaError>)
        ensures
            !projections_readable(ctx.tree.entries@, ctx.root@) ==> r is Err && *final(report)
                == *old(report),
            projections_readable(ctx.tree.entries@, ctx.root@) ==> r is Ok && report_grew(
                *old(report),
                *final(report),
                Seq::empty(),
                missing_subscription_warnings(ctx.tree.entries@, ctx.root@),
            ),
    {
        let ghost es = ctx.tree.entries@;
        let ghost root = ctx.root@;
        let query_config = match &ctx.config.slices {
            Some(s) => s.query.as_ref(),
            None => None,
        };
        let scanner = ProjectionScanner::new(query_config, ctx.root.as_str());
        let projections = match scanner.scan(&ctx.tree) {
            Ok(v) => v,
            Err(e) => {
                proof {
                    crate::validation::lemma_extends_refl(*report);
                    let idx = projection_indices(es, root);
                    let k = choose|k: int| 0 <= k < idx.len() && (#[trigger] es[idx[k]]).content is None;
                }
                return Err(e);
            },
        };
        let ghost idx = projection_indices(es, root);
        proof {
            assert forall|k: int| 0 <= k < idx.len() implies (#[trigger] es[idx[k]]).content is Some by {
                assert(projection_at(projections@[k], es[idx[k]]));
            }
        }
        let ghost g = |i: int| subscription_warnings(es, i);
        let ghost w0 = issues_view(report.warnings@);
        let mut k: usize = 0;
        assert(idx.subrange(0, 0).map_values(g) =~= Seq::<Seq<IssueView>>::empty());
        assert(Seq::<Seq<IssueView>>::empty().flatten() =~= Seq::<IssueView>::empty());
        while k < projections.len()
            invariant
                k <= projections@.len(),
                es == ctx.tree.entries@,
                root == ctx.root@,
                idx == projection_indices(es, root),
                projections@.len() == idx.len(),
                forall|m: int| 0 <= m < idx.len() ==> projection_at(#[trigger] projections@[m], es[idx[m]]),
                g == (|i: int| subscription_warnings(es, i)),
                w0 == issues_view(old(report).warnings@),
                issues_view(report.warnings@) == w0 + idx.subrange(0, k as int).map_values(g).flatten(),
                report.errors@ == old(report).errors@,
                report.suggestions@ == old(report).suggestions@,
            decreases projections.len() - k,
        {
            let pr = &projections[k];
            let ghost i = idx[k as int];
            proof {
                assert(projection_at(projections@[k as int], es[i]));
                lemma_sorted_set_empty(strs(pr.subscribed_events@), event_candidates(entry_text(es, i)));
            }
            let ghost before = issues_view(report.warnings@);
            if !pr.has_subscriptions() {
                let mut msg = owned("Projection '");
                msg.append(pr.name.as_str());
                msg.append("' has no event subscriptions. Projections should handle events to build read models.");
                push_issue(
                    &mut report.warnings,
                    pr.file_path.clone(),
                    msg,
                    "VSA009",
                    Severity::Warning,
                    Suggestion::manual(
                        "Add event handler methods (e.g., on_WorkflowCreated, @Handles(WorkflowCreatedEvent))",
                    ),
                );
            } else {
                assert(g(i) =~= Seq::<IssueView>::empty());
            }
            proof {
                assert(idx.subrange(0, k + 1).map_values(g) =~= idx.subrange(0, k as int).map_values(g).push(
                    g(i),
                ));
                idx.subrange(0, k as int).map_values(g).lemma_flatten_push(g(i));
                assert(issues_view(report.warnings@) =~= w0 + idx.subrange(0, k + 1).map_values(g).flatten());
            }
            k = k + 1;
        }
        proof {
            assert(idx.subrange(0, idx.len() as int) =~= idx);
            assert(issues_view(report.errors@) =~= issues_view(old(report).errors@) + Seq::<IssueView>::empty());
            lemma_grew_extends(*old(report), *report, Seq::empty(), missing_subscription_warnings(es, root));
        }
        Ok(())
    }
}

} // verus!
