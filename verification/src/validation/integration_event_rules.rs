//! Integration event rules: no event published by several contexts
//! (VSA100), events in a `_shared` folder (VSA101), names ending in
//! `IntegrationEvent` (VSA102).

use vstd::prelude::*;

use crate::assoc::strs;
use crate::config::{language_extension, supported_language};
use crate::debug_fmt::{debug_string_list, debug_strings};
use crate::error::VsaError;
use crate::integration_events::{
    EventView, IntegrationEventRegistry, duplicated_names, events_view, publishers_of,
    scanned_events,
};
use crate::path::{components_of, components_str, path_parent, path_parent_str, push_path, push_path_str};
use crate::text::{ends_with, str_ends_with};
use super::suggestions::{Suggestion, manual_view, rename_file_view};
use super::{
    EnhancedValidationReport, IssueView, Severity, ValidationContext, ValidationRule, concat_map,
    issue, issues_view, lemma_concat_map_empty, lemma_concat_map_step, lemma_grew_extends,
    push_issue, report_grew,
};

verus! {

/// Rule: no duplicate integration events across contexts.
pub struct NoDuplicateIntegrationEventsRule;

/// Rule: integration events should be in a `_shared` folder.
pub struct IntegrationEventsLocationRule;

/// Rule: integration event names should end with `IntegrationEvent`.
pub struct IntegrationEventNamingRule;

/// The events a validation scans.
pub open spec fn ctx_events(ctx: ValidationContext) -> Seq<EventView> {
    scanned_events(ctx.tree.entries@, ctx.root@, ctx.config.patterns)
}

/// The error for event `n`, published by `pubs`.
pub open spec fn duplicate_issue(root: Seq<char>, n: Seq<char>, pubs: Seq<Seq<char>>) -> IssueView {
    issue(
        root,
        "Integration event '"@ + n + "' is defined in multiple contexts: "@ + debug_strings(pubs),
        "VSA100"@,
        Severity::Error,
        manual_view("Move '"@ + n + "' to _shared/integration-events/ and import from there"@),
    )
}

/// The errors of VSA100.
pub open spec fn duplicate_errors(root: Seq<char>, evs: Seq<EventView>) -> Seq<IssueView> {
    duplicated_names(evs).map_values(|n: Seq<char>| duplicate_issue(root, n, publishers_of(evs, n)))
}

/// The warning for an event outside every `_shared` folder.
pub open spec fn location_warnings(e: EventView) -> Seq<IssueView> {
    if components_of(e.1).contains("_shared"@) {
        Seq::empty()
    } else {
        seq![
            issue(
                e.1,
                "Integration event '"@ + e.0 + "' should be in _shared/integration-events/"@,
                "VSA101"@,
                Severity::Warning,
                manual_view("Move integration events to context _shared/integration-events/ directory"@),
            ),
        ]
    }
}

/// `s` without every `Event` at its end (`trim_end_matches("Event")`).
pub open spec fn trim_event_suffix(s: Seq<char>) -> Seq<char>
    decreases s.len(),
{
    if ends_with(s, "Event"@) && "Event"@.len() > 0 {
        trim_event_suffix(s.subrange(0, s.len() - "Event"@.len()))
    } else {
        s
    }
}

/// The warning for an event whose name lacks the `IntegrationEvent` suffix.
pub open spec fn naming_warnings(e: EventView, ext: Seq<char>) -> Seq<IssueView> {
    if ends_with(e.0, "IntegrationEvent"@) {
        Seq::empty()
    } else {
        let base = trim_event_suffix(e.0);
        let new_name = base + "IntegrationEvent."@ + ext;
        let target = match path_parent(e.1) {
            Some(d) => push_path(d, new_name),
            None => new_name,
        };
        seq![
            issue(
                e.1,
                "Integration event '"@ + e.0 + "' should end with 'IntegrationEvent' suffix"@,
                "VSA102"@,
                Severity::Warning,
                rename_file_view(e.1, target, "Rename to "@ + base + "IntegrationEvent"@),
            ),
        ]
    }
}

fn trim_event_suffix_exec(s: &str) -> (r: String)
    ensures
        r@ == trim_event_suffix(s@),
{
    let mut cs = crate::text::chars_of(s);
    let ev = crate::text::chars_of("Event");
    while ev.len() > 0 && crate::text::ends_with_chars(cs.as_slice(), ev.as_slice())
        invariant
            ev@ == "Event"@,
            trim_event_suffix(cs@) == trim_event_suffix(s@),
        decreases cs.len(),
    {
        cs = crate::text::slice_chars(cs.as_slice(), 0, cs.len() - ev.len());
    }
    crate::text::string_of(cs.as_slice())
}

impl ValidationRule for NoDuplicateIntegrationEventsRule {
    open spec fn validate_outcome(
        &self,
        ctx: ValidationContext,
        before: EnhancedValidationReport,
        r: Result<(), VsaError>,
        after: EnhancedValidationReport,
    ) -> bool {
        crate::validation::rules::builtin_result(crate::validation::rules::BuiltinRule::NoDuplicateIntegrationEvents, ctx, before, r, after)
    }

    fn name(&self) -> (r: &str)
        ensures
            r@ == "no-duplicate-integration-events"@,
    {
        "no-duplicate-integration-events"
    }

    fn code(&self) -> (r: &str)
        ensures
            r@ == "VSA100"@,
    {
        "VSA100"
    }

    fn validate(&self, ctx: &ValidationContext, report: &mut EnhancedValidationReport) -> (r:
        Result<(), VsaError>)
        ensures
            r is Ok <==> crate::config::supported_language(ctx.config.language@),
            r matches Err(e) ==> crate::config::is_unsupported_language(e, ctx.config.language@)
                && *final(report) == *old(report),
            r is Ok ==> report_grew(
                *old(report),
                *final(report),
                duplicate_errors(ctx.root@, ctx_events(*ctx)),
                Seq::empty(),
            ),
    {
        match ctx.config.check_language() {
            Ok(()) => {},
            Err(e) => {
                proof {
                    crate::validation::lemma_extends_refl(*report);
                }
                return Err(e);
            },
        }
        let registry = IntegrationEventRegistry::scan(&ctx.config, ctx.root.as_str(), &ctx.tree);
        let dups = registry.find_duplicates();
        let ghost evs = ctx_events(*ctx);
        let ghost names = dups@.map_values(|p: (String, Vec<String>)| p.0@);
        let ghost e0 = issues_view(report.errors@);
        let mut k: usize = 0;
        while k < dups.len()
            invariant
                k <= dups@.len(),
                evs == ctx_events(*ctx),
                names == dups@.map_values(|p: (String, Vec<String>)| p.0@),
                names == duplicated_names(evs),
                forall|m: int|
                    0 <= m < dups@.len() ==> strs((#[trigger] dups@[m]).1@) == publishers_of(
                        evs,
                        dups@[m].0@,
                    ),
                e0 == issues_view(old(report).errors@),
                issues_view(report.errors@) == e0 + names.subrange(0, k as int).map_values(
                    |n: Seq<char>| duplicate_issue(ctx.root@, n, publishers_of(evs, n)),
                ),
                report.warnings@ == old(report).warnings@,
                report.suggestions@ == old(report).suggestions@,
            decreases dups.len() - k,
        {
            let (name, pubs) = (&dups[k].0, &dups[k].1);
            let mut msg = String::new();
            msg.append("Integration event '");
            msg.append(name.as_str());
            msg.append("' is defined in multiple contexts: ");
            let dbg = debug_string_list(pubs);
            msg.append(dbg.as_str());
            let mut smsg = String::new();
            smsg.append("Move '");
            smsg.append(name.as_str());
            smsg.append("' to _shared/integration-events/ and import from there");
            let sug = Suggestion::manual(smsg.as_str());
            let ghost before = issues_view(report.errors@);
            push_issue(&mut report.errors, ctx.root.clone(), msg, "VSA100", Severity::Error, sug);
            assert(names[k as int] == name@);
            assert(names.subrange(0, k + 1) =~= names.subrange(0, k as int).push(name@));
            assert(issues_view(report.errors@) =~= e0 + names.subrange(0, k + 1).map_values(
                |n: Seq<char>| duplicate_issue(ctx.root@, n, publishers_of(evs, n)),
            ));
            k = k + 1;
        }
        proof {
            assert(names.subrange(0, names.len() as int) =~= names);
            assert(issues_view(report.warnings@) =~= issues_view(old(report).warnings@) + Seq::<IssueView>::empty());
            lemma_grew_extends(*old(report), *report, duplicate_errors(ctx.root@, evs), Seq::empty());
        }
        Ok(())
    }
}

fn has_shared_component(p: &str) -> (r: bool)
    ensures
        r == components_of(p@).contains("_shared"@),
{
    let comps = components_str(p);
    let ghost cv = comps@.map_values(|s: String| s@);
    let mut i: usize = 0;
    while i < comps.len()
        invariant
            i <= comps@.len(),
            cv == comps@.map_values(|s: String| s@),
            cv == components_of(p@),
            forall|k: int| 0 <= k < i ==> cv[k] != "_shared"@,
        decreases comps.len() - i,
    {
        if crate::text::str_eq(comps[i].as_str(), "_shared") {
            assert(cv[i as int] == "_shared"@);
            return true;
        }
        i = i + 1;
    }
    proof {
        if cv.contains("_shared"@) {
            let k = choose|k: int| 0 <= k < cv.len() && cv[k] == "_shared"@;
            assert(cv[k] != "_shared"@);
        }
    }
    false
}

impl ValidationRule for IntegrationEventsLocationRule {
    open spec fn validate_outcome(
        &self,
        ctx: ValidationContext,
        before: EnhancedValidationReport,
        r: Result<(), VsaError>,
        after: EnhancedValidationReport,
    ) -> bool {
        crate::validation::rules::builtin_result(crate::validation::rules::BuiltinRule::IntegrationEventsLocation, ctx, before, r, after)
    }

    fn name(&self) -> (r: &str)
        ensures
            r@ == "integration-events-location"@,
    {
        "integration-events-location"
    }

    fn code(&self) -> (r: &str)
        ensures
            r@ == "VSA101"@,
    {
        "VSA101"
    }

    fn validate(&self, ctx: &ValidationContext, report: &mut EnhancedValidationReport) -> (r:
        Result<(), VsaError>)
        ensures
            r is Ok <==> crate::config::supported_language(ctx.config.language@),
            r matches Err(e) ==> crate::config::is_unsupported_language(e, ctx.config.language@)
                && *final(report) == *old(report),
            r is Ok ==> report_grew(
                *old(report),
                *final(report),
                Seq::empty(),
                concat_map(
                    ctx_events(*ctx).len() as int,
                    |k: int| location_warnings(ctx_events(*ctx)[k]),
                ),
            ),
    {
        match ctx.config.check_language() {
            Ok(()) => {},
            Err(e) => {
                proof {
                    crate::validation::lemma_extends_refl(*report);
                }
                return Err(e);
            },
        }
        let registry = IntegrationEventRegistry::scan(&ctx.config, ctx.root.as_str(), &ctx.tree);
        let events = registry.all_events();
        let ghost evs = ctx_events(*ctx);
        let ghost f = |k: int| location_warnings(evs[k]);
        let ghost w0 = issues_view(report.warnings@);
        let mut k: usize = 0;
        proof {
            lemma_concat_map_empty(f);
        }
        while k < events.len()
            invariant
                k <= events@.len(),
                evs == ctx_events(*ctx),
                events@.len() == evs.len(),
                forall|m: int| 0 <= m < events@.len() ==> crate::integration_events::event_view(*(#[trigger] events@[m])) == evs[m],
                f == (|k: int| location_warnings(evs[k])),
                w0 == issues_view(old(report).warnings@),
                issues_view(report.warnings@) == w0 + concat_map(k as int, f),
                report.errors@ == old(report).errors@,
                report.suggestions@ == old(report).suggestions@,
            decreases events.len() - k,
        {
            let e = events[k];
            let ghost before = issues_view(report.warnings@);
            assert(crate::integration_events::event_view(*e) == evs[k as int]);
            if !has_shared_component(e.path.as_str()) {
                let mut msg = String::new();
                msg.append("Integration event '");
                msg.append(e.name.as_str());
                msg.append("' should be in _shared/integration-events/");
                let sug = Suggestion::manual(
                    "Move integration events to context _shared/integration-events/ directory",
                );
                push_issue(&mut report.warnings, e.path.clone(), msg, "VSA101", Severity::Warning, sug);
            }
            proof {
                lemma_concat_map_step(k as int, f);
                assert(issues_view(report.warnings@) =~= before + f(k as int));
            }
            k = k + 1;
        }
        proof {
            assert(issues_view(report.errors@) =~= issues_view(old(report).errors@) + Seq::<IssueView>::empty());
            lemma_grew_extends(*old(report), *report, Seq::empty(), concat_map(evs.len() as int, f));
        }
        Ok(())
    }
}

impl ValidationRule for IntegrationEventNamingRule {
    open spec fn validate_outcome(
        &self,
        ctx: ValidationContext,
        before: EnhancedValidationReport,
        r: Result<(), VsaError>,
        after: EnhancedValidationReport,
    ) -> bool {
        crate::validation::rules::builtin_result(crate::validation::rules::BuiltinRule::IntegrationEventNaming, ctx, before, r, after)
    }

    fn name(&self) -> (r: &str)
        ensures
            r@ == "integration-event-naming"@,
    {
        "integration-event-naming"
    }

    fn code(&self) -> (r: &str)
        ensures
            r@ == "VSA102"@,
    {
        "VSA102"
    }

    fn validate(&self, ctx: &ValidationContext, report: &mut EnhancedValidationReport) -> (r:
        Result<(), VsaError>)
        ensures
            r is Ok <==> crate::config::supported_language(ctx.config.language@),
            r matches Err(e) ==> crate::config::is_unsupported_language(e, ctx.config.language@)
                && *final(report) == *old(report),
            r is Ok ==> report_grew(
                *old(report),
                *final(report),
                Seq::empty(),
                concat_map(
                    ctx_events(*ctx).len() as int,
                    |k: int| naming_warnings(ctx_events(*ctx)[k], language_extension(ctx.config.language@)),
                ),
            ),
    {
        match ctx.config.check_language() {
            Ok(()) => {},
            Err(e) => {
                proof {
                    crate::validation::lemma_extends_refl(*report);
                }
                return Err(e);
            },
        }
        let registry = IntegrationEventRegistry::scan(&ctx.config, ctx.root.as_str(), &ctx.tree);
        let events = registry.all_events();
        let ext = ctx.config.file_extension();
        let ghost evs = ctx_events(*ctx);
        let ghost f = |k: int| naming_warnings(evs[k], language_extension(ctx.config.language@));
        let ghost w0 = issues_view(report.warnings@);
        let mut k: usize = 0;
        proof {
            lemma_concat_map_empty(f);
        }
        while k < events.len()
            invariant
                k <= events@.len(),
                evs == ctx_events(*ctx),
                ext@ == language_extension(ctx.config.language@),
                events@.len() == evs.len(),
                forall|m: int| 0 <= m < events@.len() ==> crate::integration_events::event_view(*(#[trigger] events@[m])) == evs[m],
                f == (|k: int| naming_warnings(evs[k], language_extension(ctx.config.language@))),
                w0 == issues_view(old(report).warnings@),
                issues_view(report.warnings@) == w0 + concat_map(k as int, f),
                report.errors@ == old(report).errors@,
                report.suggestions@ == old(report).suggestions@,
            decreases events.len() - k,
        {
            let e = events[k];
            let ghost before = issues_view(report.warnings@);
            assert(crate::integration_events::event_view(*e) == evs[k as int]);
            if !str_ends_with(e.name.as_str(), "IntegrationEvent") {
                let base = trim_event_suffix_exec(e.name.as_str());
                let mut new_name = String::new();
                new_name.append(base.as_str());
                new_name.append("IntegrationEvent.");
                new_name.append(ext);
                let target = match path_parent_str(e.path.as_str()) {
                    Some(d) => push_path_str(d.as_str(), new_name.as_str()),
                    None => new_name,
                };
                let mut msg = String::new();
                msg.append("Integration event '");
                msg.append(e.name.as_str());
                msg.append("' should end with 'IntegrationEvent' suffix");
                let mut smsg = String::new();
                smsg.append("Rename to ");
                smsg.append(base.as_str());
                smsg.append("IntegrationEvent");
                let sug = Suggestion::rename_file(e.path.clone(), target, smsg.as_str());
                push_issue(&mut report.warnings, e.path.clone(), msg, "VSA102", Severity::Warning, sug);
            }
            proof {
                lemma_concat_map_step(k as int, f);
                assert(issues_view(report.warnings@) =~= before + f(k as int));
            }
            k = k + 1;
        }
        proof {
            assert(issues_view(report.errors@) =~= issues_view(old(report).errors@) + Seq::<IssueView>::empty());
            lemma_grew_extends(*old(report), *report, Seq::empty(), concat_map(evs.len() as int, f));
        }
        Ok(())
    }
}

} // verus!
