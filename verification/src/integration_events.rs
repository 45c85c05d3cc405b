//! Integration events: the events a bounded context publishes for others,
//! and the detection of one event published by several contexts.

use vstd::prelude::*;

use crate::assoc::strs;
use crate::config::{PatternsConfig, VsaConfig, supported_language};
use crate::manifest::push_new;
use crate::path::{file_stem_of, file_stem_str, push_path, push_path_str};
use crate::patterns::{PatternMatcher, matches_glob};
use crate::scanner::{context_indices, contexts_in, entry_name, feature_file_paths, file_paths_of, files_in};
use crate::tree::{FsEntry, ProjectTree, path_exists};

verus! {

/// Integration event information.
#[derive(Debug, Clone)]
pub struct IntegrationEvent {
    pub name: String,
    pub path: String,
    pub publisher: String,
}

/// Integration event registry: the events registered so far, in the order
/// of registration.
#[derive(Debug)]
pub struct IntegrationEventRegistry {
    events: Vec<IntegrationEvent>,
}

/// An event as plain values: name, path, publisher.
pub type EventView = (Seq<char>, Seq<char>, Seq<char>);

/// The names of events.
pub open spec fn event_names(evs: Seq<EventView>) -> Seq<Seq<char>> {
    evs.map_values(|e: EventView| e.0)
}

/// The publishers of the events named `n`, in registration order.
pub open spec fn publishers_of(evs: Seq<EventView>, n: Seq<char>) -> Seq<Seq<char>>
    decreases evs.len(),
{
    if evs.len() == 0 {
        Seq::empty()
    } else {
        let prev = publishers_of(evs.drop_last(), n);
        if evs.last().0 == n {
            prev.push(evs.last().2)
        } else {
            prev
        }
    }
}

/// The names registered more than once, in order of first registration.
pub open spec fn duplicated_names(evs: Seq<EventView>) -> Seq<Seq<char>> {
    push_new(Seq::empty(), event_names(evs)).filter(|n: Seq<char>| publishers_of(evs, n).len() > 1)
}

/// The positions of the events published by `ctx`, in order.
pub open spec fn published_by(evs: Seq<IntegrationEvent>, ctx: Seq<char>) -> Seq<int> {
    crate::tree::indices_where(evs.len() as int, |i: int| evs[i].publisher@ == ctx)
}

impl IntegrationEventRegistry {
    /// The registered events, in registration order.
    pub closed spec fn spec_events(&self) -> Seq<IntegrationEvent> {
        self.events@
    }

    /// Create a new empty registry.
    pub fn new() -> (r: Self)
        ensures
            r.spec_events().len() == 0,
    {
        IntegrationEventRegistry { events: Vec::new() }
    }

    /// Register an integration event.
    pub fn register(&mut self, event: IntegrationEvent)
        ensures
            final(self).spec_events() == old(self).spec_events().push(event),
    {
        self.events.push(event);
    }

    /// Check if an event exists.
    pub fn has_event(&self, event_name: &str) -> (r: bool)
        ensures
            r == event_names(events_view(self.spec_events())).contains(event_name@),
    {
        let ghost names = event_names(events_view(self.events@));
        let mut i: usize = 0;
        while i < self.events.len()
            invariant
                i <= self.events@.len(),
                names == event_names(events_view(self.events@)),
                forall|k: int| 0 <= k < i ==> names[k] != event_name@,
            decreases self.events.len() - i,
        {
            if crate::text::str_eq(self.events[i].name.as_str(), event_name) {
                assert(names[i as int] == event_name@);
                return true;
            }
            i = i + 1;
        }
        proof {
            if names.contains(event_name@) {
                let k = choose|k: int| 0 <= k < names.len() && names[k] == event_name@;
                assert(names[k] != event_name@);
            }
        }
        false
    }

    /// Get all registered events, in registration order.
    pub fn all_events(&self) -> (r: Vec<&IntegrationEvent>)
        ensures
            r@.len() == self.spec_events().len(),
            forall|k: int| 0 <= k < r@.len() ==> *(#[trigger] r@[k]) == self.spec_events()[k],
    {
        let mut out: Vec<&IntegrationEvent> = Vec::new();
        let mut i: usize = 0;
        while i < self.events.len()
            invariant
                i <= self.events@.len(),
                out@.len() == i,
                forall|k: int| 0 <= k < i ==> *(#[trigger] out@[k]) == self.events@[k],
            decreases self.events.len() - i,
        {
            out.push(&self.events[i]);
            i = i + 1;
        }
        out
    }

    /// Get all events published by a context, in registration order.
    pub fn get_published_by(&self, context: &str) -> (r: Vec<&IntegrationEvent>)
        ensures
            r@.len() == published_by(self.spec_events(), context@).len(),
            forall|k: int|
                0 <= k < r@.len() ==> *(#[trigger] r@[k]) == self.spec_events()[published_by(
                    self.spec_events(),
                    context@,
                )[k]],
    {
        let ghost evs = self.events@;
        let ghost pred = |i: int| evs[i].publisher@ == context@;
        let mut out: Vec<&IntegrationEvent> = Vec::new();
        let mut i: usize = 0;
        while i < self.events.len()
            invariant
                i <= evs.len(),
                evs == self.events@,
                pred == (|i: int| evs[i].publisher@ == context@),
                out@.len() == crate::tree::indices_where(i as int, pred).len(),
                forall|k: int|
                    0 <= k < out@.len() ==> *(#[trigger] out@[k]) == evs[crate::tree::indices_where(
                        i as int,
                        pred,
                    )[k]],
            decreases self.events.len() - i,
        {
            if crate::text::str_eq(self.events[i].publisher.as_str(), context) {
                out.push(&self.events[i]);
            }
            i = i + 1;
        }
        out
    }

    /// The publishers of the events named `name`.
    fn publishers(&self, name: &String) -> (r: Vec<String>)
        ensures
            strs(r@) == publishers_of(events_view(self.spec_events()), name@),
    {
        let ghost evs = events_view(self.events@);
        let mut out: Vec<String> = Vec::new();
        let mut i: usize = 0;
        while i < self.events.len()
            invariant
                i <= evs.len(),
                evs == events_view(self.events@),
                strs(out@) == publishers_of(evs.subrange(0, i as int), name@),
            decreases self.events.len() - i,
        {
            assert(evs.subrange(0, i + 1).drop_last() =~= evs.subrange(0, i as int));
            if self.events[i].name == *name {
                out.push(self.events[i].publisher.clone());
                assert(strs(out@) =~= publishers_of(evs.subrange(0, i as int), name@).push(
                    evs[i as int].2,
                ));
            }
            i = i + 1;
        }
        assert(evs.subrange(0, evs.len() as int) =~= evs);
        out
    }

    /// Find the events registered by more than one publisher: each such
    /// name, in order of first registration, with its publishers in
    /// registration order.
    pub fn find_duplicates(&self) -> (r: Vec<(String, Vec<String>)>)
        ensures
            r@.map_values(|p: (String, Vec<String>)| p.0@) == duplicated_names(
                events_view(self.spec_events()),
            ),
            forall|k: int|
                0 <= k < r@.len() ==> strs((#[trigger] r@[k]).1@) == publishers_of(
                    events_view(self.spec_events()),
                    r@[k].0@,
                ),
    {
        let ghost evs = events_view(self.events@);
        let ghost names = event_names(evs);
        let mut distinct: Vec<String> = Vec::new();
        let mut i: usize = 0;
        while i < self.events.len()
            invariant
                i <= evs.len(),
                evs == events_view(self.events@),
                names == event_names(evs),
                strs(distinct@) == push_new(Seq::empty(), names.subrange(0, i as int)),
            decreases self.events.len() - i,
        {
            assert(names.subrange(0, i + 1).drop_last() =~= names.subrange(0, i as int));
            let nm = &self.events[i].name;
            let seen = crate::manifest::contains_string(&distinct, nm);
            if !seen {
                distinct.push(nm.clone());
                assert(strs(distinct@) =~= push_new(Seq::empty(), names.subrange(0, i as int)).push(
                    nm@,
                ));
            }
            i = i + 1;
        }
        assert(names.subrange(0, names.len() as int) =~= names);
        let ghost all = strs(distinct@);
        let ghost dpred = |n: Seq<char>| publishers_of(evs, n).len() > 1;
        let mut out: Vec<(String, Vec<String>)> = Vec::new();
        let mut k: usize = 0;
        while k < distinct.len()
            invariant
                k <= distinct@.len(),
                evs == events_view(self.events@),
                all == strs(distinct@),
                dpred == (|n: Seq<char>| publishers_of(evs, n).len() > 1),
                out@.map_values(|p: (String, Vec<String>)| p.0@) == all.subrange(0, k as int).filter(
                    dpred,
                ),
                forall|m: int|
                    0 <= m < out@.len() ==> strs((#[trigger] out@[m]).1@) == publishers_of(
                        evs,
                        out@[m].0@,
                    ),
            decreases distinct.len() - k,
        {
            let ghost before = out@.map_values(|p: (String, Vec<String>)| p.0@);
            proof {
                reveal_with_fuel(Seq::<_>::filter, 1);
                assert(all.subrange(0, k + 1).drop_last() =~= all.subrange(0, k as int));
            }
            let pubs = self.publishers(&distinct[k]);
            if pubs.len() > 1 {
                out.push((distinct[k].clone(), pubs));
                assert(out@.map_values(|p: (String, Vec<String>)| p.0@) =~= before.push(
                    all[k as int],
                ));
            }
            k = k + 1;
        }
        assert(all.subrange(0, all.len() as int) =~= all);
        out
    }
}

impl Default for IntegrationEventRegistry {
    fn default() -> (r: Self)
        ensures
            r.spec_events().len() == 0,
    {
        IntegrationEventRegistry::new()
    }
}

/// Keeping only new names: a name is in the result exactly when it was
/// already kept or occurs among the new ones.
pub proof fn lemma_push_new_contains(acc: Seq<Seq<char>>, xs: Seq<Seq<char>>, n: Seq<char>)
    ensures
        push_new(acc, xs).contains(n) <==> (acc.contains(n) || xs.contains(n)),
    decreases xs.len(),
{
    if xs.len() > 0 {
        lemma_push_new_contains(acc, xs.drop_last(), n);
        let prev = push_new(acc, xs.drop_last());
        assert(xs =~= xs.drop_last().push(xs.last()));
        if xs.drop_last().contains(n) {
            let k = choose|k: int| 0 <= k < xs.drop_last().len() && xs.drop_last()[k] == n;
            assert(xs[k] == n);
        }
        if xs.contains(n) && n != xs.last() {
            let k = choose|k: int| 0 <= k < xs.len() && xs[k] == n;
            assert(xs.drop_last()[k] == n);
        }
        if !prev.contains(xs.last()) {
            assert(prev.push(xs.last()).last() == xs.last());
            if prev.push(xs.last()).contains(n) && n != xs.last() {
                let k = choose|k: int| 0 <= k < prev.push(xs.last()).len() && prev.push(xs.last())[k] == n;
                assert(prev[k] == n);
            }
            if prev.contains(n) {
                let k = choose|k: int| 0 <= k < prev.len() && prev[k] == n;
                assert(prev.push(xs.last())[k] == n);
            }
        }
    }
}

/// An event name with a publisher is a registered name.
pub proof fn lemma_publisher_means_registered(evs: Seq<EventView>, n: Seq<char>)
    ensures
        publishers_of(evs, n).len() > 0 ==> event_names(evs).contains(n),
    decreases evs.len(),
{
    if evs.len() > 0 {
        lemma_publisher_means_registered(evs.drop_last(), n);
        let names = event_names(evs);
        if evs.last().0 == n {
            assert(names[evs.len() - 1] == n);
        } else if publishers_of(evs, n).len() > 0 {
            let k = choose|k: int|
                0 <= k < event_names(evs.drop_last()).len() && event_names(evs.drop_last())[k] == n;
            assert(names[k] == n);
        }
    }
}

/// Registering an event makes its name known, and every name known
/// before stays known.
pub proof fn lemma_register_then_has_event(evs: Seq<IntegrationEvent>, e: IntegrationEvent, n: Seq<char>)
    ensures
        event_names(events_view(evs.push(e))).contains(e.name@),
        event_names(events_view(evs)).contains(n) ==> event_names(events_view(evs.push(e))).contains(n),
{
    let before = event_names(events_view(evs));
    let after = event_names(events_view(evs.push(e)));
    assert(after.len() == evs.len() + 1);
    assert(after[evs.len() as int] == e.name@);
    if before.contains(n) {
        let k = choose|k: int| 0 <= k < before.len() && before[k] == n;
        assert(after[k] == n);
    }
}

/// A name is reported as a duplicate exactly when more than one event
/// with that name was registered.
pub proof fn lemma_duplicate_iff_published_twice(evs: Seq<IntegrationEvent>, n: Seq<char>)
    ensures
        duplicated_names(events_view(evs)).contains(n) <==> publishers_of(events_view(evs), n).len() > 1,
{
    let v = events_view(evs);
    let names = event_names(v);
    let all = push_new(Seq::empty(), names);
    let pred = |x: Seq<char>| publishers_of(v, x).len() > 1;
    lemma_push_new_contains(Seq::empty(), names, n);
    if all.filter(pred).contains(n) {
        all.lemma_filter_contains_rev(pred, n);
        let k = choose|k: int| 0 <= k < all.filter(pred).len() && all.filter(pred)[k] == n;
        all.lemma_filter_pred(pred, k);
    }
    if publishers_of(v, n).len() > 1 {
        lemma_publisher_means_registered(v, n);
        let k = choose|k: int| 0 <= k < all.len() && all[k] == n;
        all.lemma_filter_contains(pred, k);
    }
}

/// What an integration event says, as plain values: name, path, publisher.
pub open spec fn event_view(e: IntegrationEvent) -> EventView {
    (e.name@, e.path@, e.publisher@)
}

/// The views of a list of events.
pub open spec fn events_view(evs: Seq<IntegrationEvent>) -> Seq<(Seq<char>, Seq<char>, Seq<char>)> {
    evs.map_values(|e: IntegrationEvent| event_view(e))
}

/// The directory of shared integration events under `dir`.
pub open spec fn shared_events_dir(dir: Seq<char>) -> Seq<char> {
    push_path(push_path(dir, "_shared"@), "integration-events"@)
}

/// The integration events whose files lie directly in `dir` (when it
/// exists), each named by its file's stem and published by `publisher`.
pub open spec fn events_in_dir(
    es: Seq<FsEntry>,
    dir: Seq<char>,
    publisher: Seq<char>,
    pats: PatternsConfig,
) -> Seq<(Seq<char>, Seq<char>, Seq<char>)> {
    if path_exists(es, dir) {
        feature_file_paths(es, dir).filter(|p: Seq<char>| matches_glob(pats.integration_event@, p)).map_values(
            |p: Seq<char>| (file_stem_of(p), p, publisher),
        )
    } else {
        Seq::empty()
    }
}

/// The integration events of the contexts at positions `idx[..k]`.
pub open spec fn context_events(
    es: Seq<FsEntry>,
    idx: Seq<int>,
    k: int,
    pats: PatternsConfig,
) -> Seq<(Seq<char>, Seq<char>, Seq<char>)>
    decreases k,
{
    if k <= 0 || k > idx.len() {
        Seq::empty()
    } else {
        let p = es[idx[k - 1]].path@;
        context_events(es, idx, k - 1, pats) + events_in_dir(
            es,
            shared_events_dir(p),
            entry_name(p),
            pats,
        )
    }
}

/// What a scan registers: the shared integration events of each context,
/// then those shared by the whole project.
pub open spec fn scanned_events(es: Seq<FsEntry>, root: Seq<char>, pats: PatternsConfig) -> Seq<
    (Seq<char>, Seq<char>, Seq<char>),
> {
    let idx = context_indices(es, root);
    context_events(es, idx, idx.len() as int, pats) + events_in_dir(
        es,
        shared_events_dir(root),
        "_shared"@,
        pats,
    )
}

/// Registers the integration events of the files directly in `dir`.
fn register_dir(
    reg: &mut IntegrationEventRegistry,
    tree: &ProjectTree,
    dir: &str,
    publisher: &str,
    matcher: &PatternMatcher,
)
    ensures
        events_view(final(reg).spec_events()) == events_view(old(reg).spec_events()) + events_in_dir(
            tree.entries@,
            dir@,
            publisher@,
            matcher.spec_patterns(),
        ),
{
    let ghost start = events_view(reg.events@);
    if !tree.has_path(dir) {
        assert(events_view(reg.events@) =~= start + Seq::<(Seq<char>, Seq<char>, Seq<char>)>::empty());
        return;
    }
    let files = files_in(tree, dir);
    let ghost paths = file_paths_of(files@);
    let ghost pred = |p: Seq<char>| matches_glob(matcher.spec_patterns().integration_event@, p);
    let ghost f = |p: Seq<char>| (file_stem_of(p), p, publisher@);
    let mut i: usize = 0;
    while i < files.len()
        invariant
            i <= files@.len(),
            paths == file_paths_of(files@),
            start == events_view(old(reg).spec_events()),
            pred == (|p: Seq<char>| matches_glob(matcher.spec_patterns().integration_event@, p)),
            f == (|p: Seq<char>| (file_stem_of(p), p, publisher@)),
            events_view(reg.events@) == start + paths.subrange(0, i as int).filter(pred).map_values(f),
        decreases files.len() - i,
    {
        let ghost before = events_view(reg.events@);
        proof {
            reveal_with_fuel(Seq::<_>::filter, 1);
            assert(paths.subrange(0, i + 1).drop_last() =~= paths.subrange(0, i as int));
        }
        let path = files[i].path.as_str();
        if matcher.is_integration_event(path) {
            reg.register(IntegrationEvent {
                name: file_stem_str(path),
                path: files[i].path.clone(),
                publisher: crate::text::owned(publisher),
            });
            assert(paths.subrange(0, i + 1).filter(pred) == paths.subrange(0, i as int).filter(pred).push(paths[i as int]));
            assert(paths[i as int] == files@[i as int].path@);
            assert(events_view(reg.events@) =~= before.push(f(paths[i as int])));
            assert(paths.subrange(0, i as int).filter(pred).push(paths[i as int]).map_values(f) =~= paths.subrange(0, i as int).filter(pred).map_values(f).push(f(paths[i as int])));
            assert(events_view(reg.events@) =~= start + paths.subrange(0, i + 1).filter(pred).map_values(f));
        } else {
            assert(paths.subrange(0, i + 1).filter(pred) == paths.subrange(0, i as int).filter(pred));
        }
        i = i + 1;
    }
    assert(paths.subrange(0, paths.len() as int) =~= paths);
}

impl IntegrationEventRegistry {
    /// Scan and register all integration events: those in
    /// `_shared/integration-events` of each context (published by the
    /// context), then those in the root's (published by `_shared`).
    pub fn scan(config: &VsaConfig, root: &str, tree: &ProjectTree) -> (r: Self)
        requires
            supported_language(config.language@),
        ensures
            events_view(r.spec_events()) == scanned_events(tree.entries@, root@, config.patterns),
    {
        let mut registry = Self::new();
        let ext = config.file_extension();
        let matcher = PatternMatcher::new(config.patterns.clone_patterns(), crate::text::owned(ext));
        let contexts = contexts_in(tree, root);
        let ghost es = tree.entries@;
        let ghost idx = context_indices(es, root@);
        let mut k: usize = 0;
        assert(events_view(registry.events@) =~= context_events(es, idx, 0, config.patterns));
        while k < contexts.len()
            invariant
                k <= contexts@.len(),
                es == tree.entries@,
                idx == context_indices(es, root@),
                matcher.spec_patterns() == config.patterns,
                crate::scanner::contexts_match(contexts@, es, idx),
                events_view(registry.events@) == context_events(es, idx, k as int, config.patterns),
            decreases contexts.len() - k,
        {
            let shared = push_path_str(contexts[k].path.as_str(), "_shared");
            let dir = push_path_str(shared.as_str(), "integration-events");
            proof {
                reveal_strlit("_shared");
            }
            register_dir(&mut registry, tree, dir.as_str(), contexts[k].name.as_str(), &matcher);
            k = k + 1;
        }
        let shared = push_path_str(root, "_shared");
        let dir = push_path_str(shared.as_str(), "integration-events");
        register_dir(&mut registry, tree, dir.as_str(), "_shared", &matcher);
        registry
    }
}

/// The publishers of a list of event views, in order.
pub open spec fn event_publishers(evs: Seq<(Seq<char>, Seq<char>, Seq<char>)>) -> Seq<Seq<char>> {
    evs.map_values(|e: (Seq<char>, Seq<char>, Seq<char>)| e.2)
}

} // verus!
