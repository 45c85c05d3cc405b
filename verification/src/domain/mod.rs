//! Domain metadata structures: aggregates, commands, queries, events,
//! upcasters, projections and value objects, and the domain model that
//! collects them.

pub mod aggregate;
pub mod command;

pub use aggregate::{Aggregate, AggregateEntity, AggregateValueObject, CommandHandler, EventHandler};
pub use command::{Command, CommandField};
pub mod event;
pub use event::{Event, EventField, EventVersion, VersionValue};
pub mod projection;
pub mod query;
pub use projection::Projection;
pub use query::{Query, QueryField};
pub mod upcaster;
pub mod value_object;
pub use upcaster::Upcaster;
pub use value_object::{ValueObject, ValueObjectField};

use vstd::prelude::*;
use crate::text::{
    insert_sorted_str, insert_sorted_unique, sorted_le, str_eq, strictly_sorted, strings_view,
    strs_view,
};
use crate::domain::event::version_str;

verus! {

/// Complete domain model containing all domain components.
#[derive(Debug, Clone)]
pub struct DomainModel {
    pub aggregates: Vec<Aggregate>,
    pub commands: Vec<Command>,
    pub queries: Vec<Query>,
    pub events: Vec<Event>,
    pub projections: Vec<Projection>,
    pub upcasters: Vec<Upcaster>,
    pub value_objects: Vec<ValueObject>,
    pub root_path: String,
}

/// `o` names the context `c`.
pub open spec fn has_ctx(o: Option<String>, c: Seq<char>) -> bool {
    match o {
        Some(s) => s@ == c,
        None => false,
    }
}

/// The bounded contexts named by some aggregate, command or event.
pub open spec fn contexts_in(
    aggregates: Seq<Aggregate>,
    commands: Seq<Command>,
    events: Seq<Event>,
) -> Set<Seq<char>> {
    Set::new(
        |c: Seq<char>|
            (exists|i: int|
                0 <= i < aggregates.len() && #[trigger] has_ctx(aggregates[i].context, c)) || (exists|i: int|
                0 <= i < commands.len() && #[trigger] has_ctx(commands[i].context, c)) || (exists|i: int|
                0 <= i < events.len() && #[trigger] has_ctx(events[i].context, c)),
    )
}

/// Contexts of a concatenation are the union of the contexts of the parts.
pub proof fn lemma_contexts_in_concat(
    a1: Seq<Aggregate>,
    c1: Seq<Command>,
    e1: Seq<Event>,
    a2: Seq<Aggregate>,
    c2: Seq<Command>,
    e2: Seq<Event>,
)
    ensures
        contexts_in(a1 + a2, c1 + c2, e1 + e2) == contexts_in(a1, c1, e1).union(
            contexts_in(a2, c2, e2),
        ),
{
    let l = contexts_in(a1 + a2, c1 + c2, e1 + e2);
    let r = contexts_in(a1, c1, e1).union(contexts_in(a2, c2, e2));
    assert forall|c: Seq<char>| l.contains(c) implies r.contains(c) by {
        if exists|i: int|
            0 <= i < (a1 + a2).len() && #[trigger] has_ctx((a1 + a2)[i].context, c) {
            let i = choose|i: int|
                0 <= i < (a1 + a2).len() && #[trigger] has_ctx((a1 + a2)[i].context, c);
            if i < a1.len() {
                assert(a1[i] == (a1 + a2)[i]);
            } else {
                assert(a2[i - a1.len()] == (a1 + a2)[i]);
            }
        } else if exists|i: int|
            0 <= i < (c1 + c2).len() && #[trigger] has_ctx((c1 + c2)[i].context, c) {
            let i = choose|i: int|
                0 <= i < (c1 + c2).len() && #[trigger] has_ctx((c1 + c2)[i].context, c);
            if i < c1.len() {
                assert(c1[i] == (c1 + c2)[i]);
            } else {
                assert(c2[i - c1.len()] == (c1 + c2)[i]);
            }
        } else {
            let i = choose|i: int|
                0 <= i < (e1 + e2).len() && #[trigger] has_ctx((e1 + e2)[i].context, c);
            if i < e1.len() {
                assert(e1[i] == (e1 + e2)[i]);
            } else {
                assert(e2[i - e1.len()] == (e1 + e2)[i]);
            }
        }
    }
    assert forall|c: Seq<char>| r.contains(c) implies l.contains(c) by {
        if contexts_in(a1, c1, e1).contains(c) {
            if exists|i: int|
                0 <= i < a1.len() && #[trigger] has_ctx(a1[i].context, c) {
                let i = choose|i: int|
                    0 <= i < a1.len() && #[trigger] has_ctx(a1[i].context, c);
                assert((a1 + a2)[i] == a1[i]);
            } else if exists|i: int|
                0 <= i < c1.len() && #[trigger] has_ctx(c1[i].context, c) {
                let i = choose|i: int|
                    0 <= i < c1.len() && #[trigger] has_ctx(c1[i].context, c);
                assert((c1 + c2)[i] == c1[i]);
            } else {
                let i = choose|i: int|
                    0 <= i < e1.len() && #[trigger] has_ctx(e1[i].context, c);
                assert((e1 + e2)[i] == e1[i]);
            }
        } else {
            if exists|i: int|
                0 <= i < a2.len() && #[trigger] has_ctx(a2[i].context, c) {
                let i = choose|i: int|
                    0 <= i < a2.len() && #[trigger] has_ctx(a2[i].context, c);
                assert((a1 + a2)[a1.len() + i] == a2[i]);
            } else if exists|i: int|
                0 <= i < c2.len() && #[trigger] has_ctx(c2[i].context, c) {
                let i = choose|i: int|
                    0 <= i < c2.len() && #[trigger] has_ctx(c2[i].context, c);
                assert((c1 + c2)[c1.len() + i] == c2[i]);
            } else {
                let i = choose|i: int|
                    0 <= i < e2.len() && #[trigger] has_ctx(e2[i].context, c);
                assert((e1 + e2)[e1.len() + i] == e2[i]);
            }
        }
    }
    assert(l =~= r);
}

impl DomainModel {
    /// Total number of components of a model.
    pub open spec fn spec_component_count(&self) -> nat {
        self.aggregates@.len() + self.commands@.len() + self.queries@.len() + self.events@.len()
            + self.projections@.len() + self.upcasters@.len() + self.value_objects@.len()
    }

    /// The contexts named in this model.
    pub open spec fn spec_contexts(&self) -> Set<Seq<char>> {
        contexts_in(self.aggregates@, self.commands@, self.events@)
    }

    /// A new empty domain model.
    pub fn new(root_path: String) -> (m: Self)
        ensures
            m.spec_component_count() == 0,
            m.root_path == root_path,
            m.aggregates@.len() == 0,
            m.commands@.len() == 0,
            m.queries@.len() == 0,
            m.events@.len() == 0,
            m.projections@.len() == 0,
            m.upcasters@.len() == 0,
            m.value_objects@.len() == 0,
    {
        DomainModel {
            aggregates: Vec::new(),
            commands: Vec::new(),
            queries: Vec::new(),
            events: Vec::new(),
            projections: Vec::new(),
            upcasters: Vec::new(),
            value_objects: Vec::new(),
            root_path,
        }
    }

    /// Total count of all domain components.
    pub fn component_count(&self) -> (r: usize)
        requires
            self.spec_component_count() <= usize::MAX,
        ensures
            r == self.spec_component_count(),
    {
        self.aggregates.len() + self.commands.len() + self.queries.len() + self.events.len()
            + self.projections.len() + self.upcasters.len() + self.value_objects.len()
    }

    /// The first aggregate with the given name.
    pub fn find_aggregate(&self, name: &str) -> (r: Option<&Aggregate>)
        ensures
            r matches Some(a) ==> exists|i: int|
                0 <= i < self.aggregates@.len() && self.aggregates@[i] == *a && a.name@ == name@
                    && forall|k: int| 0 <= k < i ==> #[trigger] self.aggregates@[k].name@ != name@,
            r is None ==> forall|i: int|
                0 <= i < self.aggregates@.len() ==> #[trigger] self.aggregates@[i].name@ != name@,
    {
        let mut i: usize = 0;
        while i < self.aggregates.len()
            invariant
                i <= self.aggregates@.len(),
                forall|k: int| 0 <= k < i ==> self.aggregates@[k].name@ != name@,
            decreases self.aggregates.len() - i,
        {
            if str_eq(self.aggregates[i].name.as_str(), name) {
                return Some(&self.aggregates[i]);
            }
            i = i + 1;
        }
        None
    }

    /// The first event with the given type whose short version text is `version`.
    pub fn find_event(&self, event_type: &str, version: &str) -> (r: Option<&Event>)
        ensures
            r matches Some(e) ==> exists|i: int|
                0 <= i < self.events@.len() && self.events@[i] == *e && e.event_type@ == event_type@
                    && version_str(e.version@) == version@ && forall|k: int|
                    0 <= k < i ==> !(#[trigger] self.events@[k].event_type@ == event_type@
                        && version_str(self.events@[k].version@) == version@),
            r is None ==> forall|i: int|
                0 <= i < self.events@.len() ==> !(#[trigger] self.events@[i].event_type@
                    == event_type@ && version_str(self.events@[i].version@) == version@),
    {
        let mut i: usize = 0;
        while i < self.events.len()
            invariant
                i <= self.events@.len(),
                forall|k: int|
                    0 <= k < i ==> !(#[trigger] self.events@[k].event_type@ == event_type@
                        && version_str(self.events@[k].version@) == version@),
            decreases self.events.len() - i,
        {
            let e = &self.events[i];
            if str_eq(e.event_type.as_str(), event_type) && str_eq(e.version.as_str(), version) {
                return Some(e);
            }
            i = i + 1;
        }
        None
    }

    /// The upcasters of the given event type, in order.
    pub fn find_upcasters_for_event(&self, event_type: &str) -> (r: Vec<&Upcaster>)
        ensures
            r@.map_values(|u: &Upcaster| *u) == self.upcasters@.filter(
                |u: Upcaster| u.event_type@ == event_type@,
            ),
    {
        let mut out: Vec<&Upcaster> = Vec::new();
        let mut i: usize = 0;
        while i < self.upcasters.len()
            invariant
                i <= self.upcasters@.len(),
                out@.map_values(|u: &Upcaster| *u) == self.upcasters@.subrange(0, i as int).filter(
                    |u: Upcaster| u.event_type@ == event_type@,
                ),
            decreases self.upcasters.len() - i,
        {
            let ghost before = out@.map_values(|u: &Upcaster| *u);
            proof {
                reveal_with_fuel(Seq::<_>::filter, 1);
                assert(self.upcasters@.subrange(0, i + 1).drop_last() =~= self.upcasters@.subrange(
                    0,
                    i as int,
                ));
            }
            if str_eq(self.upcasters[i].event_type.as_str(), event_type) {
                out.push(&self.upcasters[i]);
                assert(out@.map_values(|u: &Upcaster| *u) =~= before.push(
                    self.upcasters@[i as int],
                ));
            }
            i = i + 1;
        }
        assert(self.upcasters@.subrange(0, self.upcasters@.len() as int) =~= self.upcasters@);
        out
    }

    /// The short version texts of the events of the given type, sorted.
    pub fn get_event_versions(&self, event_type: &str) -> (r: Vec<&str>)
        ensures
            sorted_le(strs_view(r@)),
            strs_view(r@).to_multiset() == self.events@.filter(
                |e: Event| e.event_type@ == event_type@,
            ).map_values(|e: Event| version_str(e.version@)).to_multiset(),
    {
        let mut out: Vec<&str> = Vec::new();
        let mut i: usize = 0;
        proof {
            broadcast use vstd::seq_lib::group_to_multiset_ensures;
            reveal_with_fuel(Seq::<_>::filter, 1);
            assert(self.events@.subrange(0, 0) =~= Seq::<Event>::empty());
            assert(strs_view(out@) =~= Seq::<Seq<char>>::empty());
            assert(self.events@.subrange(0, 0).filter(|e: Event| e.event_type@ == event_type@).map_values(
                |e: Event| version_str(e.version@),
            ) =~= Seq::<Seq<char>>::empty());
        }
        while i < self.events.len()
            invariant
                i <= self.events@.len(),
                sorted_le(strs_view(out@)),
                strs_view(out@).to_multiset() == self.events@.subrange(0, i as int).filter(
                    |e: Event| e.event_type@ == event_type@,
                ).map_values(|e: Event| version_str(e.version@)).to_multiset(),
            decreases self.events.len() - i,
        {
            let ghost before = out@;
            proof {
                reveal_with_fuel(Seq::<_>::filter, 1);
                assert(self.events@.subrange(0, i + 1).drop_last() =~= self.events@.subrange(
                    0,
                    i as int,
                ));
            }
            if str_eq(self.events[i].event_type.as_str(), event_type) {
                let v = self.events[i].version.as_str();
                insert_sorted_str(&mut out, v);
                proof {
                    broadcast use vstd::seq_lib::to_multiset_build;
                    let f = self.events@.subrange(0, i as int).filter(
                        |e: Event| e.event_type@ == event_type@,
                    );
                    let g = self.events@.subrange(0, i + 1).filter(
                        |e: Event| e.event_type@ == event_type@,
                    );
                    assert(g == f.push(self.events@[i as int]));
                    assert(g.map_values(|e: Event| version_str(e.version@)) =~= f.map_values(
                        |e: Event| version_str(e.version@),
                    ).push(v@));
                    let k = choose|k: int|
                        0 <= k <= before.len() && strs_view(out@) == strs_view(before).insert(
                            k,
                            v@,
                        );
                    vstd::seq_lib::to_multiset_insert(strs_view(before), k, v@);
                }
            }
            i = i + 1;
        }
        assert(self.events@.subrange(0, self.events@.len() as int) =~= self.events@);
        out
    }

    /// Merge another domain model into this one; components of `other` come after.
    pub fn merge(&mut self, other: DomainModel)
        ensures
            final(self).aggregates@ == old(self).aggregates@ + other.aggregates@,
            final(self).commands@ == old(self).commands@ + other.commands@,
            final(self).queries@ == old(self).queries@ + other.queries@,
            final(self).events@ == old(self).events@ + other.events@,
            final(self).projections@ == old(self).projections@ + other.projections@,
            final(self).upcasters@ == old(self).upcasters@ + other.upcasters@,
            final(self).value_objects@ == old(self).value_objects@ + other.value_objects@,
            final(self).root_path == old(self).root_path,
            final(self).spec_component_count() == old(self).spec_component_count()
                + other.spec_component_count(),
            final(self).spec_contexts() == old(self).spec_contexts().union(other.spec_contexts()),
    {
        let ghost oa = other.aggregates@;
        let ghost oc = other.commands@;
        let ghost oe = other.events@;
        let mut other = other;
        self.aggregates.append(&mut other.aggregates);
        self.commands.append(&mut other.commands);
        self.queries.append(&mut other.queries);
        self.events.append(&mut other.events);
        self.projections.append(&mut other.projections);
        self.upcasters.append(&mut other.upcasters);
        self.value_objects.append(&mut other.value_objects);
        proof {
            lemma_contexts_in_concat(
                old(self).aggregates@,
                old(self).commands@,
                old(self).events@,
                oa,
                oc,
                oe,
            );
        }
    }

    /// The distinct contexts named by aggregates, commands and events, sorted.
    pub fn get_contexts(&self) -> (r: Vec<String>)
        ensures
            strictly_sorted(strings_view(r@)),
            strings_view(r@).to_set() == self.spec_contexts(),
    {
        let mut out: Vec<String> = Vec::new();
        let mut i: usize = 0;
        assert(strings_view(out@).to_set() =~= Set::<Seq<char>>::empty());
        assert(contexts_in(Seq::empty(), Seq::empty(), Seq::empty()) =~= Set::<Seq<char>>::empty());
        while i < self.aggregates.len()
            invariant
                i <= self.aggregates@.len(),
                strictly_sorted(strings_view(out@)),
                strings_view(out@).to_set() == contexts_in(
                    self.aggregates@.subrange(0, i as int),
                    Seq::empty(),
                    Seq::empty(),
                ),
            decreases self.aggregates.len() - i,
        {
            proof {
                lemma_contexts_in_concat(
                    self.aggregates@.subrange(0, i as int),
                    Seq::empty(),
                    Seq::empty(),
                    seq![self.aggregates@[i as int]],
                    Seq::empty(),
                    Seq::empty(),
                );
                assert(self.aggregates@.subrange(0, i as int) + seq![self.aggregates@[i as int]]
                    =~= self.aggregates@.subrange(0, i + 1));
                assert(Seq::<Command>::empty() + Seq::<Command>::empty() =~= Seq::<Command>::empty());
                assert(Seq::<Event>::empty() + Seq::<Event>::empty() =~= Seq::<Event>::empty());
            }
            if let Some(ctx) = &self.aggregates[i].context {
                insert_sorted_unique(&mut out, ctx);
                proof {
                    let one = contexts_in(seq![self.aggregates@[i as int]], Seq::empty(), Seq::empty());
                    assert(one.contains(ctx@)) by {
                        assert(seq![self.aggregates@[i as int]][0] == self.aggregates@[i as int]);
                        assert(has_ctx(seq![self.aggregates@[i as int]][0].context, ctx@));
                    }
                    assert(one =~= set![ctx@]);
                }
            } else {
                proof {
                    let one = contexts_in(seq![self.aggregates@[i as int]], Seq::empty(), Seq::empty());
                    assert(one =~= Set::<Seq<char>>::empty());
                }
            }
            i = i + 1;
        }
        assert(self.aggregates@.subrange(0, self.aggregates@.len() as int) =~= self.aggregates@);
        let mut j: usize = 0;
        while j < self.commands.len()
            invariant
                j <= self.commands@.len(),
                strictly_sorted(strings_view(out@)),
                strings_view(out@).to_set() == contexts_in(
                    self.aggregates@,
                    self.commands@.subrange(0, j as int),
                    Seq::empty(),
                ),
            decreases self.commands.len() - j,
        {
            proof {
                lemma_contexts_in_concat(
                    self.aggregates@,
                    self.commands@.subrange(0, j as int),
                    Seq::empty(),
                    Seq::empty(),
                    seq![self.commands@[j as int]],
                    Seq::empty(),
                );
                assert(self.commands@.subrange(0, j as int) + seq![self.commands@[j as int]]
                    =~= self.commands@.subrange(0, j + 1));
                assert(self.aggregates@ + Seq::<Aggregate>::empty() =~= self.aggregates@);
                assert(Seq::<Event>::empty() + Seq::<Event>::empty() =~= Seq::<Event>::empty());
            }
            if let Some(ctx) = &self.commands[j].context {
                insert_sorted_unique(&mut out, ctx);
                proof {
                    let one = contexts_in(Seq::empty(), seq![self.commands@[j as int]], Seq::empty());
                    assert(one.contains(ctx@)) by {
                        assert(seq![self.commands@[j as int]][0] == self.commands@[j as int]);
                        assert(has_ctx(seq![self.commands@[j as int]][0].context, ctx@));
                    }
                    assert(one =~= set![ctx@]);
                }
            } else {
                proof {
                    let one = contexts_in(Seq::empty(), seq![self.commands@[j as int]], Seq::empty());
                    assert(one =~= Set::<Seq<char>>::empty());
                }
            }
            j = j + 1;
        }
        assert(self.commands@.subrange(0, self.commands@.len() as int) =~= self.commands@);
        let mut k: usize = 0;
        while k < self.events.len()
            invariant
                k <= self.events@.len(),
                strictly_sorted(strings_view(out@)),
                strings_view(out@).to_set() == contexts_in(
                    self.aggregates@,
                    self.commands@,
                    self.events@.subrange(0, k as int),
                ),
            decreases self.events.len() - k,
        {
            proof {
                lemma_contexts_in_concat(
                    self.aggregates@,
                    self.commands@,
                    self.events@.subrange(0, k as int),
                    Seq::empty(),
                    Seq::empty(),
                    seq![self.events@[k as int]],
                );
                assert(self.events@.subrange(0, k as int) + seq![self.events@[k as int]]
                    =~= self.events@.subrange(0, k + 1));
                assert(self.aggregates@ + Seq::<Aggregate>::empty() =~= self.aggregates@);
                assert(self.commands@ + Seq::<Command>::empty() =~= self.commands@);
            }
            if let Some(ctx) = &self.events[k].context {
                insert_sorted_unique(&mut out, ctx);
                proof {
                    let one = contexts_in(Seq::empty(), Seq::empty(), seq![self.events@[k as int]]);
                    assert(one.contains(ctx@)) by {
                        assert(seq![self.events@[k as int]][0] == self.events@[k as int]);
                        assert(has_ctx(seq![self.events@[k as int]][0].context, ctx@));
                    }
                    assert(one =~= set![ctx@]);
                }
            } else {
                proof {
                    let one = contexts_in(Seq::empty(), Seq::empty(), seq![self.events@[k as int]]);
                    assert(one =~= Set::<Seq<char>>::empty());
                }
            }
            k = k + 1;
        }
        assert(self.events@.subrange(0, self.events@.len() as int) =~= self.events@);
        out
    }
}

} // verus!
