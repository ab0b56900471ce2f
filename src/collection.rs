use vstd::prelude::*;
use crate::common::ResourceCollectedEvent;
use crate::geometry::{circle_hits_box, circle_intersects_box};
use crate::resources::PlacedResource;
use crate::geometry::Point;
use crate::robot::{is_nearest, resources_wf, Agent, Role};

verus! {

/// Whether a robot's body reaches a resource's collider.
pub open spec fn touches(a: Agent, res: PlacedResource) -> bool {
    circle_hits_box(a.position, a.robot.radius as int, res.collider.bounding_box)
}

/// The resources a robot leaves and those it takes, each in their order.
pub open spec fn split_by(a: Agent, rs: Seq<PlacedResource>) -> (Seq<PlacedResource>, Seq<PlacedResource>)
    decreases rs.len(),
{
    if rs.len() == 0 {
        (seq![], seq![])
    } else {
        let (kept, taken) = split_by(a, rs.drop_last());
        if touches(a, rs.last()) {
            (kept, taken.push(rs.last()))
        } else {
            (kept.push(rs.last()), taken)
        }
    }
}

/// The resources left and those taken after every collector among `agents`,
/// in order, has taken the resources its body reaches among those still left.
pub open spec fn collect_spec(agents: Seq<Agent>, rs: Seq<PlacedResource>) -> (Seq<PlacedResource>, Seq<PlacedResource>)
    decreases agents.len(),
{
    if agents.len() == 0 {
        (rs, seq![])
    } else {
        let (kept, taken) = collect_spec(agents.drop_last(), rs);
        let a = agents.last();
        if a.role == Role::Collector {
            let (k2, t2) = split_by(a, kept);
            (k2, taken + t2)
        } else {
            (kept, taken)
        }
    }
}

/// One event per taken resource, with its points.
pub open spec fn events_of(taken: Seq<PlacedResource>) -> Seq<ResourceCollectedEvent> {
    taken.map_values(|r: PlacedResource| ResourceCollectedEvent { points: r.resource.points })
}

pub open spec fn agents_wf(agents: Seq<Agent>) -> bool {
    forall|k: int| 0 <= k < agents.len() ==> (#[trigger] agents[k]).wf()
}

proof fn lemma_split_parts(a: Agent, rs: Seq<PlacedResource>)
    ensures
        split_by(a, rs).0.to_multiset().add(split_by(a, rs).1.to_multiset()) =~= rs.to_multiset(),
        forall|k: int| 0 <= k < split_by(a, rs).0.len() ==> !touches(a, #[trigger] split_by(a, rs).0[k]),
        forall|k: int|
            0 <= k < split_by(a, rs).0.len() ==> rs.to_multiset().contains(#[trigger] split_by(a, rs).0[k]),
    decreases rs.len(),
{
    broadcast use vstd::seq_lib::group_to_multiset_ensures;
    if rs.len() > 0 {
        lemma_split_parts(a, rs.drop_last());
        assert(rs =~= rs.drop_last().push(rs.last()));
        let (k0, t0) = split_by(a, rs.drop_last());
        let (k, t) = split_by(a, rs);
        assert forall|i: int| 0 <= i < k.len() implies rs.to_multiset().contains(#[trigger] k[i]) by {
            if i < k0.len() {
                assert(k[i] == k0[i]);
                assert(rs.drop_last().to_multiset().contains(k0[i]));
            } else {
                assert(k[i] == rs.last());
                assert(rs.contains(rs.last()));
            }
        }
    }
}

/// Collection partitions the resources: every resource is either left or
/// taken, once; the resources left are reached by no collector; and each
/// taken resource gives exactly one event, with its points.
pub proof fn lemma_collection_partitions(agents: Seq<Agent>, rs: Seq<PlacedResource>)
    ensures
        collect_spec(agents, rs).0.to_multiset().add(collect_spec(agents, rs).1.to_multiset())
            =~= rs.to_multiset(),
        forall|i: int, k: int|
            0 <= i < agents.len() && agents[i].role == Role::Collector && 0 <= k < collect_spec(
                agents,
                rs,
            ).0.len() ==> !touches(#[trigger] agents[i], #[trigger] collect_spec(agents, rs).0[k]),
        events_of(collect_spec(agents, rs).1).len() == collect_spec(agents, rs).1.len(),
        forall|k: int|
            0 <= k < collect_spec(agents, rs).1.len() ==> (#[trigger] events_of(
                collect_spec(agents, rs).1,
            )[k]).points == collect_spec(agents, rs).1[k].resource.points,
    decreases agents.len(),
{
    broadcast use vstd::seq_lib::group_to_multiset_ensures;
    broadcast use vstd::multiset::group_multiset_axioms;
    if agents.len() > 0 {
        let prev = agents.drop_last();
        lemma_collection_partitions(prev, rs);
        let (kept, taken) = collect_spec(prev, rs);
        let a = agents.last();
        if a.role == Role::Collector {
            lemma_split_parts(a, kept);
            let (k2, t2) = split_by(a, kept);
            assert((taken + t2).to_multiset() =~= taken.to_multiset().add(t2.to_multiset())) by {
                vstd::seq_lib::lemma_multiset_commutative(taken, t2);
            }
            assert forall|i: int, k: int|
                0 <= i < agents.len() && agents[i].role == Role::Collector && 0 <= k < k2.len()
                    implies !touches(#[trigger] agents[i], #[trigger] k2[k]) by {
                if i < agents.len() - 1 {
                    assert(agents[i] == prev[i]);
                    assert(kept.to_multiset().contains(k2[k]));
                    let j = choose|j: int| 0 <= j < kept.len() && kept[j] == k2[k];
                    assert(!touches(prev[i], kept[j]));
                }
            }
        } else {
            assert forall|i: int, k: int|
                0 <= i < agents.len() && agents[i].role == Role::Collector && 0 <= k < kept.len()
                    implies !touches(#[trigger] agents[i], #[trigger] kept[k]) by {
                assert(agents[i] == prev[i]);
            }
        }
    }
}

/// After collection, sensing scans only the resources left, so no resource
/// that a collector's body reached is ever sensed again: whatever sensing
/// picks among what collection left, no collector of that tick touches it.
pub proof fn lemma_collected_not_sensed(
    agents: Seq<Agent>,
    rs: Seq<PlacedResource>,
    p: Point,
    range: int,
    j: int,
    i: int,
)
    requires
        is_nearest(p, range, collect_spec(agents, rs).0, j),
        0 <= i < agents.len(),
        agents[i].role == Role::Collector,
    ensures
        !touches(agents[i], collect_spec(agents, rs).0[j]),
{
    lemma_collection_partitions(agents, rs);
}

fn collect_by_one(
    a: &Agent,
    resources: &mut Vec<PlacedResource>,
    events: &mut Vec<ResourceCollectedEvent>,
)
    requires
        a.wf(),
        resources_wf(old(resources)@),
    ensures
        final(resources)@ == split_by(*a, old(resources)@).0,
        final(events)@ == old(events)@ + events_of(split_by(*a, old(resources)@).1),
        resources_wf(final(resources)@),
{
    let ghost rs = resources@;
    let mut kept: Vec<PlacedResource> = Vec::new();
    let ghost mut taken: Seq<PlacedResource> = seq![];
    let mut i: usize = 0;
    while i < resources.len()
        invariant
            a.wf(),
            resources@ == rs,
            resources_wf(rs),
            i <= rs.len(),
            (kept@, taken) == split_by(*a, rs.subrange(0, i as int)),
            events@ == old(events)@ + events_of(taken),
            resources_wf(kept@),
        decreases rs.len() - i,
    {
        let res = resources[i];
        assert(rs.subrange(0, i + 1).drop_last() =~= rs.subrange(0, i as int));
        if circle_intersects_box(a.position, a.robot.radius, res.collider.bounding_box) {
            events.push(ResourceCollectedEvent { points: res.resource.points });
            proof {
                assert(events_of(taken.push(res)) =~= events_of(taken).push(
                    ResourceCollectedEvent { points: res.resource.points },
                ));
                taken = taken.push(res);
            }
        } else {
            kept.push(res);
        }
        i = i + 1;
    }
    assert(rs.subrange(0, i as int) =~= rs);
    *resources = kept;
}

/// Collection: each collector in turn takes every resource still left whose
/// collider its body reaches, and raises one event per resource taken, with
/// its points. A resource taken is gone for every later check.
pub fn collect_resource(
    agents: &Vec<Agent>,
    resources: &mut Vec<PlacedResource>,
    events: &mut Vec<ResourceCollectedEvent>,
)
    requires
        agents_wf(agents@),
        resources_wf(old(resources)@),
    ensures
        final(resources)@ == collect_spec(agents@, old(resources)@).0,
        final(events)@ == old(events)@ + events_of(collect_spec(agents@, old(resources)@).1),
        resources_wf(final(resources)@),
{
    let ghost rs = resources@;
    let mut i: usize = 0;
    while i < agents.len()
        invariant
            agents_wf(agents@),
            i <= agents@.len(),
            resources@ == collect_spec(agents@.subrange(0, i as int), rs).0,
            events@ == old(events)@ + events_of(collect_spec(agents@.subrange(0, i as int), rs).1),
            resources_wf(resources@),
        decreases agents@.len() - i,
    {
        let a = &agents[i];
        assert(agents@.subrange(0, i + 1).drop_last() =~= agents@.subrange(0, i as int));
        let ghost before = events@;
        let ghost prev_taken = collect_spec(agents@.subrange(0, i as int), rs).1;
        if a.role == Role::Collector {
            let ghost kept = resources@;
            collect_by_one(a, resources, events);
            assert(events_of(prev_taken + split_by(*a, kept).1) =~= events_of(prev_taken) + events_of(
                split_by(*a, kept).1,
            ));
        }
        i = i + 1;
    }
    assert(agents@.subrange(0, i as int) =~= agents@);
}

} // verus!
