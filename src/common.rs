use vstd::prelude::*;
use crate::geometry::{Aabb, Point};

verus! {

/// The collision shape of a static entity.
#[derive(Clone, Copy, PartialEq, Eq, Structural, Debug)]
pub struct Collider {
    pub bounding_box: Aabb,
}

/// The category of a resource.
#[derive(Clone, Copy, PartialEq, Eq, Structural, Debug)]
pub enum ResourceType {
    Energy,
    Mineral,
    Scientific,
}

/// The points a resource of the given kind is worth.
pub open spec fn points_of(kind: ResourceType) -> u32 {
    match kind {
        ResourceType::Energy => 10,
        ResourceType::Mineral => 5,
        ResourceType::Scientific => 1,
    }
}

/// A collectible resource: its kind and the points it awards.
#[derive(Clone, Copy, PartialEq, Eq, Structural, Debug)]
pub struct GameResource {
    pub kind: ResourceType,
    pub points: u32,
}

impl GameResource {
    pub fn new(kind: ResourceType) -> (r: GameResource)
        ensures
            r.kind == kind,
            r.points == points_of(kind),
    {
        match kind {
            ResourceType::Energy => GameResource { kind, points: 10 },
            ResourceType::Mineral => GameResource { kind, points: 5 },
            ResourceType::Scientific => GameResource { kind, points: 1 },
        }
    }
}

/// The running total of collected points.
#[derive(Clone, Copy, PartialEq, Eq, Structural, Debug)]
pub struct Score(pub u32);

/// Raised when a collector takes a resource, with the points it awards.
#[derive(Clone, Copy, PartialEq, Eq, Structural, Debug)]
pub struct ResourceCollectedEvent {
    pub points: u32,
}

/// Positions at which resources were seen.
pub struct DiscoveredResources(pub Vec<Point>);

/// The sum of the points of a sequence of events.
pub open spec fn sum_points(events: Seq<ResourceCollectedEvent>) -> int
    decreases events.len(),
{
    if events.len() == 0 {
        0
    } else {
        sum_points(events.drop_last()) + events.last().points
    }
}

proof fn lemma_sum_points_nonneg(events: Seq<ResourceCollectedEvent>)
    ensures
        sum_points(events) >= 0,
    decreases events.len(),
{
    if events.len() > 0 {
        lemma_sum_points_nonneg(events.drop_last());
    }
}

proof fn lemma_sum_points_prefix(events: Seq<ResourceCollectedEvent>, i: int)
    requires
        0 <= i <= events.len(),
    ensures
        0 <= sum_points(events.subrange(0, i)) <= sum_points(events),
    decreases events.len() - i,
{
    lemma_sum_points_nonneg(events.subrange(0, i));
    if i < events.len() {
        lemma_sum_points_prefix(events, i + 1);
        assert(events.subrange(0, i + 1).drop_last() =~= events.subrange(0, i));
    } else {
        assert(events.subrange(0, i) =~= events);
    }
}

/// Adds the points of every pending event, in order, to the score. The score
/// never decreases, and grows by exactly the points of the events.
pub fn update_score(score: &mut Score, events: &Vec<ResourceCollectedEvent>)
    requires
        old(score).0 + sum_points(events@) <= u32::MAX,
    ensures
        final(score).0 == old(score).0 + sum_points(events@),
        final(score).0 >= old(score).0,
{
    proof {
        lemma_sum_points_nonneg(events@);
    }
    let mut i: usize = 0;
    while i < events.len()
        invariant
            i <= events@.len(),
            old(score).0 + sum_points(events@) <= u32::MAX,
            score.0 == old(score).0 + sum_points(events@.subrange(0, i as int)),
        decreases events@.len() - i,
    {
        proof {
            lemma_sum_points_prefix(events@, i + 1);
            assert(events@.subrange(0, i + 1).drop_last() =~= events@.subrange(0, i as int));
        }
        score.0 = score.0 + events[i].points;
        i = i + 1;
    }
    assert(events@.subrange(0, i as int) =~= events@);
}

} // verus!
