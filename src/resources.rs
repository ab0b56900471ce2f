use vstd::prelude::*;
use rand::rngs::StdRng;
use crate::common::{points_of, Collider, GameResource, ResourceType};
use crate::geometry::{circle_hits_box, circle_intersects_box, Aabb, Point, MAX_COORD};
use crate::random::draw_in;
use crate::terrain::{Terrain, POS_SCALE};

verus! {

/// The number of random positions tried when scattering resources.
pub const PLACEMENT_ATTEMPTS: usize = 1000;

/// A resource lying in the world: what it is, and its collider, a square box
/// centered on its position with the resource's radius as half extent.
#[derive(Clone, Copy, PartialEq, Eq, Structural, Debug)]
pub struct PlacedResource {
    pub resource: GameResource,
    pub collider: Collider,
}

/// A proposed position for a resource, with the kind it would have.
#[derive(Clone, Copy, PartialEq, Eq, Structural, Debug)]
pub struct Candidate {
    pub position: Point,
    pub kind: ResourceType,
}

/// The outcome of scattering resources: those placed, and how many were asked
/// for. Fewer may have been placed than asked for.
pub struct Placement {
    pub resources: Vec<PlacedResource>,
    pub requested: usize,
}

impl PlacedResource {
    pub open spec fn position(self) -> Point {
        self.collider.bounding_box.center
    }

    pub open spec fn wf(self) -> bool {
        &&& self.collider.bounding_box.wf()
        &&& self.resource.points == points_of(self.resource.kind)
    }
}

/// Whether a disc of radius `r` around `p` stays clear of every obstacle.
pub open spec fn clear_of(obstacles: Seq<Collider>, p: Point, r: int) -> bool {
    forall|k: int| 0 <= k < obstacles.len() ==> !circle_hits_box(p, r, #[trigger] obstacles[k].bounding_box)
}

pub open spec fn obstacles_wf(obstacles: Seq<Collider>) -> bool {
    forall|k: int| 0 <= k < obstacles.len() ==> (#[trigger] obstacles[k]).bounding_box.wf()
}

/// The resource that a candidate becomes once placed.
pub open spec fn resource_from(c: Candidate, radius: i64) -> PlacedResource {
    PlacedResource {
        resource: GameResource { kind: c.kind, points: points_of(c.kind) },
        collider: Collider { bounding_box: Aabb { center: c.position, half_x: radius, half_y: radius } },
    }
}

/// The resources placed from the first `n` candidates: each candidate clear of
/// the obstacles is taken, until `count` are placed.
pub open spec fn place_prefix(
    obstacles: Seq<Collider>,
    radius: i64,
    count: int,
    cands: Seq<Candidate>,
    n: int,
) -> Seq<PlacedResource>
    decreases n,
{
    if n <= 0 {
        seq![]
    } else {
        let prev = place_prefix(obstacles, radius, count, cands, n - 1);
        if prev.len() < count && clear_of(obstacles, cands[n - 1].position, radius as int) {
            prev.push(resource_from(cands[n - 1], radius))
        } else {
            prev
        }
    }
}

/// Every resource placed from candidates keeps its radius clear of every
/// obstacle, and no more are placed than were asked for, nor than there were
/// candidates.
pub proof fn lemma_placement_avoids_obstacles(
    obstacles: Seq<Collider>,
    radius: i64,
    count: int,
    cands: Seq<Candidate>,
    n: int,
)
    requires
        0 <= count,
        0 <= n,
    ensures
        place_prefix(obstacles, radius, count, cands, n).len() <= count,
        place_prefix(obstacles, radius, count, cands, n).len() <= n,
        forall|k: int|
            0 <= k < place_prefix(obstacles, radius, count, cands, n).len() ==> clear_of(
                obstacles,
                #[trigger] place_prefix(obstacles, radius, count, cands, n)[k].position(),
                radius as int,
            ),
    decreases n,
{
    if n > 0 {
        lemma_placement_avoids_obstacles(obstacles, radius, count, cands, n - 1);
    }
}

/// Resources placed from candidates at valid positions are well formed.
proof fn lemma_placed_wf(
    obstacles: Seq<Collider>,
    radius: i64,
    count: int,
    cands: Seq<Candidate>,
    n: int,
)
    requires
        0 <= radius <= MAX_COORD,
        n <= cands.len(),
        forall|k: int| 0 <= k < cands.len() ==> (#[trigger] cands[k]).position.wf(),
    ensures
        forall|k: int|
            0 <= k < place_prefix(obstacles, radius, count, cands, n).len() ==> (#[trigger] place_prefix(
                obstacles,
                radius,
                count,
                cands,
                n,
            )[k]).wf(),
    decreases n,
{
    if n > 0 {
        lemma_placed_wf(obstacles, radius, count, cands, n - 1);
        assert(cands[n - 1].position.wf());
        let prev = place_prefix(obstacles, radius, count, cands, n - 1);
        let cur = place_prefix(obstacles, radius, count, cands, n);
        assert forall|k: int| 0 <= k < cur.len() implies (#[trigger] cur[k]).wf() by {
            if k < prev.len() {
                assert(cur[k] == prev[k]);
            } else {
                assert(cur[k] == resource_from(cands[n - 1], radius));
            }
        }
    }
}

/// Whether a resource of the given radius at `position` would be clear of
/// every obstacle.
pub fn disc_is_clear(obstacles: &Vec<Collider>, position: Point, radius: i64) -> (r: bool)
    requires
        obstacles_wf(obstacles@),
        position.wf(),
        0 <= radius <= MAX_COORD,
    ensures
        r == clear_of(obstacles@, position, radius as int),
{
    let mut i: usize = 0;
    while i < obstacles.len()
        invariant
            i <= obstacles@.len(),
            obstacles_wf(obstacles@),
            position.wf(),
            0 <= radius <= MAX_COORD,
            forall|k: int| 0 <= k < i ==> !circle_hits_box(position, radius as int, #[trigger] obstacles@[k].bounding_box),
        decreases obstacles@.len() - i,
    {
        if circle_intersects_box(position, radius, obstacles[i].bounding_box) {
            return false;
        }
        i = i + 1;
    }
    true
}

fn place_one(
    obstacles: &Vec<Collider>,
    radius: i64,
    count: usize,
    out: &mut Vec<PlacedResource>,
    c: Candidate,
    Ghost(cands): Ghost<Seq<Candidate>>,
)
    requires
        obstacles_wf(obstacles@),
        c.position.wf(),
        0 <= radius <= MAX_COORD,
        cands.len() > 0,
        cands.last() == c,
        old(out)@ == place_prefix(obstacles@, radius, count as int, cands, cands.len() - 1),
    ensures
        final(out)@ == place_prefix(obstacles@, radius, count as int, cands, cands.len() as int),
{
    if out.len() < count && disc_is_clear(obstacles, c.position, radius) {
        let kind = c.kind;
        let placed = PlacedResource {
            resource: GameResource::new(kind),
            collider: Collider { bounding_box: Aabb { center: c.position, half_x: radius, half_y: radius } },
        };
        out.push(placed);
    }
}

/// Places resources at the given candidates, in order: a candidate is taken
/// when a disc of `radius` around it is clear of every obstacle, until `count`
/// are placed.
pub fn place_resources(
    obstacles: &Vec<Collider>,
    radius: i64,
    count: usize,
    candidates: &Vec<Candidate>,
) -> (r: Placement)
    requires
        obstacles_wf(obstacles@),
        0 <= radius <= MAX_COORD,
        forall|k: int| 0 <= k < candidates@.len() ==> (#[trigger] candidates@[k]).position.wf(),
    ensures
        r.requested == count,
        r.resources@ == place_prefix(
            obstacles@,
            radius,
            count as int,
            candidates@,
            candidates@.len() as int,
        ),
        r.wf(),
        forall|k: int| 0 <= k < r.resources@.len() ==> (#[trigger] r.resources@[k]).wf(),
{
    let mut out: Vec<PlacedResource> = Vec::new();
    let mut i: usize = 0;
    while i < candidates.len()
        invariant
            i <= candidates@.len(),
            obstacles_wf(obstacles@),
            0 <= radius <= MAX_COORD,
            forall|k: int| 0 <= k < candidates@.len() ==> (#[trigger] candidates@[k]).position.wf(),
            out@ == place_prefix(obstacles@, radius, count as int, candidates@, i as int),
        decreases candidates@.len() - i,
    {
        let c = candidates[i];
        proof {
            let pre = candidates@.subrange(0, i + 1);
            lemma_place_prefix_agrees(obstacles@, radius, count as int, candidates@, pre, i + 1);
            lemma_place_prefix_agrees(obstacles@, radius, count as int, candidates@, pre, i as int);
        }
        place_one(obstacles, radius, count, &mut out, c, Ghost(candidates@.subrange(0, i + 1)));
        i = i + 1;
    }
    proof {
        lemma_placement_avoids_obstacles(obstacles@, radius, count as int, candidates@, candidates@.len() as int);
        lemma_placed_wf(obstacles@, radius, count as int, candidates@, candidates@.len() as int);
    }
    Placement { resources: out, requested: count }
}

/// The placement from the first `n` candidates depends on those alone.
proof fn lemma_place_prefix_agrees(
    obstacles: Seq<Collider>,
    radius: i64,
    count: int,
    a: Seq<Candidate>,
    b: Seq<Candidate>,
    n: int,
)
    requires
        n <= a.len(),
        n <= b.len(),
        forall|k: int| 0 <= k < n ==> a[k] == b[k],
    ensures
        place_prefix(obstacles, radius, count, a, n) == place_prefix(obstacles, radius, count, b, n),
    decreases n,
{
    if n > 0 {
        lemma_place_prefix_agrees(obstacles, radius, count, a, b, n - 1);
    }
}

fn kind_from_index(i: i64) -> (r: ResourceType)
    requires
        0 <= i < 3,
    ensures
        i == 0 ==> r == ResourceType::Energy,
        i == 1 ==> r == ResourceType::Mineral,
        i == 2 ==> r == ResourceType::Scientific,
{
    if i == 0 {
        ResourceType::Energy
    } else if i == 1 {
        ResourceType::Mineral
    } else {
        ResourceType::Scientific
    }
}

/// Whether a candidate lies where a resource of the given radius fits inside a
/// world of the given extents.
pub open spec fn candidate_in_world(c: Candidate, radius: int, world_w: int, world_h: int) -> bool {
    radius <= c.position.x < world_w - radius && radius <= c.position.y < world_h - radius
}

/// Scatters `count` resources over the terrain by rejection sampling: up to
/// `PLACEMENT_ATTEMPTS` positions are drawn uniformly inside the world, kept
/// off its edges by `radius`, each with a random kind; those clear of every
/// obstacle are taken. Stops once `count` are placed or the attempts run out.
pub fn spawn_resources(
    terrain: &Terrain,
    obstacles: &Vec<Collider>,
    count: usize,
    radius: i64,
    rng: &mut StdRng,
) -> (r: Placement)
    requires
        terrain.wf(),
        obstacles_wf(obstacles@),
        0 <= radius,
        2 * radius < terrain.world_width(),
        2 * radius < terrain.world_height(),
    ensures
        r.requested == count,
        r.wf(),
        forall|k: int| 0 <= k < r.resources@.len() ==> (#[trigger] r.resources@[k]).wf(),
        forall|k: int|
            0 <= k < r.resources@.len() ==> clear_of(
                obstacles@,
                #[trigger] r.resources@[k].position(),
                radius as int,
            ),
        exists|cands: Seq<Candidate>|
            {
                &&& cands.len() <= PLACEMENT_ATTEMPTS
                &&& r.resources@.len() <= cands.len()
                &&& (cands.len() == PLACEMENT_ATTEMPTS || r.resources@.len() == count)
                &&& (cands.len() > 0 ==> place_prefix(
                    obstacles@,
                    radius,
                    count as int,
                    cands,
                    cands.len() - 1,
                ).len() < count)
                &&& forall|k: int|
                    0 <= k < cands.len() ==> candidate_in_world(
                        #[trigger] cands[k],
                        radius as int,
                        terrain.world_width(),
                        terrain.world_height(),
                    )
                &&& r.resources@ == place_prefix(obstacles@, radius, count as int, cands, cands.len() as int)
            },
{
    let world_w = terrain.world_width_exec();
    let world_h = terrain.world_height_exec();
    let mut out: Vec<PlacedResource> = Vec::new();
    let mut attempts: usize = 0;
    let ghost mut cands: Seq<Candidate> = seq![];
    while out.len() < count && attempts < PLACEMENT_ATTEMPTS
        invariant
            terrain.wf(),
            world_w == terrain.world_width(),
            world_h == terrain.world_height(),
            obstacles_wf(obstacles@),
            0 <= radius,
            2 * radius < world_w,
            2 * radius < world_h,
            attempts <= PLACEMENT_ATTEMPTS,
            cands.len() == attempts,
            forall|k: int|
                0 <= k < cands.len() ==> candidate_in_world(
                    #[trigger] cands[k],
                    radius as int,
                    world_w as int,
                    world_h as int,
                ),
            out@ == place_prefix(obstacles@, radius, count as int, cands, cands.len() as int),
            cands.len() > 0 ==> place_prefix(obstacles@, radius, count as int, cands, cands.len() - 1).len()
                < count,
        decreases PLACEMENT_ATTEMPTS - attempts,
    {
        let x = draw_in(rng, radius, world_w - radius);
        let y = draw_in(rng, radius, world_h - radius);
        let k = draw_in(rng, 0, 3);
        let c = Candidate { position: Point { x, y }, kind: kind_from_index(k) };
        let ghost prev = cands;
        proof {
            cands = cands.push(c);
            lemma_place_prefix_agrees(obstacles@, radius, count as int, prev, cands, prev.len() as int);
        }
        place_one(obstacles, radius, count, &mut out, c, Ghost(cands));
        attempts = attempts + 1;
    }
    proof {
        lemma_placement_avoids_obstacles(obstacles@, radius, count as int, cands, cands.len() as int);
        assert forall|k: int| 0 <= k < cands.len() implies (#[trigger] cands[k]).position.wf() by {
            assert(candidate_in_world(cands[k], radius as int, world_w as int, world_h as int));
        }
        lemma_placed_wf(obstacles@, radius, count as int, cands, cands.len() as int);
    }
    Placement { resources: out, requested: count }
}

impl Placement {
    pub open spec fn wf(&self) -> bool {
        self.resources@.len() <= self.requested
    }

    /// How many resources were placed.
    pub fn placed_count(&self) -> (r: usize)
        ensures
            r == self.resources@.len(),
    {
        self.resources.len()
    }

    /// How many of the requested resources could not be placed.
    pub fn shortfall(&self) -> (r: usize)
        requires
            self.wf(),
        ensures
            r == self.requested - self.resources@.len(),
    {
        self.requested - self.resources.len()
    }
}

} // verus!
