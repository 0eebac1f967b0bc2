//! Hazard-aware movement: the edge-cost policy over the hex grid, a
//! shortest-path search through the hex-grid crate, and the
//! single-step move intent derived from the found path.

use vstd::prelude::*;
use crate::hex::{Hex, hex_calc_ok, hex_dist, hex_distance};
use crate::world::{Entity, EntityData, ObjectKind, TerrainKind, World, find_at, lemma_find_at_bounds};
use crate::targeting::{enemy_unit_hexes, find_enemy_hexes};
use crate::intents::{Intent, Intents};

verus! {

/// The terrain variant standing on `h`, if a terrain entity is there.
pub open spec fn terrain_at(s: Seq<Entity>, h: Hex) -> Option<TerrainKind> {
    match find_at(s, h, ObjectKind::Terrain) {
        Some(i) => match s[i].data {
            EntityData::Terrain(t) => Some(t),
            _ => None,
        },
        None => None,
    }
}

/// A hex is blocked when a wall- or lava-tagged terrain entity
/// occupies it.
pub open spec fn is_blocked(s: Seq<Entity>, h: Hex) -> bool {
    terrain_at(s, h) == Some(TerrainKind::Wall) || terrain_at(s, h) == Some(TerrainKind::Lava)
}

/// Whether a wall- or lava-tagged terrain entity occupies `h`.
pub fn blocked(world: &World, h: Hex) -> (r: bool)
    ensures
        r == is_blocked(world.entities@, h),
{
    match world.entity_at(h, ObjectKind::Terrain) {
        Some(i) => {
            proof {
                lemma_find_at_bounds(world.entities@, h, ObjectKind::Terrain, 0);
            }
            match &world.entities[i].data {
                EntityData::Terrain(t) => match t {
                    TerrainKind::Wall => true,
                    TerrainKind::Lava => true,
                    TerrainKind::Plain => false,
                },
                _ => {
                    proof {
                        assert(false);
                    }
                    false
                },
            }
        },
        None => false,
    }
}

/// The edge-cost policy for one step onto `h` while walking from
/// `from` toward `to`: origin and destination always cost 1 (never
/// blocked, so the path stays attemptable), blocked terrain is
/// impassable, hexes in the discouraged set cost 5, and everything
/// else costs 1.
pub open spec fn spec_move_cost(
    s: Seq<Entity>,
    discouraged: Seq<Hex>,
    from: Hex,
    to: Hex,
    h: Hex,
) -> Option<u32> {
    if h == to || h == from {
        Some(1u32)
    } else if is_blocked(s, h) {
        None
    } else if discouraged.contains(h) {
        Some(5u32)
    } else {
        Some(1u32)
    }
}

fn hexes_contain(v: &Vec<Hex>, h: Hex) -> (r: bool)
    ensures
        r == v@.contains(h),
{
    let n = v.len();
    let mut i: usize = 0;
    while i < n
        invariant
            n == v@.len(),
            0 <= i <= n,
            forall|j: int| 0 <= j < i ==> v@[j] != h,
        decreases n - i,
    {
        if v[i] == h {
            return true;
        }
        i = i + 1;
    }
    false
}

/// Evaluates the edge-cost policy.
pub fn move_cost(world: &World, discouraged: &Vec<Hex>, from: Hex, to: Hex, h: Hex) -> (c: Option<
    u32,
>)
    ensures
        c == spec_move_cost(world.entities@, discouraged@, from, to, h),
{
    if h == to || h == from {
        Some(1)
    } else if blocked(world, h) {
        None
    } else if hexes_contain(discouraged, h) {
        Some(5)
    } else {
        Some(1)
    }
}

/// The search margin beyond the straight-line distance to the
/// target: paths may detour at most this far, which keeps the
/// explored region of the unbounded grid finite, so the search
/// always terminates even when the target is walled off.
pub const SEARCH_MARGIN: u32 = 256;

/// The search is confined to hexes within this distance of the
/// origin.
pub open spec fn search_limit(from: Hex, to: Hex) -> int {
    hex_dist(from, to) + SEARCH_MARGIN
}

/// The bounded edge-cost policy the path search runs under: the plain
/// policy, restricted to the finite disc around the origin that the
/// search limit carves out (origin and destination always lie in it).
pub open spec fn spec_bounded_cost(
    s: Seq<Entity>,
    discouraged: Seq<Hex>,
    from: Hex,
    to: Hex,
    h: Hex,
) -> Option<u32> {
    if hex_dist(from, h) > search_limit(from, to) {
        None
    } else {
        spec_move_cost(s, discouraged, from, to, h)
    }
}

/// Hex distance over `i64`, total on all coordinates.
fn dist64(a: Hex, b: Hex) -> (d: i64)
    ensures
        d == hex_dist(a, b),
{
    let dx: i64 = a.x as i64 - b.x as i64;
    let dy: i64 = a.y as i64 - b.y as i64;
    let dz: i64 = dx + dy;
    let ax: i64 = if dx < 0 { -dx } else { dx };
    let ay: i64 = if dy < 0 { -dy } else { dy };
    let az: i64 = if dz < 0 { -dz } else { dz };
    if ax >= ay && ax >= az {
        ax
    } else if ay >= ax && ay >= az {
        ay
    } else {
        az
    }
}

/// Evaluates the bounded edge-cost policy.
pub fn bounded_move_cost(world: &World, discouraged: &Vec<Hex>, from: Hex, to: Hex, h: Hex) -> (c:
    Option<u32>)
    ensures
        c == spec_bounded_cost(world.entities@, discouraged@, from, to, h),
{
    if dist64(from, h) > dist64(from, to) + SEARCH_MARGIN as i64 {
        return None;
    }
    move_cost(world, discouraged, from, to, h)
}

/// The path the search returns for these inputs. The result is a
/// function of the arguments alone: the search is deterministic
/// (its hash maps serve keyed lookup only and its heap breaks ties by
/// a fixed push order), so the name is well defined.
pub uninterp spec fn astar_path_of(
    s: Seq<Entity>,
    discouraged: Seq<Hex>,
    from: Hex,
    to: Hex,
) -> Option<Seq<Hex>>;

/// An admissible path: starts at the origin, ends at the target,
/// moves one hex at a time, and every hex after the first is admitted
/// by the bounded cost policy.
pub open spec fn path_ok(s: Seq<Entity>, discouraged: Seq<Hex>, from: Hex, to: Hex, p: Seq<Hex>) -> bool {
    &&& p.len() >= 1
    &&& p[0] == from
    &&& p[p.len() - 1] == to
    &&& forall|i: int| 0 <= i < p.len() - 1 ==> hex_dist(#[trigger] p[i], p[i + 1]) == 1
    &&& forall|i: int| 1 <= i < p.len() ==> spec_bounded_cost(s, discouraged, from, to, #[trigger] p[i]) is Some
}

/// The total cost of a path: the admitted cost of stepping onto each
/// hex after the first.
pub open spec fn path_cost(s: Seq<Entity>, discouraged: Seq<Hex>, from: Hex, to: Hex, p: Seq<Hex>) -> int
    decreases p.len(),
{
    if p.len() <= 1 {
        0
    } else {
        path_cost(s, discouraged, from, to, p.drop_last()) + (match spec_bounded_cost(
            s,
            discouraged,
            from,
            to,
            p.last(),
        ) {
            Some(c) => c as int,
            None => 0,
        })
    }
}

/// Relies on hexx::algorithms::a_star under the bounded cost closure
/// (which confines it to a finite disc, so it terminates and an
/// exhausted search means no admissible path). From its source: a
/// found path starts at the origin, ends at the target, walks
/// neighbor to neighbor, every hex after the first was admitted by
/// the closure, and — the heuristic being the hex distance, which
/// never exceeds the at-least-one cost of each step — the returned
/// path has minimum total cost among admissible paths. The closure
/// only calls the verified cost function.
#[verifier::external_body]
fn a_star_path(world: &World, discouraged: &Vec<Hex>, from: Hex, to: Hex) -> (r: Option<Vec<Hex>>)
    requires
        hex_calc_ok(from),
        hex_calc_ok(to),
    ensures
        ({
            let s = world.entities@;
            let d = discouraged@;
            match r {
                Some(p) => {
                    &&& astar_path_of(s, d, from, to) == Some(p@)
                    &&& path_ok(s, d, from, to, p@)
                    &&& forall|q: Seq<Hex>| path_ok(s, d, from, to, q) ==> path_cost(
                        s,
                        d,
                        from,
                        to,
                        q,
                    ) >= path_cost(s, d, from, to, p@)
                },
                None => {
                    &&& astar_path_of(s, d, from, to) is None
                    &&& forall|q: Seq<Hex>| !path_ok(s, d, from, to, q)
                },
            }
        }),
{
    let path = hexx::algorithms::a_star(
        hexx::Hex::new(from.x, from.y),
        hexx::Hex::new(to.x, to.y),
        |_, b| bounded_move_cost(world, discouraged, from, to, Hex { x: b.x, y: b.y }),
    )?;
    Some(path.into_iter().map(|h| Hex { x: h.x, y: h.y }).collect())
}

/// Emits the single-step move along `path` (one hex per tick): with a
/// path of at least two hexes, a move intent from `from` to the
/// second hex is pushed; a shorter path leaves the batch unchanged.
pub fn push_step_intent(path: &Vec<Hex>, from: Hex, intents: &mut Intents)
    ensures
        path@.len() >= 2 ==> final(intents).list@ == old(intents).list@.push(
            Intent::UnitMove { from, to: path@[1] },
        ),
        path@.len() < 2 ==> final(intents).list@ == old(intents).list@,
{
    if path.len() >= 2 {
        let to = path[1];
        intents.push(Intent::UnitMove { from, to });
    }
}

/// What `move_unit` promises of any intent it emits: a single step
/// from the origin onto an adjacent hex that the cost policy admits.
pub open spec fn emitted_step_ok(s: Seq<Entity>, me: u128, from: Hex, to_hex: Hex, step: Hex) -> bool {
    &&& hex_dist(from, step) == 1
    &&& spec_move_cost(s, enemy_unit_hexes(s, me), from, to_hex, step) is Some
}

/// The intents one movement phase appends: nothing when the origin is
/// already within range; otherwise the single step onto the second
/// hex of the found path, or nothing when no path was found or the
/// path is a single hex.
pub open spec fn move_added(s: Seq<Entity>, me: u128, from: Hex, to_hex: Hex, to_range: u32) -> Seq<
    Intent,
> {
    if hex_dist(from, to_hex) <= to_range {
        Seq::empty()
    } else {
        match astar_path_of(s, enemy_unit_hexes(s, me), from, to_hex) {
            Some(p) => if p.len() >= 2 {
                seq![Intent::UnitMove { from, to: p[1] }]
            } else {
                Seq::empty()
            },
            None => Seq::empty(),
        }
    }
}

/// Plans one step of movement from `from_hex` toward `to_hex`. When
/// the origin is already within `to_range` of the target, no intent
/// is emitted. Otherwise the path search runs under the edge cost
/// policy (with the enemy-occupied hexes recomputed fresh as the
/// discouraged set); when it finds a path, exactly the single move
/// intent onto its second hex is pushed, and when it does not,
/// movement is silently skipped.
pub fn move_unit(world: &World, from_hex: Hex, to_hex: Hex, to_range: u32, intents: &mut Intents)
    requires
        hex_calc_ok(from_hex),
        hex_calc_ok(to_hex),
    ensures
        final(intents).list@ == old(intents).list@ + move_added(
            world.entities@,
            world.me,
            from_hex,
            to_hex,
            to_range,
        ),
        hex_dist(from_hex, to_hex) <= to_range ==> final(intents).list@ == old(intents).list@,
        final(intents).list@ == old(intents).list@ || exists|step: Hex|
            final(intents).list@ == old(intents).list@.push(
                Intent::UnitMove { from: from_hex, to: step },
            ) && #[trigger] emitted_step_ok(world.entities@, world.me, from_hex, to_hex, step),
{
    let ghost added = move_added(world.entities@, world.me, from_hex, to_hex, to_range);
    if hex_distance(from_hex, to_hex) <= to_range {
        proof {
            assert(intents.list@ + added =~= intents.list@);
        }
        return ;
    }
    let discouraged = find_enemy_hexes(world);
    let path = a_star_path(world, &discouraged, from_hex, to_hex);
    match path {
        Some(p) => {
            let ghost pre = intents.list@;
            push_step_intent(&p, from_hex, intents);
            proof {
                if p@.len() >= 2 {
                    let step = p@[1];
                    assert(hex_dist(p@[0], p@[1]) == 1);
                    assert(spec_bounded_cost(
                        world.entities@,
                        discouraged@,
                        from_hex,
                        to_hex,
                        step,
                    ) is Some);
                    assert(emitted_step_ok(world.entities@, world.me, from_hex, to_hex, step));
                    assert(intents.list@ =~= pre + added);
                } else {
                    assert(intents.list@ =~= pre + added);
                }
            }
        },
        None => {
            proof {
                assert(intents.list@ + added =~= intents.list@);
            }
        },
    }
}

/// A step the cost policy admits never lands on blocked terrain,
/// except onto the origin or destination hex, which are always
/// attemptable; in particular, whenever the destination itself is not
/// wall- or lava-tagged, no emitted step ever is.
pub proof fn lemma_emitted_step_not_blocked(
    s: Seq<Entity>,
    me: u128,
    from: Hex,
    to_hex: Hex,
    step: Hex,
)
    requires
        emitted_step_ok(s, me, from, to_hex, step),
    ensures
        step != from,
        step == to_hex || !is_blocked(s, step),
        !is_blocked(s, to_hex) ==> !is_blocked(s, step),
{
}

} // verus!
