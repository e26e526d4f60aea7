//! The first pass of a tick: collectors consume what stands on them,
//! everything else that walks takes one step along the flow, and spawners
//! count down or fire.

use vstd::prelude::*;
use crate::config::MONSTER_HP;
use crate::config::MONSTER_POWER;
use crate::config::MONSTER_SPEED;
use crate::coordinate::RectCoordinate;
use crate::map::PositionedObject;
use crate::map::TileMap;
use crate::object::Monster;
use crate::object::Object;
use crate::object::Spawner;

verus! {

/// The cells of the collectors among `objs[0..n]`, in their order.
pub open spec fn collector_cells(objs: Seq<PositionedObject>, n: nat) -> Seq<RectCoordinate>
    decreases n,
{
    if n == 0 {
        Seq::empty()
    } else {
        let before = collector_cells(objs, (n - 1) as nat);
        if objs[n - 1].object is Collector {
            before.push(objs[n - 1].position)
        } else {
            before
        }
    }
}

/// Whether a collector of `objs` stands on cell `p`.
pub open spec fn on_collector(objs: Seq<PositionedObject>, p: RectCoordinate) -> bool {
    collector_cells(objs, objs.len()).contains(p)
}

/// A cell is among the collector cells of `objs[0..n]` exactly when one of
/// those entities is a collector that stands on it.
pub proof fn lemma_collector_cells(objs: Seq<PositionedObject>, n: nat, p: RectCoordinate)
    requires
        n <= objs.len(),
    ensures
        collector_cells(objs, n).contains(p) <==> exists|i: int|
            0 <= i < n && (#[trigger] objs[i]).object is Collector && objs[i].position == p,
    decreases n,
{
    if n > 0 {
        lemma_collector_cells(objs, (n - 1) as nat, p);
        let before = collector_cells(objs, (n - 1) as nat);
        let now = collector_cells(objs, n);
        if objs[n - 1].object is Collector {
            if before.contains(p) {
                let i = choose|i: int| 0 <= i < before.len() && before[i] == p;
                assert(now[i] == p);
            }
            if objs[n - 1].position == p {
                assert(now[before.len() as int] == p);
            }
            if now.contains(p) {
                let i = choose|i: int| 0 <= i < now.len() && now[i] == p;
                if i < before.len() {
                    assert(before[i] == p);
                }
            }
        }
    }
}

/// Whether the entity at place `i` is consumed by a collector: it is a
/// monster or a dropped reward and stands on a collector's cell.
pub open spec fn is_collected(objs: Seq<PositionedObject>, i: int) -> bool {
    (objs[i].object is Monster || objs[i].object is Dropped) && on_collector(
        objs,
        objs[i].position,
    )
}

/// Where something that stands on `p` is after one step along the flow:
/// one cell further in the direction of the tile's feature, or on `p`
/// where the tile has none.
pub open spec fn drifted(map: TileMap, p: RectCoordinate) -> RectCoordinate {
    match map.spec_feature_at(p) {
        Some(d) => p.spec_adjacent(d),
        None => p,
    }
}

/// A spawner fires when its countdown has run out and monsters are left
/// to spawn.
pub open spec fn spawner_fires(s: Spawner, budget: u64) -> bool {
    s.count == 0 && budget > 0
}

/// The monsters left to spawn once the spawners among `objs[0..n]` had
/// their turn, out of `budget` before.
pub open spec fn budget_after(objs: Seq<PositionedObject>, budget: u64, n: nat) -> u64
    decreases n,
{
    if n == 0 {
        budget
    } else {
        let before = budget_after(objs, budget, (n - 1) as nat);
        match objs[n - 1].object {
            Object::Spawner(s) => if spawner_fires(s, before) {
                (before - 1) as u64
            } else {
                before
            },
            _ => before,
        }
    }
}

/// The monster that a spawner introduces.
pub open spec fn fresh_monster() -> Object {
    Object::Monster(Monster { hp: MONSTER_HP, speed: MONSTER_SPEED, power: MONSTER_POWER })
}

/// The monsters that the spawners among `objs[0..n]` introduce, in their
/// order, each on its spawner's cell.
pub open spec fn spawned_monsters(objs: Seq<PositionedObject>, budget: u64, n: nat) -> Seq<
    PositionedObject,
>
    decreases n,
{
    if n == 0 {
        Seq::empty()
    } else {
        let before = spawned_monsters(objs, budget, (n - 1) as nat);
        match objs[n - 1].object {
            Object::Spawner(s) => if spawner_fires(s, budget_after(objs, budget, (n - 1) as nat)) {
                before.push(
                    PositionedObject { object: fresh_monster(), position: objs[n - 1].position },
                )
            } else {
                before
            },
            _ => before,
        }
    }
}

/// The spawn budget never grows, every monster that enters is paid for
/// out of it, and with nothing left no monster enters.
pub proof fn lemma_budget_spent(objs: Seq<PositionedObject>, budget: u64, n: nat)
    ensures
        budget_after(objs, budget, n) <= budget,
        budget_after(objs, budget, n) + spawned_monsters(objs, budget, n).len() == budget,
        budget == 0 ==> spawned_monsters(objs, budget, n).len() == 0,
    decreases n,
{
    if n > 0 {
        lemma_budget_spent(objs, budget, (n - 1) as nat);
    }
}

/// The hit points of the monsters among `objs[0..n]` that a collector
/// consumes: the damage the player takes.
pub open spec fn collected_damage(objs: Seq<PositionedObject>, n: nat) -> int
    decreases n,
{
    if n == 0 {
        0
    } else {
        collected_damage(objs, (n - 1) as nat) + match objs[n - 1].object {
            Object::Monster(m) => if is_collected(objs, n - 1) {
                m.hp as int
            } else {
                0
            },
            _ => 0,
        }
    }
}

/// The payload of the dropped rewards among `objs[0..n]` that a collector
/// consumes.
pub open spec fn collected_reward(objs: Seq<PositionedObject>, n: nat) -> int
    decreases n,
{
    if n == 0 {
        0
    } else {
        collected_reward(objs, (n - 1) as nat) + match objs[n - 1].object {
            Object::Dropped(d) => if is_collected(objs, n - 1) {
                d.delta as int
            } else {
                0
            },
            _ => 0,
        }
    }
}

/// How many of `objs[0..n]` a collector consumes.
pub open spec fn collected_count(objs: Seq<PositionedObject>, n: nat) -> nat
    decreases n,
{
    if n == 0 {
        0
    } else {
        collected_count(objs, (n - 1) as nat) + if is_collected(objs, n - 1) {
            1nat
        } else {
            0nat
        }
    }
}

/// The terminations left after `count` more of them, out of `left`
/// before; the counter stops at zero.
pub open spec fn terminations_after(left: u64, count: nat) -> u64 {
    if count <= left {
        (left - count) as u64
    } else {
        0
    }
}

/// The entity at place `i` after the pass. A monster or a dropped reward
/// on a collector stays where it is; elsewhere it steps along the flow. A
/// spawner that fires starts its countdown again at its rate; one that
/// does not counts down by one and stays at zero. Towers and collectors
/// are left alone.
pub open spec fn swept_object(map: TileMap, budget: u64, i: int) -> PositionedObject {
    let objs = map.objects@;
    let o = objs[i];
    match o.object {
        Object::Monster(_) | Object::Dropped(_) => if on_collector(objs, o.position) {
            o
        } else {
            PositionedObject { object: o.object, position: drifted(map, o.position) }
        },
        Object::Spawner(s) => if spawner_fires(s, budget_after(objs, budget, i as nat)) {
            PositionedObject {
                object: Object::Spawner(Spawner { rate: s.rate, count: s.rate }),
                position: o.position,
            }
        } else {
            PositionedObject {
                object: Object::Spawner(
                    Spawner {
                        rate: s.rate,
                        count: if s.count == 0 {
                            0
                        } else {
                            (s.count - 1) as u64
                        },
                    },
                ),
                position: o.position,
            }
        },
        _ => o,
    }
}

/// All entities after the pass.
pub open spec fn swept_objects(map: TileMap, budget: u64) -> Seq<PositionedObject> {
    Seq::new(map.objects@.len(), |i: int| swept_object(map, budget, i))
}

/// For each entity, whether a collector consumes it.
pub open spec fn swept_marks(objs: Seq<PositionedObject>) -> Seq<bool> {
    Seq::new(objs.len(), |i: int| is_collected(objs, i))
}

/// What the first pass of a tick leaves behind.
#[derive(Clone, Debug)]
pub struct Sweep {
    /// The entities after the pass, place by place.
    pub objects: Vec<PositionedObject>,
    /// For each place, whether its entity leaves the map this tick.
    pub marks: Vec<bool>,
    /// The monsters that wait to enter the map.
    pub spawned: Vec<PositionedObject>,
    /// Payload of the consumed rewards.
    pub reward: u128,
    /// Hit points of the consumed monsters.
    pub damage: u128,
    /// Terminations left.
    pub terminates: u64,
    /// Monsters left to spawn.
    pub monsters: u64,
}

/// The cells of all collectors of `objs`.
pub fn find_collectors(objs: &Vec<PositionedObject>) -> (cells: Vec<RectCoordinate>)
    ensures
        cells@ == collector_cells(objs@, objs@.len()),
{
    let mut cells: Vec<RectCoordinate> = Vec::new();
    let mut i: usize = 0;
    while i < objs.len()
        invariant
            i <= objs@.len(),
            cells@ == collector_cells(objs@, i as nat),
        decreases objs@.len() - i,
    {
        let o = objs[i];
        match o.object {
            Object::Collector(_) => {
                cells.push(o.position);
            },
            _ => {},
        }
        i += 1;
    }
    cells
}

/// Whether `p` is among `cells`.
pub fn contains_cell(cells: &Vec<RectCoordinate>, p: &RectCoordinate) -> (found: bool)
    ensures
        found == cells@.contains(*p),
{
    let mut i: usize = 0;
    while i < cells.len()
        invariant
            i <= cells@.len(),
            forall|k: int| 0 <= k < i ==> cells@[k] != *p,
        decreases cells@.len() - i,
    {
        let c = cells[i];
        if c.x == p.x && c.y == p.y {
            return true;
        }
        i += 1;
    }
    false
}

/// One step along the flow from cell `p`.
pub fn drift(map: &TileMap, p: &RectCoordinate) -> (c: RectCoordinate)
    requires
        map.wf(),
        map.in_bounds(*p),
    ensures
        c == drifted(*map, *p),
        map.in_bounds(c),
{
    let idx: usize = map.index_of_tile_coordinate(p);
    match map.get_feature(idx) {
        Some(d) => {
            assert(map.feature_fits(idx as int, map.tiles@[idx as int].feature));
            p.adjacent(d)
        },
        None => *p,
    }
}

/// Runs the first pass of a tick over the entities of `map`, with
/// `terminates` terminations and `monsters` spawns left before it.
pub fn sweep(map: &TileMap, terminates: u64, monsters: u64) -> (s: Sweep)
    requires
        map.wf(),
    ensures
        s.objects@ == swept_objects(*map, monsters),
        s.marks@ == swept_marks(map.objects@),
        s.spawned@ == spawned_monsters(map.objects@, monsters, map.objects@.len()),
        s.reward == collected_reward(map.objects@, map.objects@.len()),
        s.damage == collected_damage(map.objects@, map.objects@.len()),
        s.terminates == terminations_after(
            terminates,
            collected_count(map.objects@, map.objects@.len()),
        ),
        s.monsters == budget_after(map.objects@, monsters, map.objects@.len()),
        s.monsters <= monsters,
        monsters == 0 ==> s.spawned@.len() == 0,
        forall|k: int|
            0 <= k < s.spawned@.len() ==> (#[trigger] s.spawned@[k]).object == fresh_monster(),
        forall|k: int| 0 <= k < s.objects@.len() ==> map.in_bounds((#[trigger] s.objects@[k]).position),
        forall|k: int| 0 <= k < s.spawned@.len() ==> map.in_bounds((#[trigger] s.spawned@[k]).position),
{
    let cells = find_collectors(&map.objects);
    let n: usize = map.objects.len();
    let mut objects: Vec<PositionedObject> = Vec::new();
    let mut marks: Vec<bool> = Vec::new();
    let mut spawned: Vec<PositionedObject> = Vec::new();
    let mut reward: u128 = 0;
    let mut damage: u128 = 0;
    let mut left: u64 = terminates;
    let mut budget: u64 = monsters;
    let mut i: usize = 0;
    while i < n
        invariant
            map.wf(),
            n == map.objects@.len(),
            i <= n,
            cells@ == collector_cells(map.objects@, map.objects@.len()),
            objects@.len() == i,
            marks@.len() == i,
            forall|k: int| 0 <= k < i ==> #[trigger] objects@[k] == swept_object(*map, monsters, k),
            forall|k: int| 0 <= k < i ==> #[trigger] marks@[k] == is_collected(map.objects@, k),
            spawned@ == spawned_monsters(map.objects@, monsters, i as nat),
            reward == collected_reward(map.objects@, i as nat),
            damage == collected_damage(map.objects@, i as nat),
            reward <= i * 0xffff_ffff_ffff_ffff,
            damage <= i * 0xffff_ffff_ffff_ffff,
            left == terminations_after(terminates, collected_count(map.objects@, i as nat)),
            budget == budget_after(map.objects@, monsters, i as nat),
            budget <= monsters,
            monsters == 0 ==> spawned@.len() == 0,
            forall|k: int|
                0 <= k < spawned@.len() ==> (#[trigger] spawned@[k]).object == fresh_monster(),
            forall|k: int| 0 <= k < i ==> map.in_bounds((#[trigger] objects@[k]).position),
            forall|k: int|
                0 <= k < spawned@.len() ==> map.in_bounds((#[trigger] spawned@[k]).position),
        decreases n - i,
    {
        let o = map.objects[i];
        assert(map.in_bounds(map.objects@[i as int].position));
        let here = contains_cell(&cells, &o.position);
        match o.object {
            Object::Monster(m) => {
                if here {
                    if left > 0 {
                        left = left - 1;
                    }
                    damage = damage + m.hp as u128;
                    marks.push(true);
                    objects.push(o);
                } else {
                    marks.push(false);
                    objects.push(PositionedObject::new(o.object, drift(map, &o.position)));
                }
            },
            Object::Dropped(d) => {
                if here {
                    if left > 0 {
                        left = left - 1;
                    }
                    reward = reward + d.delta as u128;
                    marks.push(true);
                    objects.push(o);
                } else {
                    marks.push(false);
                    objects.push(PositionedObject::new(o.object, drift(map, &o.position)));
                }
            },
            Object::Spawner(s) => {
                marks.push(false);
                if s.count == 0 && budget > 0 {
                    budget = budget - 1;
                    spawned.push(
                        PositionedObject::new(
                            Object::Monster(Monster::new(MONSTER_HP, MONSTER_SPEED, MONSTER_POWER)),
                            o.position,
                        ),
                    );
                    objects.push(
                        PositionedObject::new(Object::Spawner(Spawner::new(s.rate, s.rate)), o.position),
                    );
                } else {
                    let count: u64 = if s.count == 0 {
                        0
                    } else {
                        s.count - 1
                    };
                    objects.push(
                        PositionedObject::new(Object::Spawner(Spawner::new(s.rate, count)), o.position),
                    );
                }
            },
            _ => {
                marks.push(false);
                objects.push(o);
            },
        }
        i += 1;
    }
    assert(objects@ =~= swept_objects(*map, monsters));
    assert(marks@ =~= swept_marks(map.objects@));
    Sweep { objects, marks, spawned, reward, damage, terminates: left, monsters: budget }
}

} // verus!
