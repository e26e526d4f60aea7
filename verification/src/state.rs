//! The world and the four operations on it: set it up, place a tower,
//! upgrade an inventory entry, advance one tick.

use vstd::prelude::*;
use crate::combat::aim;
use crate::combat::battle;
use crate::combat::cool_towers;
use crate::combat::cooled_objects;
use crate::combat::ready_flags;
use crate::combat::resolve;
use crate::combat::shots;
use crate::combat::Battle;
use crate::config::build_tower;
use crate::config::flow_feature;
use crate::config::spec_flow_feature;
use crate::config::INITIAL_TOWER_COST;
use crate::config::INITIAL_TREASURE;
use crate::config::MAP_HEIGHT;
use crate::config::MAP_WIDTH;
use crate::config::TOTAL_SPAWN;
use crate::config::TOWER_COOLDOWN;
use crate::config::UPGRADE_COST_MODIFIER;
use crate::config::UPGRADE_PRICE_FACTOR;
use crate::coordinate::RectCoordinate;
use crate::coordinate::RectDirection;
use crate::error::GameError;
use crate::event::Event;
use crate::map::index_of_cell;
use crate::map::keep_unmarked;
use crate::map::lemma_index_cell_index;
use crate::map::retained;
use crate::map::PositionedObject;
use crate::map::TileMap;
use crate::object::Collector;
use crate::object::Object;
use crate::object::Spawner;
use crate::object::Tower;
use crate::sweep::budget_after;
use crate::sweep::collected_count;
use crate::sweep::collected_damage;
use crate::sweep::collected_reward;
use crate::sweep::lemma_budget_spent;
use crate::sweep::spawned_monsters;
use crate::sweep::sweep;
use crate::sweep::swept_marks;
use crate::sweep::swept_objects;
use crate::sweep::terminations_after;

verus! {

/// An entity that the player can buy any number of times.
#[derive(Clone, Copy, Debug, PartialEq, Eq, Structural)]
pub struct InventoryObject {
    /// The price of one placement.
    pub cost: u64,
    /// The price of the next upgrade, in multiples of `cost`.
    pub upgrade_modifier: u64,
    pub object: Object,
}

impl InventoryObject {
    pub fn new(object: Object, cost: u64) -> (entry: Self)
        ensures
            entry == (InventoryObject { cost, upgrade_modifier: UPGRADE_COST_MODIFIER, object }),
    {
        InventoryObject { cost, upgrade_modifier: UPGRADE_COST_MODIFIER, object }
    }

    /// The price of the next upgrade.
    pub open spec fn upgrade_cost(self) -> int {
        self.cost * self.upgrade_modifier
    }

    /// Whether the entry after an upgrade fits in its fields.
    pub open spec fn can_upgrade(self) -> bool {
        &&& self.upgrade_modifier * self.upgrade_modifier <= u64::MAX
        &&& self.cost * UPGRADE_PRICE_FACTOR <= u64::MAX
        &&& self.object.can_upgrade()
    }

    /// The entry one upgrade later: the modifier is squared, the price is
    /// quadrupled, and the entity is upgraded.
    pub open spec fn spec_upgraded(self) -> InventoryObject {
        InventoryObject {
            cost: (self.cost * UPGRADE_PRICE_FACTOR) as u64,
            upgrade_modifier: (self.upgrade_modifier * self.upgrade_modifier) as u64,
            object: self.object.spec_upgraded(),
        }
    }

    /// The upgraded entry, or `None` where it does not fit.
    pub fn upgraded(&self) -> (r: Option<InventoryObject>)
        ensures
            r == if self.can_upgrade() {
                Some(self.spec_upgraded())
            } else {
                None
            },
    {
        let upgrade_modifier: u64 = match self.upgrade_modifier.checked_mul(self.upgrade_modifier) {
            Some(m) => m,
            None => {
                return None;
            },
        };
        let cost: u64 = match self.cost.checked_mul(UPGRADE_PRICE_FACTOR) {
            Some(c) => c,
            None => {
                return None;
            },
        };
        match self.object.upgraded() {
            Some(object) => Some(InventoryObject { cost, upgrade_modifier, object }),
            None => None,
        }
    }
}

/// The world.
#[derive(Clone, Debug)]
pub struct State {
    pub inventory: Vec<InventoryObject>,
    pub treasure: u64,
    /// Monsters that the spawners may still introduce.
    pub monsters: u64,
    /// Entities that the collectors may still consume.
    pub terminates: u64,
    /// The player's health.
    pub hp: u64,
    pub map: TileMap,
    /// What happened in the last tick.
    pub events: Vec<Event>,
}

/// The index of the tile on cell `(x, y)` of the initial map.
pub fn cor_to_index(x: usize, y: usize) -> (idx: usize)
    requires
        x + y * MAP_WIDTH <= usize::MAX,
    ensures
        idx == index_of_cell(MAP_WIDTH, RectCoordinate { x, y }),
{
    x + y * MAP_WIDTH
}

/// The inventory that a fresh world starts with: one tower for each
/// direction, in the order top, left, right, bottom.
pub open spec fn initial_inventory() -> Seq<InventoryObject> {
    seq![
        initial_entry(RectDirection::Top),
        initial_entry(RectDirection::Left),
        initial_entry(RectDirection::Right),
        initial_entry(RectDirection::Bottom),
    ]
}

pub open spec fn initial_entry(direction: RectDirection) -> InventoryObject {
    InventoryObject {
        cost: INITIAL_TOWER_COST,
        upgrade_modifier: UPGRADE_COST_MODIFIER,
        object: Object::Tower(Tower { power: 1, cooldown: TOWER_COOLDOWN, count: 0, direction }),
    }
}

/// The entities that a fresh world starts with: a spawner and a collector.
pub open spec fn initial_objects() -> Seq<PositionedObject> {
    seq![
        PositionedObject {
            object: Object::Spawner(Spawner { rate: 4, count: 4 }),
            position: RectCoordinate { x: 4, y: 0 },
        },
        PositionedObject {
            object: Object::Collector(Collector { capacity: 5 }),
            position: RectCoordinate { x: 10, y: 0 },
        },
    ]
}

impl State {
    /// The map is well formed.
    pub open spec fn wf(self) -> bool {
        self.map.wf()
    }

    /// Whether the world is well formed.
    pub fn is_valid(&self) -> (ok: bool)
        ensures
            ok == self.wf(),
    {
        self.map.is_valid()
    }

    /// What an attempt to place entry `inventory_idx` on tile `pos` answers:
    /// an entry or a tile that does not exist is an invalid reference, a
    /// price above the treasure a violated precondition, and everything
    /// else a success.
    pub open spec fn place_outcome(self, inventory_idx: usize, pos: usize) -> Result<(), GameError> {
        if inventory_idx >= self.inventory@.len() || pos >= self.map.tiles@.len() {
            Err(GameError::InvalidReference)
        } else if self.inventory@[inventory_idx as int].cost > self.treasure {
            Err(GameError::PreconditionViolation)
        } else {
            Ok(())
        }
    }

    /// What an attempt to upgrade entry `inventory_idx` answers: an entry
    /// that does not exist is an invalid reference, a price above the
    /// treasure a violated precondition, an upgraded entry that does not
    /// fit in its fields an overflow, and everything else a success.
    pub open spec fn upgrade_outcome(self, inventory_idx: usize) -> Result<(), GameError> {
        if inventory_idx >= self.inventory@.len() {
            Err(GameError::InvalidReference)
        } else if self.inventory@[inventory_idx as int].upgrade_cost() > self.treasure {
            Err(GameError::PreconditionViolation)
        } else if !self.inventory@[inventory_idx as int].can_upgrade() {
            Err(GameError::ArithmeticOverflow)
        } else {
            Ok(())
        }
    }

    /// Every monster on the map has hit points left.
    pub open spec fn monsters_alive(self) -> bool {
        forall|k: int|
            0 <= k < self.map.objects@.len() ==> ((
            #[trigger] self.map.objects@[k]).object matches Object::Monster(m) ==> m.hp > 0)
    }
}

/// A fresh world.
pub fn init_state() -> (state: State)
    ensures
        state.wf(),
        state.monsters_alive(),
        state.inventory@ == initial_inventory(),
        state.treasure == INITIAL_TREASURE,
        state.monsters == TOTAL_SPAWN,
        state.terminates == TOTAL_SPAWN,
        state.hp == 0,
        state.events@.len() == 0,
        state.map.width == MAP_WIDTH,
        state.map.height == MAP_HEIGHT,
        state.map.objects@ == initial_objects(),
        forall|i: int|
            0 <= i < state.map.tiles@.len() ==> (#[trigger] state.map.tiles@[i]).feature
                == spec_flow_feature(
                state.map.tiles@[i].position.x,
                state.map.tiles@[i].position.y,
            ),
{
    let mut inventory: Vec<InventoryObject> = Vec::new();
    let top = Object::Tower(build_tower(1, RectDirection::Top));
    let left = Object::Tower(build_tower(1, RectDirection::Left));
    let right = Object::Tower(build_tower(1, RectDirection::Right));
    let bottom = Object::Tower(build_tower(1, RectDirection::Bottom));
    inventory.push(InventoryObject::new(top, INITIAL_TOWER_COST));
    inventory.push(InventoryObject::new(left, INITIAL_TOWER_COST));
    inventory.push(InventoryObject::new(right, INITIAL_TOWER_COST));
    inventory.push(InventoryObject::new(bottom, INITIAL_TOWER_COST));
    assert(inventory@ =~= initial_inventory());
    let mut map = TileMap::new(MAP_WIDTH, MAP_HEIGHT).unwrap();
    let total: usize = map.tiles.len();
    let mut i: usize = 0;
    while i < total
        invariant
            map.wf(),
            map.width == MAP_WIDTH,
            map.height == MAP_HEIGHT,
            total == map.tiles@.len(),
            map.objects@.len() == 0,
            i <= total,
            forall|k: int|
                0 <= k < i ==> (#[trigger] map.tiles@[k]).feature == spec_flow_feature(
                    map.tiles@[k].position.x,
                    map.tiles@[k].position.y,
                ),
        decreases total - i,
    {
        let c = map.coordinate_of_tile_index(i);
        proof {
            lemma_index_cell_index(map.width, map.height, i as int);
        }
        let r = map.set_feature(i, flow_feature(c.x, c.y));
        assert(r is Ok);
        i += 1;
    }
    let spawner = map.spawn_at(Object::Spawner(Spawner::new(4, 4)), RectCoordinate::new(4, 0));
    let collector = map.spawn_at(
        Object::Collector(Collector::new(5)),
        RectCoordinate::new(10, 0),
    );
    assert(spawner is Ok && collector is Ok);
    assert(map.objects@ =~= initial_objects());
    State {
        inventory,
        treasure: INITIAL_TREASURE,
        hp: 0,
        monsters: TOTAL_SPAWN,
        terminates: TOTAL_SPAWN,
        map,
        events: Vec::new(),
    }
}

/// Buys the entity of inventory entry `inventory_idx` and puts it on the
/// tile with index `pos`. The entry stays in the inventory. An entry or a
/// tile that does not exist, or a price above the treasure, is refused and
/// the world stays as it was.
pub fn handle_place_tower(state: &mut State, inventory_idx: usize, pos: usize) -> (r: Result<
    (),
    GameError,
>)
    requires
        old(state).wf(),
    ensures
        final(state).wf(),
        r is Err ==> *final(state) == *old(state),
        r == old(state).place_outcome(inventory_idx, pos),
        r is Ok ==> {
            &&& final(state).treasure == old(state).treasure
                - old(state).inventory@[inventory_idx as int].cost
            &&& final(state).map.objects@ == old(state).map.objects@.push(
                PositionedObject {
                    object: old(state).inventory@[inventory_idx as int].object,
                    position: old(state).map.spec_coordinate_of(pos as int),
                },
            )
            &&& final(state).map.tiles == old(state).map.tiles
            &&& final(state).map.width == old(state).map.width
            &&& final(state).map.height == old(state).map.height
            &&& final(state).inventory == old(state).inventory
            &&& final(state).monsters == old(state).monsters
            &&& final(state).terminates == old(state).terminates
            &&& final(state).hp == old(state).hp
            &&& final(state).events == old(state).events
        },
{
    if inventory_idx >= state.inventory.len() || pos >= state.map.tiles.len() {
        return Err(GameError::InvalidReference);
    }
    let entry = state.inventory[inventory_idx];
    if entry.cost > state.treasure {
        return Err(GameError::PreconditionViolation);
    }
    proof {
        lemma_index_cell_index(state.map.width, state.map.height, pos as int);
    }
    let position = state.map.coordinate_of_tile_index(pos);
    let placed = state.map.spawn_at(entry.object, position);
    assert(placed is Ok);
    state.treasure = state.treasure - entry.cost;
    Ok(())
}

/// Upgrades inventory entry `inventory_idx` at the price of its cost times
/// its upgrade modifier. An entry that does not exist, a price above the
/// treasure, or an upgraded entry that does not fit, is refused and the
/// world stays as it was.
pub fn handle_upgrade_inventory(state: &mut State, inventory_idx: usize) -> (r: Result<
    (),
    GameError,
>)
    ensures
        old(state).wf() ==> final(state).wf(),
        old(state).monsters_alive() ==> final(state).monsters_alive(),
        r is Err ==> *final(state) == *old(state),
        r == old(state).upgrade_outcome(inventory_idx),
        r is Ok ==> {
            &&& final(state).treasure == old(state).treasure
                - old(state).inventory@[inventory_idx as int].upgrade_cost()
            &&& final(state).inventory@ == old(state).inventory@.update(
                inventory_idx as int,
                old(state).inventory@[inventory_idx as int].spec_upgraded(),
            )
            &&& final(state).map == old(state).map
            &&& final(state).monsters == old(state).monsters
            &&& final(state).terminates == old(state).terminates
            &&& final(state).hp == old(state).hp
            &&& final(state).events == old(state).events
        },
{
    if inventory_idx >= state.inventory.len() {
        return Err(GameError::InvalidReference);
    }
    let entry = state.inventory[inventory_idx];
    let price: u64 = match entry.cost.checked_mul(entry.upgrade_modifier) {
        Some(p) => p,
        None => {
            return Err(GameError::PreconditionViolation);
        },
    };
    if price > state.treasure {
        return Err(GameError::PreconditionViolation);
    }
    match entry.upgraded() {
        Some(better) => {
            state.inventory.set(inventory_idx, better);
            state.treasure = state.treasure - price;
            Ok(())
        },
        None => Err(GameError::ArithmeticOverflow),
    }
}

/// The round of fire of one tick on `map`, with `budget` monsters left to
/// spawn: the entities as the first pass and the cooldown leave them, the
/// marks of what the collectors consumed, the spawned monsters waiting,
/// and every ready tower firing at its target in the order of the places.
pub open spec fn tick_battle(map: TileMap, budget: u64) -> Battle {
    let swept = swept_objects(map, budget);
    let snapshot = cooled_objects(swept);
    battle(
        Battle {
            objects: snapshot,
            marks: swept_marks(map.objects@),
            spawned: spawned_monsters(map.objects@, budget, map.objects@.len()),
            events: Seq::empty(),
        },
        shots(snapshot, ready_flags(swept)),
        snapshot.len(),
    )
}

/// The entities after one tick: those that were not marked, in their
/// order, then the spawned monsters, then the rewards of the defeated.
pub open spec fn tick_objects(map: TileMap, budget: u64) -> Seq<PositionedObject> {
    let b = tick_battle(map, budget);
    retained(b.objects, b.marks, b.objects.len()) + b.spawned
}

/// What a tick adds to the treasure: the reward collected beyond the
/// damage taken, and nothing where the damage is as large.
pub open spec fn net_reward(objs: Seq<PositionedObject>) -> int {
    let reward = collected_reward(objs, objs.len());
    let damage = collected_damage(objs, objs.len());
    if reward > damage {
        reward - damage
    } else {
        0
    }
}

/// Advances the world by one tick. The tick is refused, and the world
/// stays as it was, only where the treasure would not fit in its field.
pub fn handle_run(state: &mut State) -> (r: Result<(), GameError>)
    requires
        old(state).wf(),
    ensures
        final(state).wf(),
        old(state).monsters_alive() ==> final(state).monsters_alive(),
        r is Ok <==> old(state).treasure + net_reward(old(state).map.objects@) <= u64::MAX,
        r is Err ==> r == Err::<(), GameError>(GameError::ArithmeticOverflow) && *final(state)
            == *old(state),
        r is Ok ==> {
            &&& final(state).map.objects@ == tick_objects(old(state).map, old(state).monsters)
            &&& final(state).events@ == tick_battle(old(state).map, old(state).monsters).events
            &&& final(state).treasure == old(state).treasure + net_reward(old(state).map.objects@)
            &&& final(state).monsters == budget_after(
                old(state).map.objects@,
                old(state).monsters,
                old(state).map.objects@.len(),
            )
            &&& final(state).terminates == terminations_after(
                old(state).terminates,
                collected_count(old(state).map.objects@, old(state).map.objects@.len()),
            )
            &&& final(state).map.tiles == old(state).map.tiles
            &&& final(state).map.width == old(state).map.width
            &&& final(state).map.height == old(state).map.height
            &&& final(state).inventory == old(state).inventory
            &&& final(state).hp == old(state).hp
        },
        final(state).treasure >= old(state).treasure,
        final(state).monsters <= old(state).monsters,
        r is Ok ==> old(state).monsters - final(state).monsters == spawned_monsters(
            old(state).map.objects@,
            old(state).monsters,
            old(state).map.objects@.len(),
        ).len(),
        final(state).terminates <= old(state).terminates,
{
    let swept = sweep(&state.map, state.terminates, state.monsters);
    proof {
        lemma_budget_spent(state.map.objects@, state.monsters, state.map.objects@.len());
    }
    let net: u128 = if swept.reward > swept.damage {
        swept.reward - swept.damage
    } else {
        0
    };
    if net > (u64::MAX - state.treasure) as u128 {
        return Err(GameError::ArithmeticOverflow);
    }
    let mut objects = swept.objects;
    let ghost before = objects@;
    let ready = cool_towers(&mut objects);
    let targets = aim(&objects, &ready);
    let ghost snapshot = objects@;
    let fought = resolve(objects, &targets, swept.marks, swept.spawned);
    let mut after = keep_unmarked(&fought.objects, &fought.marks);
    let mut entering = fought.spawned;
    proof {
        assert(fought@ == tick_battle(state.map, state.monsters));
        assert forall|k: int| 0 <= k < snapshot.len() implies state.map.in_bounds(
            (#[trigger] snapshot[k]).position,
        ) by {
            assert(snapshot[k].position == before[k].position);
        }
        assert forall|k: int| 0 <= k < after@.len() implies state.map.in_bounds(
            (#[trigger] after@[k]).position,
        ) by {
            let j = choose|j: int|
                0 <= j < fought.objects@.len() && !fought.marks@[j] && #[trigger] fought.objects@[j]
                    == after@[k];
            assert(fought.objects@[j].position == snapshot[j].position);
        }
        assert forall|k: int| 0 <= k < entering@.len() implies state.map.in_bounds(
            (#[trigger] entering@[k]).position,
        ) by {
            if k >= swept.spawned@.len() {
                let j = choose|j: int|
                    0 <= j < snapshot.len() && (#[trigger] snapshot[j]).position
                        == entering@[k].position;
                assert(state.map.in_bounds(snapshot[j].position));
            } else {
                assert(entering@[k] == swept.spawned@[k]);
            }
        }
        if state.monsters_alive() {
            assert forall|k: int| 0 <= k < snapshot.len() && !swept.marks@[k] implies ((
            #[trigger] snapshot[k]).object matches Object::Monster(m) ==> m.hp > 0) by {
                assert(snapshot[k] == crate::combat::cooled(before[k]));
                assert(before[k] == crate::sweep::swept_object(state.map, state.monsters, k));
                assert(state.map.objects@[k].object matches Object::Monster(m) ==> m.hp > 0);
            }
            assert forall|k: int| 0 <= k < after@.len() implies ((
            #[trigger] after@[k]).object matches Object::Monster(m) ==> m.hp > 0) by {
                let j = choose|j: int|
                    0 <= j < fought.objects@.len() && !fought.marks@[j]
                        && #[trigger] fought.objects@[j] == after@[k];
                assert(fought.objects@[j] == after@[k]);
            }
            assert forall|k: int| 0 <= k < entering@.len() implies ((
            #[trigger] entering@[k]).object matches Object::Monster(m) ==> m.hp > 0) by {
                if k < swept.spawned@.len() {
                    assert(entering@[k] == swept.spawned@[k]);
                }
            }
        }
    }
    let ghost kept = after@;
    let ghost queued = entering@;
    after.append(&mut entering);
    proof {
        assert(after@ == kept + queued);
        assert forall|k: int| 0 <= k < after@.len() implies state.map.in_bounds(
            (#[trigger] after@[k]).position,
        ) by {
            if k < kept.len() {
                assert(after@[k] == kept[k]);
            } else {
                assert(after@[k] == queued[k - kept.len()]);
            }
        }
        if state.monsters_alive() {
            assert forall|k: int| 0 <= k < after@.len() implies ((
            #[trigger] after@[k]).object matches Object::Monster(m) ==> m.hp > 0) by {
                if k < kept.len() {
                    assert(after@[k] == kept[k]);
                } else {
                    assert(after@[k] == queued[k - kept.len()]);
                }
            }
        }
    }
    state.map.objects = after;
    state.terminates = swept.terminates;
    state.monsters = swept.monsters;
    state.treasure = state.treasure + net as u64;
    state.events = fought.events;
    Ok(())
}

} // verus!
