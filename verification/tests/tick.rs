use tower_defense::combat::aim;
use tower_defense::combat::cool_towers;
use tower_defense::combat::find_target;
use tower_defense::combat::resolve;
use tower_defense::coordinate::RectCoordinate;
use tower_defense::coordinate::RectDirection;
use tower_defense::error::GameError;
use tower_defense::event::Event;
use tower_defense::map::PositionedObject;
use tower_defense::map::TileMap;
use tower_defense::object::Collector;
use tower_defense::object::Dropped;
use tower_defense::object::Monster;
use tower_defense::object::Object;
use tower_defense::object::Spawner;
use tower_defense::object::Tower;
use tower_defense::state::handle_run;
use tower_defense::state::init_state;
use tower_defense::state::State;
use tower_defense::sweep::contains_cell;
use tower_defense::sweep::drift;
use tower_defense::sweep::find_collectors;
use tower_defense::sweep::sweep;

fn arena(map: TileMap) -> State {
    State { inventory: vec![], treasure: 100, monsters: 20, terminates: 20, hp: 0, map, events: vec![] }
}

fn at(object: Object, x: usize, y: usize) -> PositionedObject {
    PositionedObject::new(object, RectCoordinate::new(x, y))
}

fn monster(hp: u64) -> Object {
    Object::Monster(Monster::new(hp, 1, 1))
}

fn tower(power: u64, cooldown: u64, count: u64, direction: RectDirection) -> Object {
    Object::Tower(Tower { power, cooldown, count, direction })
}

/// A row of five cells: a spawner on the first, a flow to the right over
/// four cells, and a collector on the last.
fn lane(count: u64) -> State {
    let mut map = TileMap::new(5, 1).unwrap();
    for idx in 0..4 {
        map.set_feature(idx, Some(RectDirection::Right)).unwrap();
    }
    map.spawn_at(Object::Spawner(Spawner::new(4, count)), RectCoordinate::new(0, 0)).unwrap();
    map.spawn_at(Object::Collector(Collector::new(5)), RectCoordinate::new(4, 0)).unwrap();
    arena(map)
}

fn monsters_of(state: &State) -> Vec<PositionedObject> {
    state.map.objects.iter().copied().filter(|o| matches!(o.object, Object::Monster(_))).collect()
}

#[test]
fn spawner_fires_when_its_countdown_has_run_out() {
    let mut state = lane(3);
    for _ in 0..3 {
        assert_eq!(handle_run(&mut state), Ok(()));
        assert!(monsters_of(&state).is_empty());
        assert_eq!(state.monsters, 20);
    }
    assert_eq!(handle_run(&mut state), Ok(()));
    assert_eq!(monsters_of(&state), vec![at(Object::Monster(Monster::new(10, 1, 1)), 0, 0)]);
    assert_eq!(state.monsters, 19);
    assert_eq!(state.map.objects[0], at(Object::Spawner(Spawner::new(4, 4)), 0, 0));
    assert_eq!(state.map.objects.len(), 3);
}

#[test]
fn monster_walks_the_lane_and_is_consumed() {
    let mut state = lane(3);
    for _ in 0..4 {
        assert_eq!(handle_run(&mut state), Ok(()));
    }
    for step in 1..=4usize {
        assert_eq!(handle_run(&mut state), Ok(()));
        assert_eq!(monsters_of(&state)[0], at(monster(10), step, 0));
        assert_eq!(state.terminates, 20);
    }
    assert_eq!(state.treasure, 100);
    let swept = sweep(&state.map, state.terminates, state.monsters);
    assert_eq!(swept.damage, 10);
    assert_eq!(swept.reward, 0);
    assert_eq!(swept.terminates, 19);
    assert_eq!(swept.marks, vec![false, false, true]);
    assert_eq!(handle_run(&mut state), Ok(()));
    assert_eq!(state.terminates, 19);
    assert_eq!(state.treasure, 100);
    assert_eq!(state.monsters, 18);
    assert_eq!(monsters_of(&state), vec![at(monster(10), 0, 0)]);
    assert!(state.events.is_empty());
}

#[test]
fn fresh_world_spawns_on_the_fifth_tick() {
    let mut state = init_state();
    for tick in 1..=4u64 {
        assert_eq!(handle_run(&mut state), Ok(()));
        assert_eq!(state.map.objects.len(), 2);
        assert_eq!(state.map.objects[0], at(Object::Spawner(Spawner::new(4, 4 - tick)), 4, 0));
    }
    assert_eq!(handle_run(&mut state), Ok(()));
    assert_eq!(state.map.objects.len(), 3);
    assert_eq!(state.map.objects[2], at(monster(10), 4, 0));
    assert_eq!(state.monsters, 19);
    assert_eq!(handle_run(&mut state), Ok(()));
    assert_eq!(state.map.objects[2], at(monster(10), 4, 1));
    assert_eq!(handle_run(&mut state), Ok(()));
    assert_eq!(state.map.objects[2], at(monster(10), 3, 1));
}

#[test]
fn spawn_budget_never_grows_and_stops_at_zero() {
    let mut state = lane(0);
    state.monsters = 2;
    let mut last = state.monsters;
    let mut spawned = 0;
    for _ in 0..40 {
        let before = monsters_of(&state).len();
        let gone = sweep(&state.map, state.terminates, state.monsters)
            .marks
            .iter()
            .filter(|m| **m)
            .count();
        assert_eq!(handle_run(&mut state), Ok(()));
        let entered = monsters_of(&state).len() + gone - before;
        spawned += entered;
        assert!(state.monsters <= last);
        assert_eq!(last - state.monsters, entered as u64);
        if last == 0 {
            assert_eq!(entered, 0);
        }
        last = state.monsters;
    }
    assert_eq!(state.monsters, 0);
    assert_eq!(spawned, 2);
    assert_eq!(state.map.objects[0], at(Object::Spawner(Spawner::new(4, 0)), 0, 0));
}

#[test]
fn spawner_countdown_stalls_at_zero_without_budget() {
    let mut state = lane(1);
    state.monsters = 0;
    for _ in 0..3 {
        assert_eq!(handle_run(&mut state), Ok(()));
        assert_eq!(state.map.objects[0], at(Object::Spawner(Spawner::new(4, 0)), 0, 0));
        assert_eq!(state.map.objects.len(), 2);
        assert_eq!(state.monsters, 0);
    }
}

#[test]
fn collectors_are_found_in_order() {
    let objs = vec![
        at(Object::Collector(Collector::new(1)), 3, 1),
        at(monster(5), 3, 1),
        at(Object::Collector(Collector::new(2)), 0, 2),
    ];
    let cells = find_collectors(&objs);
    assert_eq!(cells, vec![RectCoordinate::new(3, 1), RectCoordinate::new(0, 2)]);
    assert!(contains_cell(&cells, &RectCoordinate::new(0, 2)));
    assert!(!contains_cell(&cells, &RectCoordinate::new(2, 0)));
}

#[test]
fn drift_follows_the_feature_or_idles() {
    let mut map = TileMap::new(4, 4).unwrap();
    map.set_feature(5, Some(RectDirection::Bottom)).unwrap();
    assert_eq!(drift(&map, &RectCoordinate::new(1, 1)), RectCoordinate::new(1, 2));
    assert_eq!(drift(&map, &RectCoordinate::new(1, 2)), RectCoordinate::new(1, 2));
}

#[test]
fn reward_beyond_damage_is_credited() {
    let mut map = TileMap::new(4, 4).unwrap();
    map.spawn_at(Object::Collector(Collector::new(5)), RectCoordinate::new(1, 1)).unwrap();
    map.spawn_at(Object::Dropped(Dropped::new(10)), RectCoordinate::new(1, 1)).unwrap();
    map.spawn_at(monster(3), RectCoordinate::new(1, 1)).unwrap();
    map.spawn_at(Object::Dropped(Dropped::new(10)), RectCoordinate::new(2, 2)).unwrap();
    let mut state = arena(map);
    let swept = sweep(&state.map, state.terminates, state.monsters);
    assert_eq!(swept.reward, 10);
    assert_eq!(swept.damage, 3);
    assert_eq!(handle_run(&mut state), Ok(()));
    assert_eq!(state.treasure, 107);
    assert_eq!(state.terminates, 18);
    assert_eq!(state.hp, 0);
    assert_eq!(
        state.map.objects,
        vec![
            at(Object::Collector(Collector::new(5)), 1, 1),
            at(Object::Dropped(Dropped::new(10)), 2, 2),
        ]
    );
}

#[test]
fn damage_beyond_reward_costs_nothing() {
    let mut map = TileMap::new(4, 4).unwrap();
    map.spawn_at(Object::Collector(Collector::new(5)), RectCoordinate::new(1, 1)).unwrap();
    map.spawn_at(Object::Dropped(Dropped::new(2)), RectCoordinate::new(1, 1)).unwrap();
    map.spawn_at(monster(30), RectCoordinate::new(1, 1)).unwrap();
    let mut state = arena(map);
    assert_eq!(handle_run(&mut state), Ok(()));
    assert_eq!(state.treasure, 100);
    assert_eq!(state.terminates, 18);
    assert_eq!(state.map.objects.len(), 1);
}

#[test]
fn terminations_stop_at_zero() {
    let mut map = TileMap::new(4, 4).unwrap();
    map.spawn_at(Object::Collector(Collector::new(5)), RectCoordinate::new(1, 1)).unwrap();
    for _ in 0..3 {
        map.spawn_at(Object::Dropped(Dropped::new(1)), RectCoordinate::new(1, 1)).unwrap();
    }
    let mut state = arena(map);
    state.terminates = 2;
    assert_eq!(handle_run(&mut state), Ok(()));
    assert_eq!(state.terminates, 0);
    assert_eq!(state.treasure, 103);
}

#[test]
fn tick_refuses_a_treasure_that_does_not_fit() {
    let mut map = TileMap::new(4, 4).unwrap();
    map.spawn_at(Object::Collector(Collector::new(5)), RectCoordinate::new(1, 1)).unwrap();
    map.spawn_at(Object::Dropped(Dropped::new(10)), RectCoordinate::new(1, 1)).unwrap();
    let mut state = arena(map);
    state.treasure = u64::MAX - 9;
    assert_eq!(handle_run(&mut state), Err(GameError::ArithmeticOverflow));
    assert_eq!(state.treasure, u64::MAX - 9);
    assert_eq!(state.map.objects.len(), 2);
    assert_eq!(state.terminates, 20);
    state.treasure = u64::MAX - 10;
    assert_eq!(handle_run(&mut state), Ok(()));
    assert_eq!(state.treasure, u64::MAX);
}

#[test]
fn towers_cool_down_by_one() {
    let mut objs = vec![
        at(tower(1, 4, 0, RectDirection::Top), 0, 0),
        at(tower(1, 4, 1, RectDirection::Top), 1, 0),
        at(tower(1, 4, 3, RectDirection::Top), 2, 0),
        at(monster(4), 3, 0),
    ];
    let ready = cool_towers(&mut objs);
    assert_eq!(ready, vec![true, false, false, false]);
    assert_eq!(
        objs,
        vec![
            at(tower(1, 4, 0, RectDirection::Top), 0, 0),
            at(tower(1, 4, 0, RectDirection::Top), 1, 0),
            at(tower(1, 4, 2, RectDirection::Top), 2, 0),
            at(monster(4), 3, 0),
        ]
    );
}

#[test]
fn range_is_the_distance_straight_ahead() {
    let t = Tower::new(1, 4, RectDirection::Right);
    let src = RectCoordinate::new(2, 2);
    assert_eq!(t.range(&src, &RectCoordinate::new(5, 2)), 3);
    assert_eq!(t.range(&src, &RectCoordinate::new(1, 2)), usize::MAX);
    assert_eq!(t.range(&src, &RectCoordinate::new(5, 3)), usize::MAX);
    assert_eq!(t.range(&src, &src), usize::MAX);
}

#[test]
fn target_is_the_nearest_monster_and_the_first_among_equals() {
    let t = Tower::new(1, 4, RectDirection::Right);
    let src = RectCoordinate::new(2, 2);
    let objs = vec![
        at(monster(9), 7, 2),
        at(Object::Dropped(Dropped::new(10)), 3, 2),
        at(monster(8), 5, 2),
        at(monster(7), 5, 2),
        at(monster(6), 1, 2),
    ];
    assert_eq!(find_target(&objs, &t, &src), Some(2));
    assert_eq!(find_target(&objs, &Tower::new(1, 4, RectDirection::Left), &src), Some(4));
    assert_eq!(find_target(&objs, &Tower::new(1, 4, RectDirection::Top), &src), None);
    assert_eq!(find_target(&vec![], &t, &src), None);
}

#[test]
fn only_ready_towers_aim() {
    let objs = vec![
        at(tower(1, 4, 0, RectDirection::Right), 0, 0),
        at(tower(1, 4, 0, RectDirection::Right), 0, 1),
        at(monster(5), 3, 0),
        at(monster(5), 3, 1),
    ];
    let targets = aim(&objs, &vec![true, false, false, false]);
    assert_eq!(targets, vec![Some(2), None, None, None]);
}

#[test]
fn a_shot_that_is_not_lethal_hurts_and_is_reported() {
    let mut map = TileMap::new(8, 4).unwrap();
    map.spawn_at(tower(3, 2, 0, RectDirection::Right), RectCoordinate::new(2, 2)).unwrap();
    map.spawn_at(monster(10), RectCoordinate::new(5, 2)).unwrap();
    let mut state = arena(map);
    state.events = vec![Event::Attack((9, 9), (9, 9), 0)];
    assert_eq!(handle_run(&mut state), Ok(()));
    assert_eq!(
        state.map.objects,
        vec![at(tower(3, 2, 2, RectDirection::Right), 2, 2), at(monster(7), 5, 2)]
    );
    assert_eq!(state.events, vec![Event::Attack((2, 2), (5, 2), 0)]);
    assert_eq!(handle_run(&mut state), Ok(()));
    assert_eq!(
        state.map.objects,
        vec![at(tower(3, 2, 1, RectDirection::Right), 2, 2), at(monster(7), 5, 2)]
    );
    assert!(state.events.is_empty());
    assert_eq!(handle_run(&mut state), Ok(()));
    assert_eq!(state.map.objects[0], at(tower(3, 2, 0, RectDirection::Right), 2, 2));
    assert_eq!(handle_run(&mut state), Ok(()));
    assert_eq!(
        state.map.objects,
        vec![at(tower(3, 2, 2, RectDirection::Right), 2, 2), at(monster(4), 5, 2)]
    );
    assert_eq!(state.events, vec![Event::Attack((2, 2), (5, 2), 0)]);
}

#[test]
fn a_lethal_shot_floors_at_zero_and_leaves_a_reward() {
    let mut map = TileMap::new(8, 4).unwrap();
    map.spawn_at(monster(10), RectCoordinate::new(5, 2)).unwrap();
    map.spawn_at(monster(2), RectCoordinate::new(4, 2)).unwrap();
    map.spawn_at(tower(3, 2, 0, RectDirection::Right), RectCoordinate::new(2, 2)).unwrap();
    let mut state = arena(map);
    assert_eq!(handle_run(&mut state), Ok(()));
    assert_eq!(
        state.map.objects,
        vec![
            at(monster(10), 5, 2),
            at(tower(3, 2, 2, RectDirection::Right), 2, 2),
            at(Object::Dropped(Dropped::new(10)), 4, 2),
        ]
    );
    assert_eq!(state.events, vec![Event::Attack((2, 2), (4, 2), 0)]);
    assert_eq!(state.treasure, 100);
    assert_eq!(state.terminates, 20);
    for o in monsters_of(&state) {
        match o.object {
            Object::Monster(m) => assert!(m.hp > 0),
            _ => unreachable!(),
        }
    }
}

#[test]
fn a_tower_without_a_monster_in_range_stays_ready() {
    let mut map = TileMap::new(8, 4).unwrap();
    map.spawn_at(tower(3, 2, 0, RectDirection::Left), RectCoordinate::new(2, 2)).unwrap();
    map.spawn_at(monster(10), RectCoordinate::new(5, 2)).unwrap();
    let mut state = arena(map);
    assert_eq!(handle_run(&mut state), Ok(()));
    assert_eq!(
        state.map.objects,
        vec![at(tower(3, 2, 0, RectDirection::Left), 2, 2), at(monster(10), 5, 2)]
    );
    assert!(state.events.is_empty());
}

#[test]
fn monsters_move_before_towers_aim() {
    let mut map = TileMap::new(8, 4).unwrap();
    map.set_feature(8 + 5, Some(RectDirection::Bottom)).unwrap();
    map.spawn_at(tower(1, 1, 0, RectDirection::Right), RectCoordinate::new(2, 2)).unwrap();
    map.spawn_at(monster(10), RectCoordinate::new(5, 1)).unwrap();
    let mut state = arena(map);
    assert_eq!(handle_run(&mut state), Ok(()));
    assert_eq!(
        state.map.objects,
        vec![at(tower(1, 1, 1, RectDirection::Right), 2, 2), at(monster(9), 5, 2)]
    );
    assert_eq!(state.events, vec![Event::Attack((2, 2), (5, 2), 0)]);
}

#[test]
fn two_towers_on_one_monster_remove_it_once() {
    let objects = vec![
        at(tower(5, 3, 0, RectDirection::Right), 0, 0),
        at(monster(4), 3, 0),
        at(tower(5, 3, 0, RectDirection::Left), 6, 0),
        at(monster(9), 3, 1),
    ];
    let targets = vec![Some(1), None, Some(1), None];
    let fought = resolve(objects, &targets, vec![false; 4], vec![]);
    assert_eq!(fought.marks, vec![false, true, false, false]);
    assert_eq!(
        fought.objects,
        vec![
            at(tower(5, 3, 3, RectDirection::Right), 0, 0),
            at(monster(0), 3, 0),
            at(tower(5, 3, 3, RectDirection::Left), 6, 0),
            at(monster(9), 3, 1),
        ]
    );
    assert_eq!(
        fought.spawned,
        vec![at(Object::Dropped(Dropped::new(10)), 3, 0), at(Object::Dropped(Dropped::new(10)), 3, 0)]
    );
    assert_eq!(
        fought.events,
        vec![Event::Attack((0, 0), (3, 0), 0), Event::Attack((6, 0), (3, 0), 0)]
    );
}

#[test]
fn removal_keeps_the_order_and_new_entities_come_last() {
    let mut map = TileMap::new(8, 4).unwrap();
    map.spawn_at(Object::Collector(Collector::new(5)), RectCoordinate::new(7, 3)).unwrap();
    map.spawn_at(monster(1), RectCoordinate::new(3, 0)).unwrap();
    map.spawn_at(Object::Spawner(Spawner::new(6, 0)), RectCoordinate::new(0, 3)).unwrap();
    map.spawn_at(monster(6), RectCoordinate::new(7, 3)).unwrap();
    map.spawn_at(tower(1, 2, 0, RectDirection::Right), RectCoordinate::new(0, 0)).unwrap();
    map.spawn_at(Object::Dropped(Dropped::new(10)), RectCoordinate::new(7, 3)).unwrap();
    map.spawn_at(monster(8), RectCoordinate::new(6, 1)).unwrap();
    let mut state = arena(map);
    assert_eq!(handle_run(&mut state), Ok(()));
    assert_eq!(
        state.map.objects,
        vec![
            at(Object::Collector(Collector::new(5)), 7, 3),
            at(Object::Spawner(Spawner::new(6, 6)), 0, 3),
            at(tower(1, 2, 2, RectDirection::Right), 0, 0),
            at(monster(8), 6, 1),
            at(monster(10), 0, 3),
            at(Object::Dropped(Dropped::new(10)), 3, 0),
        ]
    );
    assert_eq!(state.treasure, 104);
    assert_eq!(state.terminates, 18);
    assert_eq!(state.monsters, 19);
    assert_eq!(state.events, vec![Event::Attack((0, 0), (3, 0), 0)]);
}

#[test]
fn monster_hit_stops_at_zero() {
    assert_eq!(Monster::new(10, 1, 1).hit(3), Monster::new(7, 1, 1));
    assert_eq!(Monster::new(3, 1, 1).hit(3), Monster::new(0, 1, 1));
    assert_eq!(Monster::new(2, 1, 1).hit(3), Monster::new(0, 1, 1));
}
