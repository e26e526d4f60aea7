use tower_defense::coordinate::RectCoordinate;
use tower_defense::coordinate::RectDirection;
use tower_defense::error::GameError;
use tower_defense::map::keep_unmarked;
use tower_defense::map::PositionedObject;
use tower_defense::map::TileMap;
use tower_defense::object::Dropped;
use tower_defense::object::Object;
use tower_defense::state::cor_to_index;

fn grid_token(n: u64) -> Object {
    Object::Dropped(Dropped::new(n))
}

fn grid_with_tokens(count: u64) -> TileMap {
    let mut map = TileMap::new(12, 8).unwrap();
    for n in 0..count {
        map.spawn_at(grid_token(n), RectCoordinate::new(n as usize, 0)).unwrap();
    }
    map
}

fn grid_payloads(map: &TileMap) -> Vec<u64> {
    map.objects
        .iter()
        .map(|o| match o.object {
            Object::Dropped(d) => d.delta,
            _ => u64::MAX,
        })
        .collect()
}

#[test]
fn index_and_coordinate_are_inverse_on_every_cell() {
    let map = TileMap::new(12, 8).unwrap();
    for y in 0..8usize {
        for x in 0..12usize {
            let c = RectCoordinate::new(x, y);
            let idx = map.index_of_tile_coordinate(&c);
            assert_eq!(idx, x + y * 12);
            assert_eq!(map.coordinate_of_tile_index(idx), c);
        }
    }
    for idx in 0..96usize {
        let c = map.coordinate_of_tile_index(idx);
        assert!(c.x < 12 && c.y < 8);
        assert_eq!(map.index_of_tile_coordinate(&c), idx);
    }
}

#[test]
fn coordinate_of_index_walks_row_by_row() {
    let map = TileMap::new(12, 8).unwrap();
    assert_eq!(map.coordinate_of_tile_index(0), RectCoordinate::new(0, 0));
    assert_eq!(map.coordinate_of_tile_index(11), RectCoordinate::new(11, 0));
    assert_eq!(map.coordinate_of_tile_index(12), RectCoordinate::new(0, 1));
    assert_eq!(map.coordinate_of_tile_index(95), RectCoordinate::new(11, 7));
}

#[test]
fn cor_to_index_counts_rows_of_twelve() {
    assert_eq!(cor_to_index(0, 0), 0);
    assert_eq!(cor_to_index(2, 1), 14);
    assert_eq!(cor_to_index(10, 7), 94);
}

#[test]
fn new_map_has_all_tiles_and_no_features() {
    let map = TileMap::new(12, 8).unwrap();
    assert_eq!(map.width, 12);
    assert_eq!(map.height, 8);
    assert_eq!(map.tiles.len(), 96);
    assert!(map.objects.is_empty());
    for (i, tile) in map.tiles.iter().enumerate() {
        assert_eq!(tile.feature, None);
        assert_eq!(tile.position, RectCoordinate::new(i % 12, i / 12));
    }
}

#[test]
fn new_map_refuses_a_size_that_does_not_fit() {
    assert!(TileMap::new(usize::MAX, 2).is_none());
    assert!(TileMap::new(0, 5).is_some());
}

#[test]
fn adjacent_steps_one_cell() {
    let c = RectCoordinate::new(4, 3);
    assert_eq!(c.adjacent(RectDirection::Top), RectCoordinate::new(4, 2));
    assert_eq!(c.adjacent(RectDirection::Bottom), RectCoordinate::new(4, 4));
    assert_eq!(c.adjacent(RectDirection::Left), RectCoordinate::new(3, 3));
    assert_eq!(c.adjacent(RectDirection::Right), RectCoordinate::new(5, 3));
    assert_eq!(c.repr(), (4, 3));
}

#[test]
fn ahead_measures_along_the_facing_line_only() {
    let c = RectCoordinate::new(4, 3);
    assert_eq!(c.ahead(RectDirection::Right, &RectCoordinate::new(7, 3)), Some(3));
    assert_eq!(c.ahead(RectDirection::Left, &RectCoordinate::new(7, 3)), None);
    assert_eq!(c.ahead(RectDirection::Left, &RectCoordinate::new(0, 3)), Some(4));
    assert_eq!(c.ahead(RectDirection::Top, &RectCoordinate::new(4, 1)), Some(2));
    assert_eq!(c.ahead(RectDirection::Bottom, &RectCoordinate::new(4, 7)), Some(4));
    assert_eq!(c.ahead(RectDirection::Bottom, &RectCoordinate::new(5, 7)), None);
    assert_eq!(c.ahead(RectDirection::Right, &c), None);
}

#[test]
fn set_feature_sets_and_clears() {
    let mut map = TileMap::new(12, 8).unwrap();
    assert_eq!(map.set_feature(14, Some(RectDirection::Bottom)), Ok(()));
    assert_eq!(map.get_feature(14), Some(RectDirection::Bottom));
    assert_eq!(map.tiles[14].position, RectCoordinate::new(2, 1));
    assert_eq!(map.get_feature(13), None);
    assert_eq!(map.set_feature(14, None), Ok(()));
    assert_eq!(map.get_feature(14), None);
}

#[test]
fn set_feature_refuses_a_missing_tile_and_a_step_off_the_grid() {
    let mut map = TileMap::new(12, 8).unwrap();
    assert_eq!(map.set_feature(96, Some(RectDirection::Top)), Err(GameError::InvalidReference));
    assert_eq!(map.set_feature(0, Some(RectDirection::Top)), Err(GameError::InvalidReference));
    assert_eq!(map.set_feature(0, Some(RectDirection::Left)), Err(GameError::InvalidReference));
    assert_eq!(map.set_feature(11, Some(RectDirection::Right)), Err(GameError::InvalidReference));
    assert_eq!(map.set_feature(95, Some(RectDirection::Bottom)), Err(GameError::InvalidReference));
    assert_eq!(map.set_feature(95, Some(RectDirection::Top)), Ok(()));
    for (i, tile) in map.tiles.iter().enumerate() {
        assert_eq!(tile.feature, if i == 95 { Some(RectDirection::Top) } else { None });
    }
}

#[test]
fn spawn_appends_without_dedup() {
    let mut map = TileMap::new(12, 8).unwrap();
    let cell = RectCoordinate::new(3, 3);
    assert_eq!(map.spawn_at(grid_token(1), cell), Ok(()));
    assert_eq!(map.spawn(PositionedObject::new(grid_token(2), cell)), Ok(()));
    assert_eq!(map.spawn_at(grid_token(1), cell), Ok(()));
    assert_eq!(grid_payloads(&map), vec![1, 2, 1]);
    assert!(map.objects.iter().all(|o| o.position == cell));
}

#[test]
fn spawn_refuses_a_cell_off_the_grid() {
    let mut map = TileMap::new(12, 8).unwrap();
    assert_eq!(
        map.spawn_at(grid_token(1), RectCoordinate::new(12, 0)),
        Err(GameError::InvalidReference)
    );
    assert_eq!(
        map.spawn(PositionedObject::new(grid_token(1), RectCoordinate::new(0, 8))),
        Err(GameError::InvalidReference)
    );
    assert!(map.objects.is_empty());
}

#[test]
fn remove_shifts_what_comes_behind() {
    let mut map = grid_with_tokens(4);
    assert_eq!(map.remove(1), Ok(()));
    assert_eq!(grid_payloads(&map), vec![0, 2, 3]);
    assert_eq!(map.remove(3), Err(GameError::InvalidReference));
    assert_eq!(grid_payloads(&map), vec![0, 2, 3]);
}

#[test]
fn removal_in_descending_order_is_index_safe() {
    let mut map = grid_with_tokens(10);
    for idx in [7usize, 5, 2] {
        assert_eq!(map.remove(idx), Ok(()));
    }
    assert_eq!(grid_payloads(&map), vec![0, 1, 3, 4, 6, 8, 9]);

    for order in [[5usize, 2, 7], [2, 5, 7], [7, 2, 5], [2, 7, 5], [5, 7, 2], [7, 5, 2]] {
        let mut sorted = order.to_vec();
        sorted.sort();
        sorted.reverse();
        let mut one_pass = grid_with_tokens(10);
        for idx in sorted {
            assert_eq!(one_pass.remove(idx), Ok(()));
        }
        let fresh = grid_with_tokens(10);
        let mut marks = vec![false; 10];
        for idx in order {
            marks[idx] = true;
        }
        let kept = keep_unmarked(&fresh.objects, &marks);
        assert_eq!(one_pass.objects, kept);
        assert_eq!(grid_payloads(&one_pass), vec![0, 1, 3, 4, 6, 8, 9]);
    }
}

#[test]
fn keep_unmarked_keeps_order() {
    let map = grid_with_tokens(5);
    let kept = keep_unmarked(&map.objects, &vec![true, false, false, true, false]);
    let payloads: Vec<u64> = kept
        .iter()
        .map(|o| match o.object {
            Object::Dropped(d) => d.delta,
            _ => u64::MAX,
        })
        .collect();
    assert_eq!(payloads, vec![1, 2, 4]);
}

#[test]
fn remove_all_takes_the_named_places_in_any_order() {
    for order in [[5usize, 2, 7], [2, 5, 7], [7, 2, 5], [2, 7, 5], [5, 7, 2], [7, 5, 2]] {
        let mut map = grid_with_tokens(10);
        assert_eq!(map.remove_all(&order.to_vec()), Ok(()));
        assert_eq!(grid_payloads(&map), vec![0, 1, 3, 4, 6, 8, 9]);
    }
}

#[test]
fn remove_all_counts_a_place_once() {
    let mut map = grid_with_tokens(4);
    assert_eq!(map.remove_all(&vec![1, 1, 3, 1]), Ok(()));
    assert_eq!(grid_payloads(&map), vec![0, 2]);
    assert_eq!(map.remove_all(&vec![]), Ok(()));
    assert_eq!(grid_payloads(&map), vec![0, 2]);
}

#[test]
fn remove_all_refuses_a_missing_place() {
    let mut map = grid_with_tokens(4);
    assert_eq!(map.remove_all(&vec![0, 4]), Err(GameError::InvalidReference));
    assert_eq!(grid_payloads(&map), vec![0, 1, 2, 3]);
}

#[test]
fn is_valid_tells_a_well_formed_map() {
    let mut map = grid_with_tokens(3);
    map.set_feature(14, Some(RectDirection::Bottom)).unwrap();
    assert!(map.is_valid());

    let mut short = map.clone();
    short.tiles.pop();
    assert!(!short.is_valid());

    let mut misplaced = map.clone();
    misplaced.tiles[5].position = RectCoordinate::new(0, 0);
    assert!(!misplaced.is_valid());

    let mut leaving = map.clone();
    leaving.tiles[0].feature = Some(RectDirection::Top);
    assert!(!leaving.is_valid());

    let mut outside = map.clone();
    outside.objects[1].position = RectCoordinate::new(12, 0);
    assert!(!outside.is_valid());

    let mut huge = map.clone();
    huge.width = usize::MAX;
    assert!(!huge.is_valid());
}

#[test]
fn leads_inside_looks_one_cell_ahead() {
    let map = TileMap::new(12, 8).unwrap();
    let corner = RectCoordinate::new(11, 7);
    assert!(map.leads_inside(&corner, None));
    assert!(map.leads_inside(&corner, Some(RectDirection::Top)));
    assert!(map.leads_inside(&corner, Some(RectDirection::Left)));
    assert!(!map.leads_inside(&corner, Some(RectDirection::Right)));
    assert!(!map.leads_inside(&corner, Some(RectDirection::Bottom)));
}
