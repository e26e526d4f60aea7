//! The tiled grid and the entities that stand on it.

use vstd::prelude::*;
use crate::coordinate::RectCoordinate;
use crate::coordinate::RectDirection;
use crate::error::GameError;
use crate::object::Object;

verus! {

/// One cell of the grid. Its flow feature, where it has one, is the
/// direction in which whatever walks over the cell takes its next step.
#[derive(Clone, Copy, Debug, PartialEq, Eq, Structural)]
pub struct Tile {
    pub position: RectCoordinate,
    pub feature: Option<RectDirection>,
}

/// An entity and the cell it stands on.
#[derive(Clone, Copy, Debug, PartialEq, Eq, Structural)]
pub struct PositionedObject {
    pub object: Object,
    pub position: RectCoordinate,
}

/// A grid of `width * height` tiles, stored row by row, and the entities
/// on it in the order in which they arrived.
#[derive(Clone, Debug)]
pub struct TileMap {
    pub width: usize,
    pub height: usize,
    pub tiles: Vec<Tile>,
    pub objects: Vec<PositionedObject>,
}

impl Tile {
    pub fn new(position: RectCoordinate, feature: Option<RectDirection>) -> (t: Self)
        ensures
            t == (Tile { position, feature }),
    {
        Tile { position, feature }
    }
}

impl PositionedObject {
    pub fn new(object: Object, position: RectCoordinate) -> (p: Self)
        ensures
            p == (PositionedObject { object, position }),
    {
        PositionedObject { object, position }
    }
}

/// The cell of the tile with index `idx` on a grid `width` cells wide.
pub open spec fn cell_of_index(width: usize, idx: int) -> RectCoordinate {
    RectCoordinate { x: (idx % (width as int)) as usize, y: (idx / (width as int)) as usize }
}

/// The index of the tile on cell `c` of a grid `width` cells wide.
pub open spec fn index_of_cell(width: usize, c: RectCoordinate) -> int {
    c.x + c.y * width
}

/// The entities of `objs[0..n]` that `marks` leaves unmarked, in their order.
pub open spec fn retained(objs: Seq<PositionedObject>, marks: Seq<bool>, n: nat) -> Seq<
    PositionedObject,
>
    decreases n,
{
    if n == 0 {
        Seq::empty()
    } else {
        let before = retained(objs, marks, (n - 1) as nat);
        if marks[n - 1] {
            before
        } else {
            before.push(objs[n - 1])
        }
    }
}

/// On a grid of `width * height` cells, the index of a cell is below
/// `width * height` and leads back to the cell.
pub proof fn lemma_cell_index_cell(width: usize, height: usize, c: RectCoordinate)
    requires
        c.x < width,
        c.y < height,
    ensures
        0 <= index_of_cell(width, c) < width * height,
        cell_of_index(width, index_of_cell(width, c)) == c,
{
    let w = width as int;
    let x = c.x as int;
    let y = c.y as int;
    assert(x + y * w < w * (height as int)) by (nonlinear_arith)
        requires
            0 <= x < w,
            0 <= y < height as int,
    ;
    assert(0 <= y * w) by (nonlinear_arith)
        requires
            0 <= y,
            0 <= w,
    ;
    vstd::arithmetic::div_mod::lemma_fundamental_div_mod_converse(x + y * w, w, y, x);
}

/// On a grid of `width * height` cells, the cell of an index below
/// `width * height` lies on the grid and leads back to the index.
pub proof fn lemma_index_cell_index(width: usize, height: usize, idx: int)
    requires
        0 <= idx < width * height,
    ensures
        cell_of_index(width, idx).x < width,
        cell_of_index(width, idx).y < height,
        index_of_cell(width, cell_of_index(width, idx)) == idx,
{
    let w = width as int;
    let h = height as int;
    assert(w > 0) by (nonlinear_arith)
        requires
            0 <= idx < w * h,
            0 <= w,
            0 <= h,
    ;
    vstd::arithmetic::div_mod::lemma_fundamental_div_mod(idx, w);
    assert(0 <= idx % w < w);
    assert(0 <= idx / w < h) by (nonlinear_arith)
        requires
            0 <= idx < w * h,
            w > 0,
            idx == w * (idx / w) + idx % w,
            0 <= idx % w < w,
    ;
    assert(w * (idx / w) == (idx / w) * w) by (nonlinear_arith);
}

impl TileMap {
    /// Whether `c` is a cell of the grid.
    pub open spec fn in_bounds(self, c: RectCoordinate) -> bool {
        c.x < self.width && c.y < self.height
    }

    /// The cell of the tile with index `idx`.
    pub open spec fn spec_coordinate_of(self, idx: int) -> RectCoordinate {
        cell_of_index(self.width, idx)
    }

    /// The index of the tile on cell `c`.
    pub open spec fn spec_index_of(self, c: RectCoordinate) -> int {
        index_of_cell(self.width, c)
    }

    /// Whether the tile with index `idx` may carry `feature`: a flow
    /// feature must lead to a cell of the grid.
    pub open spec fn feature_fits(self, idx: int, feature: Option<RectDirection>) -> bool {
        match feature {
            None => true,
            Some(d) => self.spec_coordinate_of(idx).can_step(d) && self.in_bounds(
                self.spec_coordinate_of(idx).spec_adjacent(d),
            ),
        }
    }

    /// The grid is complete, every tile knows its cell, every flow feature
    /// leads to a cell of the grid, and every entity stands on the grid.
    pub open spec fn wf(self) -> bool {
        &&& self.tiles@.len() == self.width * self.height
        &&& forall|i: int|
            0 <= i < self.tiles@.len() ==> (#[trigger] self.tiles@[i]).position
                == self.spec_coordinate_of(i) && self.feature_fits(i, self.tiles@[i].feature)
        &&& forall|j: int|
            0 <= j < self.objects@.len() ==> self.in_bounds((#[trigger] self.objects@[j]).position)
    }

    /// The flow feature under cell `c`.
    pub open spec fn spec_feature_at(self, c: RectCoordinate) -> Option<RectDirection> {
        self.tiles@[self.spec_index_of(c)].feature
    }

    /// An empty grid without flow features, or `None` where `width * height`
    /// does not fit in a `usize`.
    pub fn new(width: usize, height: usize) -> (r: Option<TileMap>)
        ensures
            r is Some <==> width * height <= usize::MAX,
            r matches Some(m) ==> m.wf() && m.width == width && m.height == height
                && m.objects@.len() == 0 && forall|i: int|
                0 <= i < m.tiles@.len() ==> (#[trigger] m.tiles@[i]).feature is None,
    {
        let total: usize = match width.checked_mul(height) {
            Some(t) => t,
            None => {
                return None;
            },
        };
        let mut tiles: Vec<Tile> = Vec::new();
        let mut i: usize = 0;
        while i < total
            invariant
                i <= total,
                total == width * height,
                tiles@.len() == i,
                forall|k: int|
                    0 <= k < i ==> (#[trigger] tiles@[k]) == (Tile {
                        position: cell_of_index(width, k),
                        feature: None,
                    }),
            decreases total - i,
        {
            proof {
                lemma_index_cell_index(width, height, i as int);
            }
            tiles.push(Tile::new(RectCoordinate::new(i % width, i / width), None));
            i += 1;
        }
        Some(TileMap { width, height, tiles, objects: Vec::new() })
    }

    /// Whether a tile on cell `c` may carry `feature`.
    pub fn leads_inside(&self, c: &RectCoordinate, feature: Option<RectDirection>) -> (fits: bool)
        requires
            self.in_bounds(*c),
        ensures
            fits == match feature {
                None => true,
                Some(d) => c.can_step(d) && self.in_bounds(c.spec_adjacent(d)),
            },
    {
        match feature {
            None => true,
            Some(RectDirection::Top) => c.y > 0,
            Some(RectDirection::Bottom) => c.y + 1 < self.height,
            Some(RectDirection::Left) => c.x > 0,
            Some(RectDirection::Right) => c.x + 1 < self.width,
        }
    }

    /// Whether the map is well formed.
    pub fn is_valid(&self) -> (ok: bool)
        ensures
            ok == self.wf(),
    {
        let count: usize = self.tiles.len();
        let total: usize = match self.width.checked_mul(self.height) {
            Some(t) => t,
            None => {
                return false;
            },
        };
        if count != total {
            return false;
        }
        let mut i: usize = 0;
        while i < total
            invariant
                total == self.width * self.height,
                total == self.tiles@.len(),
                i <= total,
                forall|k: int|
                    0 <= k < i ==> (#[trigger] self.tiles@[k]).position == self.spec_coordinate_of(k)
                        && self.feature_fits(k, self.tiles@[k].feature),
            decreases total - i,
        {
            proof {
                lemma_index_cell_index(self.width, self.height, i as int);
            }
            let c = RectCoordinate::new(i % self.width, i / self.width);
            let t = self.tiles[i];
            if t.position.x != c.x || t.position.y != c.y || !self.leads_inside(&c, t.feature) {
                assert(!(self.tiles@[i as int].position == self.spec_coordinate_of(i as int)
                    && self.feature_fits(i as int, self.tiles@[i as int].feature)));
                return false;
            }
            i += 1;
        }
        let mut j: usize = 0;
        while j < self.objects.len()
            invariant
                j <= self.objects@.len(),
                forall|k: int| 0 <= k < j ==> self.in_bounds((#[trigger] self.objects@[k]).position),
            decreases self.objects@.len() - j,
        {
            let o = self.objects[j];
            if o.position.x >= self.width || o.position.y >= self.height {
                assert(!self.in_bounds(self.objects@[j as int].position));
                return false;
            }
            j += 1;
        }
        true
    }

    /// The cell of the tile with index `idx`.
    pub fn coordinate_of_tile_index(&self, idx: usize) -> (c: RectCoordinate)
        requires
            self.width > 0,
        ensures
            c == self.spec_coordinate_of(idx as int),
            self.wf() && idx < self.tiles@.len() ==> self.in_bounds(c) && self.spec_index_of(c)
                == idx,
    {
        proof {
            if self.wf() && idx < self.tiles@.len() {
                lemma_index_cell_index(self.width, self.height, idx as int);
            }
        }
        RectCoordinate::new(idx % self.width, idx / self.width)
    }

    /// The index of the tile on cell `c`.
    pub fn index_of_tile_coordinate(&self, c: &RectCoordinate) -> (idx: usize)
        requires
            self.wf(),
            self.in_bounds(*c),
        ensures
            idx == self.spec_index_of(*c),
            idx < self.tiles@.len(),
            self.spec_coordinate_of(idx as int) == *c,
    {
        let total: usize = self.tiles.len();
        proof {
            lemma_cell_index_cell(self.width, self.height, *c);
            assert(self.width * self.height == total);
            assert(0 <= c.y * self.width) by (nonlinear_arith)
                requires
                    0 <= c.y,
                    0 <= self.width,
            ;
        }
        c.x + c.y * self.width
    }

    /// The flow feature of the tile with index `idx`.
    pub fn get_feature(&self, idx: usize) -> (f: Option<RectDirection>)
        requires
            idx < self.tiles@.len(),
        ensures
            f == self.tiles@[idx as int].feature,
    {
        self.tiles[idx].feature
    }

    /// Sets or clears the flow feature of the tile with index `idx`. A
    /// tile that does not exist, or a feature that leads off the grid, is
    /// refused and the map stays as it was.
    pub fn set_feature(&mut self, idx: usize, feature: Option<RectDirection>) -> (r: Result<
        (),
        GameError,
    >)
        requires
            old(self).wf(),
        ensures
            final(self).wf(),
            r is Ok <==> idx < old(self).tiles@.len() && old(self).feature_fits(idx as int, feature),
            r is Err ==> r == Err::<(), GameError>(GameError::InvalidReference) && *final(self)
                == *old(self),
            r is Ok ==> final(self).tiles@ == old(self).tiles@.update(
                idx as int,
                Tile { position: old(self).tiles@[idx as int].position, feature },
            ) && final(self).width == old(self).width && final(self).height == old(self).height
                && final(self).objects == old(self).objects,
    {
        if idx >= self.tiles.len() {
            return Err(GameError::InvalidReference);
        }
        proof {
            lemma_index_cell_index(self.width, self.height, idx as int);
        }
        let c = self.coordinate_of_tile_index(idx);
        if !self.leads_inside(&c, feature) {
            return Err(GameError::InvalidReference);
        }
        let position = self.tiles[idx].position;
        self.tiles.set(idx, Tile { position, feature });
        proof {
            assert(old(self).tiles@[idx as int].position == c);
            assert(self.feature_fits(idx as int, feature));
            assert forall|i: int| 0 <= i < self.tiles@.len() implies (#[trigger] self.tiles@[i]).position
                == self.spec_coordinate_of(i) && self.feature_fits(i, self.tiles@[i].feature) by {
                if i != idx {
                    assert(self.tiles@[i] == old(self).tiles@[i]);
                    assert(old(self).feature_fits(i, old(self).tiles@[i].feature));
                }
            }
        }
        Ok(())
    }

    /// Puts `object` on cell `position`, behind the entities that are
    /// there already. A cell off the grid is refused.
    pub fn spawn_at(&mut self, object: Object, position: RectCoordinate) -> (r: Result<
        (),
        GameError,
    >)
        requires
            old(self).wf(),
        ensures
            final(self).wf(),
            r is Ok <==> old(self).in_bounds(position),
            r is Err ==> r == Err::<(), GameError>(GameError::InvalidReference) && *final(self)
                == *old(self),
            r is Ok ==> final(self).objects@ == old(self).objects@.push(
                PositionedObject { object, position },
            ) && final(self).width == old(self).width && final(self).height == old(self).height
                && final(self).tiles == old(self).tiles,
    {
        self.spawn(PositionedObject { object, position })
    }

    /// Puts `entity` on the map, behind the entities that are there
    /// already. A cell off the grid is refused.
    pub fn spawn(&mut self, entity: PositionedObject) -> (r: Result<(), GameError>)
        requires
            old(self).wf(),
        ensures
            final(self).wf(),
            r is Ok <==> old(self).in_bounds(entity.position),
            r is Err ==> r == Err::<(), GameError>(GameError::InvalidReference) && *final(self)
                == *old(self),
            r is Ok ==> {
                &&& final(self).objects@ == old(self).objects@.push(entity)
                &&& final(self).width == old(self).width
                &&& final(self).height == old(self).height
                &&& final(self).tiles == old(self).tiles
            },
    {
        if entity.position.x >= self.width || entity.position.y >= self.height {
            return Err(GameError::InvalidReference);
        }
        self.objects.push(entity);
        proof {
            assert forall|j: int| 0 <= j < self.objects@.len() implies self.in_bounds(
                (#[trigger] self.objects@[j]).position,
            ) by {
                if j < old(self).objects@.len() {
                    assert(self.objects@[j] == old(self).objects@[j]);
                }
            }
        }
        Ok(())
    }

    /// Takes the entity at place `index` of the collection off the map;
    /// those behind it move up by one place.
    pub fn remove(&mut self, index: usize) -> (r: Result<(), GameError>)
        requires
            old(self).wf(),
        ensures
            final(self).wf(),
            r is Ok <==> index < old(self).objects@.len(),
            r is Err ==> r == Err::<(), GameError>(GameError::InvalidReference) && *final(self)
                == *old(self),
            r is Ok ==> {
                &&& final(self).objects@ == old(self).objects@.remove(index as int)
                &&& final(self).width == old(self).width
                &&& final(self).height == old(self).height
                &&& final(self).tiles == old(self).tiles
            },
    {
        if index >= self.objects.len() {
            return Err(GameError::InvalidReference);
        }
        self.objects.remove(index);
        proof {
            assert forall|j: int| 0 <= j < self.objects@.len() implies self.in_bounds(
                (#[trigger] self.objects@[j]).position,
            ) by {
                let k = if j < index {
                    j
                } else {
                    j + 1
                };
                assert(self.objects@[j] == old(self).objects@[k]);
            }
        }
        Ok(())
    }
}

/// Whether `o` is one of the entities of `objs` that `marks` leaves unmarked.
pub open spec fn is_kept(objs: Seq<PositionedObject>, marks: Seq<bool>, o: PositionedObject) -> bool {
    exists|j: int| 0 <= j < objs.len() && !marks[j] && #[trigger] objs[j] == o
}

/// The entities of `objs` that `marks` leaves unmarked, in their order.
pub fn keep_unmarked(objs: &Vec<PositionedObject>, marks: &Vec<bool>) -> (kept: Vec<
    PositionedObject,
>)
    requires
        marks@.len() == objs@.len(),
    ensures
        kept@ == retained(objs@, marks@, objs@.len()),
        kept@.len() <= objs@.len(),
        forall|k: int| 0 <= k < kept@.len() ==> is_kept(objs@, marks@, #[trigger] kept@[k]),
{
    let n: usize = objs.len();
    let mut kept: Vec<PositionedObject> = Vec::new();
    let mut i: usize = 0;
    while i < n
        invariant
            n == objs@.len(),
            n == marks@.len(),
            i <= n,
            kept@ == retained(objs@, marks@, i as nat),
            kept@.len() <= i,
            forall|k: int| 0 <= k < kept@.len() ==> is_kept(objs@, marks@, #[trigger] kept@[k]),
        decreases n - i,
    {
        if !marks[i] {
            kept.push(objs[i]);
            assert(is_kept(objs@, marks@, objs@[i as int]));
        }
        i += 1;
    }
    kept
}

} // verus!
