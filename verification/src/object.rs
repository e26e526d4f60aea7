//! The entities that live on the map.

use vstd::prelude::*;
use crate::coordinate::RectCoordinate;
use crate::coordinate::RectDirection;
use crate::config::UPGRADE_MODIFIER;

verus! {

/// Walks along the flow features towards a collector.
#[derive(Clone, Copy, Debug, PartialEq, Eq, Structural)]
pub struct Monster {
    pub hp: u64,
    pub speed: u64,
    pub power: u64,
}

/// Fires along a straight line in the direction it faces.
#[derive(Clone, Copy, Debug, PartialEq, Eq, Structural)]
pub struct Tower {
    /// Hit points taken from the target by one shot.
    pub power: u64,
    /// Ticks between two shots.
    pub cooldown: u64,
    /// Ticks until the tower is ready again; zero means ready.
    pub count: u64,
    pub direction: RectDirection,
}

/// Introduces a new monster every `rate` ticks.
#[derive(Clone, Copy, Debug, PartialEq, Eq, Structural)]
pub struct Spawner {
    pub rate: u64,
    /// Ticks until the next monster; zero means ready.
    pub count: u64,
}

/// Consumes monsters and dropped rewards that stand on its cell.
#[derive(Clone, Copy, Debug, PartialEq, Eq, Structural)]
pub struct Collector {
    pub capacity: u64,
}

/// A reward left behind by a defeated monster.
#[derive(Clone, Copy, Debug, PartialEq, Eq, Structural)]
pub struct Dropped {
    pub delta: u64,
}

#[derive(Clone, Copy, Debug, PartialEq, Eq, Structural)]
pub enum Object {
    Monster(Monster),
    Tower(Tower),
    Spawner(Spawner),
    Collector(Collector),
    Dropped(Dropped),
}

impl Monster {
    pub fn new(hp: u64, speed: u64, power: u64) -> (m: Self)
        ensures
            m == (Monster { hp, speed, power }),
    {
        Monster { hp, speed, power }
    }

    /// The monster after a shot of strength `power`: its hit points go
    /// down by `power` and stop at zero.
    pub open spec fn spec_hit(self, power: u64) -> Monster {
        Monster {
            hp: if self.hp < power {
                0
            } else {
                (self.hp - power) as u64
            },
            speed: self.speed,
            power: self.power,
        }
    }

    pub fn hit(&self, power: u64) -> (m: Self)
        ensures
            m == self.spec_hit(power),
            m.hp <= self.hp,
            m.hp > 0 <==> self.hp > power,
    {
        Monster {
            hp: if self.hp < power {
                0
            } else {
                self.hp - power
            },
            speed: self.speed,
            power: self.power,
        }
    }
}

impl Tower {
    /// A tower that is ready to fire.
    pub fn new(power: u64, cooldown: u64, direction: RectDirection) -> (t: Self)
        ensures
            t == (Tower { power, cooldown, count: 0, direction }),
    {
        Tower { power, cooldown, count: 0, direction }
    }

    /// How far `target` is from a tower that stands on `src`: the number of
    /// cells between them when the target lies straight ahead of the tower,
    /// and `usize::MAX`, which stands for out of range, everywhere else.
    pub open spec fn spec_range(self, src: RectCoordinate, target: RectCoordinate) -> usize {
        match src.spec_ahead(self.direction, target) {
            Some(d) => d,
            None => usize::MAX,
        }
    }

    pub fn range(&self, src: &RectCoordinate, target: &RectCoordinate) -> (r: usize)
        ensures
            r == self.spec_range(*src, *target),
    {
        match src.ahead(self.direction, target) {
            Some(d) => d,
            None => usize::MAX,
        }
    }

    pub open spec fn can_upgrade(self) -> bool {
        self.power * UPGRADE_MODIFIER <= u64::MAX
    }

    /// The tower one upgrade later: its power is multiplied by
    /// [`UPGRADE_MODIFIER`], the rest stays.
    pub open spec fn spec_upgraded(self) -> Tower {
        Tower {
            power: (self.power * UPGRADE_MODIFIER) as u64,
            cooldown: self.cooldown,
            count: self.count,
            direction: self.direction,
        }
    }

    /// The upgraded tower, or `None` where its power would not fit.
    pub fn upgraded(&self) -> (r: Option<Tower>)
        ensures
            r == if self.can_upgrade() {
                Some(self.spec_upgraded())
            } else {
                None
            },
    {
        match self.power.checked_mul(UPGRADE_MODIFIER) {
            Some(power) => Some(
                Tower { power, cooldown: self.cooldown, count: self.count, direction: self.direction },
            ),
            None => None,
        }
    }
}

impl Spawner {
    pub fn new(rate: u64, count: u64) -> (s: Self)
        ensures
            s == (Spawner { rate, count }),
    {
        Spawner { rate, count }
    }
}

impl Collector {
    pub fn new(capacity: u64) -> (c: Self)
        ensures
            c == (Collector { capacity }),
    {
        Collector { capacity }
    }
}

impl Dropped {
    pub fn new(delta: u64) -> (d: Self)
        ensures
            d == (Dropped { delta }),
    {
        Dropped { delta }
    }
}

impl Object {
    pub open spec fn can_upgrade(self) -> bool {
        match self {
            Object::Tower(t) => t.can_upgrade(),
            _ => true,
        }
    }

    /// An upgrade strengthens a tower and leaves every other entity as it is.
    pub open spec fn spec_upgraded(self) -> Object {
        match self {
            Object::Tower(t) => Object::Tower(t.spec_upgraded()),
            _ => self,
        }
    }

    /// The upgraded entity, or `None` where a tower's power would not fit.
    pub fn upgraded(&self) -> (r: Option<Object>)
        ensures
            r == if self.can_upgrade() {
                Some(self.spec_upgraded())
            } else {
                None
            },
    {
        match self {
            Object::Tower(t) => match t.upgraded() {
                Some(u) => Some(Object::Tower(u)),
                None => None,
            },
            _ => Some(*self),
        }
    }
}

} // verus!
