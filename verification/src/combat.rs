//! The second half of a tick: towers cool down, the ready ones pick the
//! nearest monster and fire.

use vstd::prelude::*;
use crate::config::DROP_REWARD;
use crate::coordinate::RectCoordinate;
use crate::event::Event;
use crate::map::PositionedObject;
use crate::object::Dropped;
use crate::object::Object;
use crate::object::Tower;

verus! {

/// A tower is ready to fire when its countdown has run out.
pub open spec fn is_ready(o: PositionedObject) -> bool {
    o.object matches Object::Tower(t) && t.count == 0
}

/// A tower that is not ready counts down by one; a ready tower and every
/// other entity stay as they are.
pub open spec fn cooled(o: PositionedObject) -> PositionedObject {
    match o.object {
        Object::Tower(t) => if t.count == 0 {
            o
        } else {
            PositionedObject {
                object: Object::Tower(
                    Tower {
                        power: t.power,
                        cooldown: t.cooldown,
                        count: (t.count - 1) as u64,
                        direction: t.direction,
                    },
                ),
                position: o.position,
            }
        },
        _ => o,
    }
}

pub open spec fn cooled_objects(objs: Seq<PositionedObject>) -> Seq<PositionedObject> {
    Seq::new(objs.len(), |i: int| cooled(objs[i]))
}

pub open spec fn ready_flags(objs: Seq<PositionedObject>) -> Seq<bool> {
    Seq::new(objs.len(), |i: int| is_ready(objs[i]))
}

/// Lets every tower that is not ready count down by one, and tells for
/// each place whether a ready tower stands there.
pub fn cool_towers(objs: &mut Vec<PositionedObject>) -> (ready: Vec<bool>)
    ensures
        final(objs)@ == cooled_objects(old(objs)@),
        ready@ == ready_flags(old(objs)@),
{
    let n: usize = objs.len();
    let mut ready: Vec<bool> = Vec::new();
    let mut i: usize = 0;
    while i < n
        invariant
            n == objs@.len(),
            n == old(objs)@.len(),
            i <= n,
            ready@.len() == i,
            forall|k: int| 0 <= k < i ==> #[trigger] objs@[k] == cooled(old(objs)@[k]),
            forall|k: int| i <= k < n ==> #[trigger] objs@[k] == old(objs)@[k],
            forall|k: int| 0 <= k < i ==> #[trigger] ready@[k] == is_ready(old(objs)@[k]),
        decreases n - i,
    {
        let o = objs[i];
        match o.object {
            Object::Tower(t) => {
                if t.count == 0 {
                    ready.push(true);
                } else {
                    ready.push(false);
                    objs.set(
                        i,
                        PositionedObject::new(
                            Object::Tower(
                                Tower {
                                    power: t.power,
                                    cooldown: t.cooldown,
                                    count: t.count - 1,
                                    direction: t.direction,
                                },
                            ),
                            o.position,
                        ),
                    );
                }
            },
            _ => {
                ready.push(false);
            },
        }
        i += 1;
    }
    assert(objs@ =~= cooled_objects(old(objs)@));
    assert(ready@ =~= ready_flags(old(objs)@));
    ready
}

/// The smallest range from a tower `tower` on cell `src` to a monster
/// among `objs[0..n]`, and the first place where a monster stands at that
/// range. With no monster in range these are `usize::MAX` and `None`.
pub open spec fn nearest(objs: Seq<PositionedObject>, tower: Tower, src: RectCoordinate, n: nat) -> (
    usize,
    Option<usize>,
)
    decreases n,
{
    if n == 0 {
        (usize::MAX, None)
    } else {
        let before = nearest(objs, tower, src, (n - 1) as nat);
        let r = tower.spec_range(src, objs[n - 1].position);
        if objs[n - 1].object is Monster && r < before.0 {
            (r, Some((n - 1) as usize))
        } else {
            before
        }
    }
}

/// What [`nearest`] finds is a monster in range; no monster is nearer, and
/// every monster before it is farther away.
pub proof fn lemma_nearest(objs: Seq<PositionedObject>, tower: Tower, src: RectCoordinate, n: nat)
    requires
        n <= objs.len() <= usize::MAX,
    ensures
        nearest(objs, tower, src, n).1 matches Some(j) ==> j < n && objs[j as int].object
            is Monster && nearest(objs, tower, src, n).0 == tower.spec_range(
            src,
            objs[j as int].position,
        ) && nearest(objs, tower, src, n).0 < usize::MAX,
        nearest(objs, tower, src, n).1 is None ==> nearest(objs, tower, src, n).0 == usize::MAX,
        forall|k: int|
            0 <= k < n && (#[trigger] objs[k]).object is Monster ==> nearest(objs, tower, src, n).0
                <= tower.spec_range(src, objs[k].position),
        nearest(objs, tower, src, n).1 matches Some(j) ==> forall|k: int|
            0 <= k < j && (#[trigger] objs[k]).object is Monster ==> nearest(objs, tower, src, n).0
                < tower.spec_range(src, objs[k].position),
    decreases n,
{
    if n > 0 {
        lemma_nearest(objs, tower, src, (n - 1) as nat);
    }
}

/// The place of the monster that a tower `tower` on cell `src` fires at.
pub open spec fn target_of(objs: Seq<PositionedObject>, tower: Tower, src: RectCoordinate) -> Option<
    usize,
> {
    nearest(objs, tower, src, objs.len()).1
}

/// Picks the target of a tower `tower` on cell `src`: the monster with
/// the smallest range that is in range at all, and among several at that
/// range the one that comes first in `objs`.
pub fn find_target(objs: &Vec<PositionedObject>, tower: &Tower, src: &RectCoordinate) -> (r: Option<
    usize,
>)
    ensures
        r == target_of(objs@, *tower, *src),
        r matches Some(j) ==> j < objs@.len() && objs@[j as int].object is Monster
            && tower.spec_range(*src, objs@[j as int].position) < usize::MAX && forall|k: int|
            0 <= k < objs@.len() && (#[trigger] objs@[k]).object is Monster ==> {
                &&& tower.spec_range(*src, objs@[j as int].position) <= tower.spec_range(
                    *src,
                    objs@[k].position,
                )
                &&& k < j ==> tower.spec_range(*src, objs@[j as int].position) < tower.spec_range(
                    *src,
                    objs@[k].position,
                )
            },
        r is None ==> forall|k: int|
            0 <= k < objs@.len() && (#[trigger] objs@[k]).object is Monster ==> tower.spec_range(
                *src,
                objs@[k].position,
            ) == usize::MAX,
{
    let n: usize = objs.len();
    let mut best: usize = usize::MAX;
    let mut found: Option<usize> = None;
    let mut i: usize = 0;
    while i < n
        invariant
            n == objs@.len(),
            i <= n,
            (best, found) == nearest(objs@, *tower, *src, i as nat),
        decreases n - i,
    {
        let o = objs[i];
        match o.object {
            Object::Monster(_) => {
                let r: usize = tower.range(src, &o.position);
                if r < best {
                    best = r;
                    found = Some(i);
                }
            },
            _ => {},
        }
        i += 1;
    }
    proof {
        lemma_nearest(objs@, *tower, *src, n as nat);
    }
    found
}

/// The place that the entity at place `i` fires at: a ready tower fires
/// at its target, everything else at nothing.
pub open spec fn shot(objs: Seq<PositionedObject>, ready: Seq<bool>, i: int) -> Option<usize> {
    match objs[i].object {
        Object::Tower(t) => if ready[i] {
            target_of(objs, t, objs[i].position)
        } else {
            None
        },
        _ => None,
    }
}

pub open spec fn shots(objs: Seq<PositionedObject>, ready: Seq<bool>) -> Seq<Option<usize>> {
    Seq::new(objs.len(), |i: int| shot(objs, ready, i))
}

/// Picks, for every place, the place that its entity fires at.
pub fn aim(objs: &Vec<PositionedObject>, ready: &Vec<bool>) -> (targets: Vec<Option<usize>>)
    requires
        ready@.len() == objs@.len(),
    ensures
        targets@ == shots(objs@, ready@),
        forall|i: int|
            0 <= i < targets@.len() ==> ((#[trigger] targets@[i]) matches Some(j) ==> j
                < objs@.len() && objs@[j as int].object is Monster),
{
    let n: usize = objs.len();
    let mut targets: Vec<Option<usize>> = Vec::new();
    let mut i: usize = 0;
    while i < n
        invariant
            n == objs@.len(),
            n == ready@.len(),
            i <= n,
            targets@.len() == i,
            forall|k: int| 0 <= k < i ==> #[trigger] targets@[k] == shot(objs@, ready@, k),
            forall|k: int|
                0 <= k < i ==> ((#[trigger] targets@[k]) matches Some(j) ==> j < objs@.len()
                    && objs@[j as int].object is Monster),
        decreases n - i,
    {
        let o = objs[i];
        let t: Option<usize> = match o.object {
            Object::Tower(tower) => if ready[i] {
                find_target(objs, &tower, &o.position)
            } else {
                None
            },
            _ => None,
        };
        targets.push(t);
        i += 1;
    }
    assert(targets@ =~= shots(objs@, ready@));
    targets
}

/// Where a round of fire stands: the entities, which of them leave the map
/// this tick, what waits to enter it, and what was reported so far.
pub struct Battle {
    pub objects: Seq<PositionedObject>,
    pub marks: Seq<bool>,
    pub spawned: Seq<PositionedObject>,
    pub events: Seq<Event>,
}

/// A tower after its shot: the countdown starts again at the cooldown.
pub open spec fn reloaded(t: Tower) -> Tower {
    Tower { power: t.power, cooldown: t.cooldown, count: t.cooldown, direction: t.direction }
}

/// What a defeated monster leaves on cell `p`.
pub open spec fn dropped_at(p: RectCoordinate) -> PositionedObject {
    PositionedObject { object: Object::Dropped(Dropped { delta: DROP_REWARD }), position: p }
}

/// The round after the entity at place `i` fired at `target`. A tower that
/// fires at a monster takes its power from the monster's hit points, which
/// stop at zero, and the shot is reported. A monster left with no hit
/// points is marked and leaves a reward on its cell, once for every shot
/// that finds it so. The tower then reloads. Without a target nothing
/// happens.
pub open spec fn fire(b: Battle, i: int, target: Option<usize>) -> Battle {
    match (target, b.objects[i].object) {
        (Some(j), Object::Tower(t)) => {
            let victim = b.objects[j as int];
            let struck = match victim.object {
                Object::Monster(m) => {
                    let hurt = m.spec_hit(t.power);
                    Battle {
                        objects: b.objects.update(
                            j as int,
                            PositionedObject {
                                object: Object::Monster(hurt),
                                position: victim.position,
                            },
                        ),
                        marks: if hurt.hp == 0 {
                            b.marks.update(j as int, true)
                        } else {
                            b.marks
                        },
                        spawned: if hurt.hp == 0 {
                            b.spawned.push(dropped_at(victim.position))
                        } else {
                            b.spawned
                        },
                        events: b.events.push(
                            Event::Attack(
                                (b.objects[i].position.x, b.objects[i].position.y),
                                (victim.position.x, victim.position.y),
                                0,
                            ),
                        ),
                    }
                },
                _ => b,
            };
            Battle {
                objects: struck.objects.update(
                    i,
                    PositionedObject {
                        object: Object::Tower(reloaded(t)),
                        position: b.objects[i].position,
                    },
                ),
                marks: struck.marks,
                spawned: struck.spawned,
                events: struck.events,
            }
        },
        _ => b,
    }
}

/// The round after the entities at places `0..n` fired in turn, each at
/// its entry of `targets`, starting from `start`.
pub open spec fn battle(start: Battle, targets: Seq<Option<usize>>, n: nat) -> Battle
    decreases n,
{
    if n == 0 {
        start
    } else {
        fire(battle(start, targets, (n - 1) as nat), n - 1, targets[n - 1])
    }
}

/// A round of fire as the engine holds it.
#[derive(Clone, Debug)]
pub struct Combat {
    pub objects: Vec<PositionedObject>,
    pub marks: Vec<bool>,
    pub spawned: Vec<PositionedObject>,
    pub events: Vec<Event>,
}

impl View for Combat {
    type V = Battle;

    open spec fn view(&self) -> Battle {
        Battle {
            objects: self.objects@,
            marks: self.marks@,
            spawned: self.spawned@,
            events: self.events@,
        }
    }
}

/// Every monster of `objs` that `marks` leaves unmarked has hit points left.
pub open spec fn survivors_alive(objs: Seq<PositionedObject>, marks: Seq<bool>) -> bool {
    forall|k: int|
        0 <= k < objs.len() && !marks[k] ==> ((#[trigger] objs[k]).object matches Object::Monster(m)
            ==> m.hp > 0)
}

/// In a round of fire, whatever a shot marks is a monster without hit
/// points, and where every unmarked monster had hit points left before the
/// round, every unmarked monster has them after it.
pub proof fn lemma_battle_marks(start: Battle, targets: Seq<Option<usize>>, n: nat)
    requires
        n <= start.objects.len(),
        n <= targets.len(),
        start.marks.len() == start.objects.len(),
        forall|i: int|
            0 <= i < n ==> ((#[trigger] targets[i]) matches Some(j) ==> j < start.objects.len()),
    ensures
        battle(start, targets, n).objects.len() == start.objects.len(),
        battle(start, targets, n).marks.len() == start.objects.len(),
        forall|k: int|
            0 <= k < start.objects.len() && #[trigger] battle(start, targets, n).marks[k]
                && !start.marks[k] ==> (battle(start, targets, n).objects[k].object matches Object::Monster(
                m,
            ) && m.hp == 0),
        survivors_alive(start.objects, start.marks) ==> survivors_alive(
            battle(start, targets, n).objects,
            battle(start, targets, n).marks,
        ),
    decreases n,
{
    if n > 0 {
        lemma_battle_marks(start, targets, (n - 1) as nat);
        let before = battle(start, targets, (n - 1) as nat);
        let after = battle(start, targets, n);
        assert(after == fire(before, n - 1, targets[n - 1]));
        if survivors_alive(start.objects, start.marks) {
            assert forall|k: int| 0 <= k < after.objects.len() && !after.marks[k] implies ((
            #[trigger] after.objects[k]).object matches Object::Monster(m) ==> m.hp > 0) by {
                assert(before.objects[k].object matches Object::Monster(m) ==> m.hp > 0);
            }
        }
    }
}

/// Whether `p` is the cell of one of `objs`.
pub open spec fn occupied(objs: Seq<PositionedObject>, p: RectCoordinate) -> bool {
    exists|j: int| 0 <= j < objs.len() && (#[trigger] objs[j]).position == p
}

/// Lets the entities fire in turn, each at its entry of `targets`. The
/// round starts with the given entities, marks and waiting entities, and
/// with nothing reported.
pub fn resolve(
    objects: Vec<PositionedObject>,
    targets: &Vec<Option<usize>>,
    marks: Vec<bool>,
    spawned: Vec<PositionedObject>,
) -> (c: Combat)
    requires
        targets@.len() == objects@.len(),
        marks@.len() == objects@.len(),
        forall|i: int|
            0 <= i < targets@.len() ==> ((#[trigger] targets@[i]) matches Some(j) ==> j
                < objects@.len()),
    ensures
        c@ == battle(
            Battle { objects: objects@, marks: marks@, spawned: spawned@, events: Seq::empty() },
            targets@,
            objects@.len(),
        ),
        c.objects@.len() == objects@.len(),
        c.marks@.len() == objects@.len(),
        c.spawned@.len() >= spawned@.len(),
        forall|k: int|
            0 <= k < objects@.len() ==> (#[trigger] c.objects@[k]).position == objects@[k].position,
        forall|k: int| 0 <= k < objects@.len() && marks@[k] ==> #[trigger] c.marks@[k],
        forall|k: int|
            0 <= k < objects@.len() && #[trigger] c.marks@[k] && !marks@[k] ==> (
            c.objects@[k].object matches Object::Monster(m) && m.hp == 0),
        survivors_alive(objects@, marks@) ==> survivors_alive(c.objects@, c.marks@),
        forall|k: int| 0 <= k < spawned@.len() ==> #[trigger] c.spawned@[k] == spawned@[k],
        forall|k: int|
            spawned@.len() <= k < c.spawned@.len() ==> (#[trigger] c.spawned@[k]).object
                is Dropped && occupied(objects@, c.spawned@[k].position),
{
    let ghost start = Battle {
        objects: objects@,
        marks: marks@,
        spawned: spawned@,
        events: Seq::empty(),
    };
    let n: usize = objects.len();
    let mut c = Combat { objects, marks, spawned, events: Vec::new() };
    let mut i: usize = 0;
    while i < n
        invariant
            n == start.objects.len(),
            n == targets@.len(),
            i <= n,
            forall|k: int|
                0 <= k < targets@.len() ==> ((#[trigger] targets@[k]) matches Some(j) ==> j < n),
            c@ == battle(start, targets@, i as nat),
            c.objects@.len() == n,
            c.marks@.len() == n,
            c.spawned@.len() >= start.spawned.len(),
            forall|k: int|
                0 <= k < n ==> (#[trigger] c.objects@[k]).position == start.objects[k].position,
            forall|k: int| 0 <= k < n && start.marks[k] ==> #[trigger] c.marks@[k],
            forall|k: int|
                0 <= k < n && #[trigger] c.marks@[k] && !start.marks[k] ==> (
                c.objects@[k].object matches Object::Monster(m) && m.hp == 0),
            survivors_alive(start.objects, start.marks) ==> survivors_alive(c.objects@, c.marks@),
            forall|k: int|
                0 <= k < start.spawned.len() ==> #[trigger] c.spawned@[k] == start.spawned[k],
            forall|k: int|
                start.spawned.len() <= k < c.spawned@.len() ==> (#[trigger] c.spawned@[k]).object
                    is Dropped && occupied(start.objects, c.spawned@[k].position),
        decreases n - i,
    {
        let o = c.objects[i];
        match (targets[i], o.object) {
            (Some(j), Object::Tower(t)) => {
                let victim = c.objects[j];
                match victim.object {
                    Object::Monster(m) => {
                        let hurt = m.hit(t.power);
                        c.objects.set(
                            j,
                            PositionedObject::new(Object::Monster(hurt), victim.position),
                        );
                        if hurt.hp == 0 {
                            c.marks.set(j, true);
                            c.spawned.push(
                                PositionedObject::new(
                                    Object::Dropped(Dropped::new(DROP_REWARD)),
                                    victim.position,
                                ),
                            );
                            assert(start.objects[j as int].position == victim.position);
                        }
                        c.events.push(Event::Attack(o.position.repr(), victim.position.repr(), 0));
                    },
                    _ => {},
                }
                c.objects.set(
                    i,
                    PositionedObject::new(
                        Object::Tower(
                            Tower {
                                power: t.power,
                                cooldown: t.cooldown,
                                count: t.cooldown,
                                direction: t.direction,
                            },
                        ),
                        o.position,
                    ),
                );
            },
            _ => {},
        }
        i += 1;
    }
    c
}

} // verus!
