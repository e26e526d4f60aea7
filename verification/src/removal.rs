//! Taking several entities off the map at once. Removing one entity moves
//! those behind it up by one place, so places found in one pass are only
//! safe to remove from the highest to the lowest.

use vstd::prelude::*;
use crate::error::GameError;
use crate::map::keep_unmarked;
use crate::map::retained;
use crate::map::PositionedObject;
use crate::map::TileMap;

verus! {

/// What is left of `objs` after removing, one after the other, the places
/// `order[0]`, ..., `order[n - 1]`, each counted in what the removals
/// before it left.
pub open spec fn removed_in_turn(objs: Seq<PositionedObject>, order: Seq<usize>, n: nat) -> Seq<
    PositionedObject,
>
    decreases n,
{
    if n == 0 {
        objs
    } else {
        removed_in_turn(objs, order, (n - 1) as nat).remove(order[n - 1] as int)
    }
}

/// For each of `len` places, whether it is among `order[0..n]`.
pub open spec fn marks_of(order: Seq<usize>, len: nat, n: nat) -> Seq<bool>
    decreases n,
{
    if n == 0 {
        Seq::new(len, |i: int| false)
    } else {
        marks_of(order, len, (n - 1) as nat).update(order[n - 1] as int, true)
    }
}

/// A place is marked exactly when the list names it: the marks do not
/// depend on the order of the list, nor on how often it names a place.
pub proof fn lemma_marks_of(order: Seq<usize>, len: nat, n: nat)
    requires
        n <= order.len(),
        forall|k: int| 0 <= k < n ==> order[k] < len,
    ensures
        marks_of(order, len, n).len() == len,
        forall|i: int|
            0 <= i < len ==> (#[trigger] marks_of(order, len, n)[i] <==> exists|k: int|
                0 <= k < n && #[trigger] order[k] == i),
    decreases n,
{
    if n > 0 {
        lemma_marks_of(order, len, (n - 1) as nat);
        let before = marks_of(order, len, (n - 1) as nat);
        let now = marks_of(order, len, n);
        assert forall|i: int| 0 <= i < len implies (#[trigger] now[i] <==> exists|k: int|
            0 <= k < n && #[trigger] order[k] == i) by {
            if i == order[n - 1] {
                assert(order[n - 1] == i);
            } else if before[i] {
                let k = choose|k: int| 0 <= k < n - 1 && #[trigger] order[k] == i;
                assert(order[k] == i);
            } else if exists|k: int| 0 <= k < n && #[trigger] order[k] == i {
                let k = choose|k: int| 0 <= k < n && #[trigger] order[k] == i;
                assert(k < n - 1);
                assert(order[k] == i);
            }
        }
    }
}

/// What is kept of `objs[0..n]` depends on the marks of those places only.
pub proof fn lemma_retained_local(
    objs: Seq<PositionedObject>,
    a: Seq<bool>,
    b: Seq<bool>,
    n: nat,
)
    requires
        n <= a.len(),
        n <= b.len(),
        forall|i: int| 0 <= i < n ==> a[i] == b[i],
    ensures
        retained(objs, a, n) == retained(objs, b, n),
    decreases n,
{
    if n > 0 {
        lemma_retained_local(objs, a, b, (n - 1) as nat);
    }
}

/// With no mark among the places `0..n`, all of `objs[0..n]` is kept.
pub proof fn lemma_retained_unmarked(objs: Seq<PositionedObject>, marks: Seq<bool>, n: nat)
    requires
        n <= marks.len(),
        forall|i: int| 0 <= i < n ==> !marks[i],
    ensures
        retained(objs, marks, n).len() == n,
    decreases n,
{
    if n > 0 {
        lemma_retained_unmarked(objs, marks, (n - 1) as nat);
    }
}

/// Marking a place `d` that has no mark at or below it takes the entity at
/// place `d` out of what is kept.
pub proof fn lemma_retained_mark(objs: Seq<PositionedObject>, marks: Seq<bool>, d: int, n: nat)
    requires
        0 <= d < n <= marks.len(),
        forall|i: int| 0 <= i <= d ==> !marks[i],
    ensures
        retained(objs, marks, n).len() > d,
        retained(objs, marks.update(d, true), n) == retained(objs, marks, n).remove(d),
    decreases n,
{
    let marked = marks.update(d, true);
    let before = retained(objs, marks, (n - 1) as nat);
    if n == d + 1 {
        lemma_retained_unmarked(objs, marks, d as nat);
        lemma_retained_local(objs, marks, marked, d as nat);
        assert(before.push(objs[d]).remove(d) =~= before);
    } else {
        lemma_retained_mark(objs, marks, d, (n - 1) as nat);
        if !marks[n - 1] {
            assert(before.remove(d).push(objs[n - 1]) =~= before.push(objs[n - 1]).remove(d));
        }
    }
}

/// Removing places one after the other from the highest to the lowest
/// leaves exactly the entities whose places were not named, in their
/// order. As the marks depend only on which places are named, every list
/// of the same places, once sorted downwards, leaves the same entities.
pub proof fn lemma_descending_removal(objs: Seq<PositionedObject>, order: Seq<usize>, n: nat)
    requires
        n <= order.len(),
        forall|k: int| 0 <= k < n ==> order[k] < objs.len(),
        forall|a: int, b: int| 0 <= a < b < n ==> order[a] > order[b],
    ensures
        removed_in_turn(objs, order, n) == retained(
            objs,
            marks_of(order, objs.len(), n),
            objs.len(),
        ),
    decreases n,
{
    let len = objs.len();
    if n == 0 {
        let none = marks_of(order, len, 0);
        lemma_retained_take(objs, none, len);
        assert(retained(objs, none, len) =~= objs);
    } else {
        lemma_descending_removal(objs, order, (n - 1) as nat);
        lemma_marks_of(order, len, (n - 1) as nat);
        let before = marks_of(order, len, (n - 1) as nat);
        let d = order[n - 1] as int;
        assert forall|i: int| 0 <= i <= d implies !before[i] by {
            if before[i] {
                let k = choose|k: int| 0 <= k < n - 1 && #[trigger] order[k] == i;
                assert(order[k] > order[n - 1]);
            }
        }
        lemma_retained_mark(objs, before, d, len);
    }
}

/// With no mark among the places `0..n`, what is kept of `objs[0..n]` is
/// `objs[0..n]` itself.
pub proof fn lemma_retained_take(objs: Seq<PositionedObject>, marks: Seq<bool>, n: nat)
    requires
        n <= marks.len(),
        n <= objs.len(),
        forall|i: int| 0 <= i < n ==> !marks[i],
    ensures
        retained(objs, marks, n) == objs.take(n as int),
    decreases n,
{
    if n > 0 {
        lemma_retained_take(objs, marks, (n - 1) as nat);
        assert(objs.take(n - 1).push(objs[n - 1]) =~= objs.take(n as int));
    } else {
        assert(objs.take(0) =~= Seq::<PositionedObject>::empty());
    }
}

/// Two lists that name the same places mark the same places, and so
/// leave the same entities.
pub proof fn lemma_removal_order_free(objs: Seq<PositionedObject>, a: Seq<usize>, b: Seq<usize>)
    requires
        forall|k: int| 0 <= k < a.len() ==> a[k] < objs.len(),
        forall|k: int| 0 <= k < b.len() ==> b[k] < objs.len(),
        forall|i: usize| a.contains(i) <==> b.contains(i),
    ensures
        marks_of(a, objs.len(), a.len()) == marks_of(b, objs.len(), b.len()),
        retained(objs, marks_of(a, objs.len(), a.len()), objs.len()) == retained(
            objs,
            marks_of(b, objs.len(), b.len()),
            objs.len(),
        ),
{
    let len = objs.len();
    let ma = marks_of(a, len, a.len());
    let mb = marks_of(b, len, b.len());
    lemma_marks_of(a, len, a.len());
    lemma_marks_of(b, len, b.len());
    assert forall|i: int| 0 <= i < len implies ma[i] == mb[i] by {
        if ma[i] {
            let k = choose|k: int| 0 <= k < a.len() && #[trigger] a[k] == i;
            assert(a.contains(a[k]));
            assert(b.contains(a[k]));
            let m = choose|m: int| 0 <= m < b.len() && b[m] == a[k];
            assert(b[m] == i);
        }
        if mb[i] {
            let k = choose|k: int| 0 <= k < b.len() && #[trigger] b[k] == i;
            assert(b.contains(b[k]));
            assert(a.contains(b[k]));
            let m = choose|m: int| 0 <= m < a.len() && a[m] == b[k];
            assert(a[m] == i);
        }
    }
    assert(ma =~= mb);
}

impl TileMap {
    /// Takes the entities at the places that `indices` names off the map,
    /// whatever the order of the list and however often it names a place;
    /// the others keep their order. A place that does not exist is refused
    /// and the map stays as it was.
    pub fn remove_all(&mut self, indices: &Vec<usize>) -> (r: Result<(), GameError>)
        requires
            old(self).wf(),
        ensures
            final(self).wf(),
            r is Ok <==> forall|k: int|
                0 <= k < indices@.len() ==> indices@[k] < old(self).objects@.len(),
            r is Err ==> r == Err::<(), GameError>(GameError::InvalidReference) && *final(self)
                == *old(self),
            r is Ok ==> final(self).objects@ == retained(
                old(self).objects@,
                marks_of(indices@, old(self).objects@.len(), indices@.len()),
                old(self).objects@.len(),
            ) && final(self).width == old(self).width && final(self).height == old(self).height
                && final(self).tiles == old(self).tiles,
    {
        let len: usize = self.objects.len();
        let mut marks: Vec<bool> = Vec::new();
        let mut i: usize = 0;
        while i < len
            invariant
                i <= len,
                marks@.len() == i,
                forall|k: int| 0 <= k < i ==> !marks@[k],
            decreases len - i,
        {
            marks.push(false);
            i += 1;
        }
        assert(marks@ =~= marks_of(indices@, len as nat, 0));
        let mut j: usize = 0;
        while j < indices.len()
            invariant
                *self == *old(self),
                self.wf(),
                len == self.objects@.len(),
                j <= indices@.len(),
                marks@.len() == len,
                marks@ == marks_of(indices@, len as nat, j as nat),
                forall|k: int| 0 <= k < j ==> indices@[k] < len,
            decreases indices@.len() - j,
        {
            let idx: usize = indices[j];
            if idx >= len {
                assert(!(indices@[j as int] < old(self).objects@.len()));
                return Err(GameError::InvalidReference);
            }
            marks.set(idx, true);
            j += 1;
        }
        let kept = keep_unmarked(&self.objects, &marks);
        proof {
            assert forall|k: int| 0 <= k < kept@.len() implies self.in_bounds(
                (#[trigger] kept@[k]).position,
            ) by {
                let m = choose|m: int|
                    0 <= m < self.objects@.len() && !marks@[m] && #[trigger] self.objects@[m]
                        == kept@[k];
                assert(self.in_bounds(self.objects@[m].position));
            }
        }
        self.objects = kept;
        Ok(())
    }
}

} // verus!
