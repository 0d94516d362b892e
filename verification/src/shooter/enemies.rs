//! Enemies: how they come onto the field, and how what has left the field
//! or was hit is taken out.

use vstd::prelude::*;
use crate::shooter::random::{gen_range, thread_rng};
use crate::shooter::S_SIZE;

verus! {

/// An enemy, as far as whole cells go.
#[derive(Clone, Copy, Debug, PartialEq, Eq, Structural)]
pub struct Enemy {
    /// The column of its left edge.
    pub x: i32,
    /// The row of its upper edge.
    pub y: i32,
    /// The column that it heads for.
    pub target_x: i32,
    /// The row that it heads for.
    pub target_y: i32,
    /// How many rows it falls in a second.
    pub speed: i32,
    /// How much faster the enemy that takes its place will be.
    pub speedup: u8,
}

/// `enemy` has just been put on the field in row `y` with the speed `spd`:
/// it stands in some column but the last nine of the field, heads for
/// where it stands, and is not marked to come back faster.
pub open spec fn newly_made(enemy: Enemy, spd: i32, y: i32) -> bool {
    &&& 0 <= enemy.x < S_SIZE.0 - 9
    &&& enemy.y == y
    &&& enemy.target_x == enemy.x
    &&& enemy.target_y == y
    &&& enemy.speed == spd
    &&& enemy.speedup == 0
}

/// The enemy that is put in column `x` and row `y` with the speed `spd`:
/// it heads for where it stands and is not marked to come back faster.
pub fn enemy_at(x: i32, spd: i32, y: i32) -> (enemy: Enemy)
    ensures
        enemy == (Enemy { x, y, target_x: x, target_y: y, speed: spd, speedup: 0 }),
{
    Enemy { x, y, target_x: x, target_y: y, speed: spd, speedup: 0 }
}

/// Puts an enemy with the speed `spd` in row `y`, in a column drawn at
/// random among all but the last nine of the field.
pub fn create_enemy(spd: i32, y: i32) -> (enemy: Enemy)
    ensures
        newly_made(enemy, spd, y),
{
    let mut rng = thread_rng();
    let x = gen_range(&mut rng, 0, (S_SIZE.0 as i32) - 9);

    enemy_at(x, spd, y)
}

/// The enemies at the start of a game: three of speed 10, five rows apart
/// from the top.
pub fn create_enemies() -> (enemies: Vec<Enemy>)
    ensures
        enemies.len() == 3,
        forall|i: int| 0 <= i < 3 ==> newly_made(#[trigger] enemies[i], 10, (5 * i) as i32),
{
    let mut enemies: Vec<Enemy> = Vec::new();

    let mut i: i32 = 0;
    while i < 3
        invariant
            0 <= i <= 3,
            enemies.len() == i,
            forall|k: int| 0 <= k < i ==> newly_made(#[trigger] enemies[k], 10, (5 * k) as i32),
        decreases 3 - i,
    {
        enemies.push(create_enemy(10, 5 * i));
        i = i + 1;
    }

    enemies
}

/// The enemies that take the place of those that were taken off the
/// field. `removed` holds these the last one first, as
/// [`remove_marked`] returns them; the new ones come in the order in which
/// the old ones stood. Each starts in the top row, in a column drawn at
/// random, and is faster than the one it replaces by the speedup of that
/// one.
pub fn replacements(removed: &Vec<Enemy>) -> (fresh: Vec<Enemy>)
    requires
        forall|k: int|
            0 <= k < removed.len() ==> (#[trigger] removed[k]).speed + removed[k].speedup
                <= i32::MAX,
    ensures
        fresh.len() == removed.len(),
        forall|k: int|
            0 <= k < fresh.len() ==> newly_made(
                #[trigger] fresh[k],
                (removed[removed.len() - 1 - k].speed + removed[removed.len() - 1 - k].speedup) as i32,
                0,
            ),
{
    let mut fresh: Vec<Enemy> = Vec::new();
    let mut k: usize = 0;
    while k < removed.len()
        invariant
            k <= removed.len(),
            fresh.len() == k,
            forall|j: int|
                0 <= j < removed.len() ==> (#[trigger] removed[j]).speed + removed[j].speedup
                    <= i32::MAX,
            forall|j: int|
                0 <= j < k ==> newly_made(
                    #[trigger] fresh[j],
                    (removed[removed.len() - 1 - j].speed + removed[removed.len() - 1 - j].speedup) as i32,
                    0,
                ),
        decreases removed.len() - k,
    {
        let old_one = removed[removed.len() - 1 - k];
        fresh.push(create_enemy(old_one.speed + old_one.speedup as i32, 0));
        k = k + 1;
    }
    fresh
}

/// The stock of bullets once `returned` bullets have come back to it.
pub fn refund(ammo: u8, returned: usize) -> (stock: u8)
    requires
        ammo + returned <= u8::MAX,
    ensures
        stock == ammo + returned,
{
    ammo + returned as u8
}

/// A bullet or an enemy in row `y` has left the field: the row lies above
/// the top row of the field, or more than one row below its bottom row.
pub open spec fn off_field(y: i32) -> bool {
    y < 0 || y > S_SIZE.1
}

/// Whether what stands in row `y` has left the field.
pub fn left_field(y: i32) -> (gone: bool)
    ensures
        gone == off_field(y),
{
    y < 0 || y > S_SIZE.1 as i32
}

/// What is left of `items` once those at the `marked` positions are taken
/// out, in the order in which they stood.
pub open spec fn kept<T>(items: Seq<T>, marked: Seq<usize>) -> Seq<T>
    decreases items.len(),
{
    if items.len() == 0 {
        items
    } else if marked.contains((items.len() - 1) as usize) {
        kept(items.drop_last(), marked)
    } else {
        kept(items.drop_last(), marked).push(items.last())
    }
}

/// Those of `items` that stand at the `marked` positions, the last one
/// first.
pub open spec fn taken<T>(items: Seq<T>, marked: Seq<usize>) -> Seq<T>
    decreases items.len(),
{
    if items.len() == 0 {
        items
    } else if marked.contains((items.len() - 1) as usize) {
        seq![items.last()] + taken(items.drop_last(), marked)
    } else {
        taken(items.drop_last(), marked)
    }
}

/// Whether `position` is among `marked`.
fn is_marked(marked: &Vec<usize>, position: usize) -> (found: bool)
    ensures
        found == marked@.contains(position),
{
    let mut k: usize = 0;
    while k < marked.len()
        invariant
            k <= marked.len(),
            forall|j: int| 0 <= j < k ==> marked@[j] != position,
        decreases marked.len() - k,
    {
        if marked[k] == position {
            return true;
        }
        k = k + 1;
    }
    false
}

/// Takes out of `items` those at the `marked` positions and returns them,
/// the last one first. A position may be marked more than once, the marks
/// may come in any order, and a mark beyond the end marks nothing.
pub fn remove_marked<T>(items: &mut Vec<T>, marked: Vec<usize>) -> (removed: Vec<T>)
    ensures
        final(items)@ == kept(old(items)@, marked@),
        removed@ == taken(old(items)@, marked@),
{
    let ghost before = items@;
    let mut removed: Vec<T> = Vec::new();
    let mut i: usize = items.len();
    proof {
        assert(before.take(i as int) =~= before);
        assert(items@.skip(i as int) =~= Seq::empty());
        assert(kept(before, marked@) =~= kept(before.take(i as int), marked@) + items@.skip(i as int));
        assert(taken(before, marked@) =~= removed@ + taken(before.take(i as int), marked@));
    }
    while i > 0
        invariant
            i <= before.len(),
            i <= items.len(),
            before == old(items)@,
            items@.take(i as int) == before.take(i as int),
            kept(before, marked@) == kept(before.take(i as int), marked@) + items@.skip(i as int),
            taken(before, marked@) == removed@ + taken(before.take(i as int), marked@),
        decreases i,
    {
        i = i - 1;
        proof {
            let upto = before.take(i + 1);
            assert(upto.last() == before[i as int]);
            assert(upto.drop_last() =~= before.take(i as int));
            assert(items@[i as int] == items@.take(i + 1)[i as int]);
        }
        let ghost earlier = items@;
        let ghost taken_so_far = removed@;
        if is_marked(&marked, i) {
            let item = items.remove(i);
            removed.push(item);
            proof {
                assert(items@.skip(i as int) =~= earlier.skip(i + 1));
                assert(items@.take(i as int) =~= earlier.take(i + 1).take(i as int));
                assert(before.take(i as int) =~= before.take(i + 1).take(i as int));
                assert(removed@ + taken(before.take(i as int), marked@) =~= taken_so_far + (seq![
                    before[i as int],
                ] + taken(before.take(i as int), marked@)));
            }
        } else {
            proof {
                assert(items@.take(i as int) =~= earlier.take(i + 1).take(i as int));
                assert(before.take(i as int) =~= before.take(i + 1).take(i as int));
                assert(kept(before.take(i as int), marked@).push(before[i as int]) + earlier.skip(
                    i + 1,
                ) =~= kept(before.take(i as int), marked@) + items@.skip(i as int));
            }
        }
    }
    proof {
        assert(items@.skip(0) =~= items@);
        assert(before.take(0) =~= Seq::empty());
    }
    removed
}

/// Splitting `items` by marks loses nothing and adds nothing.
pub proof fn lemma_kept_and_taken_share<T>(items: Seq<T>, marked: Seq<usize>)
    ensures
        kept(items, marked).len() + taken(items, marked).len() == items.len(),
    decreases items.len(),
{
    if items.len() > 0 {
        lemma_kept_and_taken_share(items.drop_last(), marked);
    }
}

/// Without marks everything stays.
pub proof fn lemma_no_marks_keep_all<T>(items: Seq<T>)
    ensures
        kept(items, Seq::empty()) == items,
        taken(items, Seq::empty()) == Seq::<T>::empty(),
    decreases items.len(),
{
    if items.len() > 0 {
        lemma_no_marks_keep_all(items.drop_last());
        assert(items.drop_last().push(items.last()) =~= items);
    }
}

} // verus!
