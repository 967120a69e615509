//! Which objects collide, and what the collisions do.
//!
//! A pass over the live set has two steps. The first finds the pairs of
//! objects that collide, each pair of indices once and in a fixed order.
//! The second lets the two objects of each pair take the collision, the
//! lower index first. Objects that a collision makes are collected, and
//! join the live set only after the pass.
use vstd::prelude::*;
use crate::components::bullet::HIT_SCORE;
use crate::components::game_object_factory::GameObjectFactory;
use crate::components::rocket::{raised, Rocket};
use crate::engine::arena::GameObjectType;
use crate::engine::object::GameObject;
use crate::utils::random::{draws_after, lemma_spent_twice, spent, RandomSource};

verus! {

/// The pairs `(a, b)` with `a < b < n` that come before `(i, j)`, in
/// ascending order: first by `a`, then by `b`.
pub open spec fn pairs_before(n: nat, i: nat, j: nat) -> Seq<(usize, usize)>
    decreases i, j,
{
    if j > i + 1 {
        pairs_before(n, i, (j - 1) as nat).push((i as usize, (j - 1) as usize))
    } else if i == 0 {
        Seq::empty()
    } else {
        pairs_before(n, (i - 1) as nat, n)
    }
}

/// All pairs of indices into a live set of `n` objects, in the order in
/// which a pass looks at them.
pub open spec fn all_pairs(n: nat) -> Seq<(usize, usize)> {
    pairs_before(n, n, n)
}

/// The number of pairs of `n` things.
pub open spec fn pair_count(n: nat) -> nat {
    (n * (n - 1) / 2) as nat
}

/// `a` comes before `b` in the order of the pairs.
pub open spec fn pair_precedes(a: (usize, usize), b: (usize, usize)) -> bool {
    a.0 < b.0 || (a.0 == b.0 && a.1 < b.1)
}

/// The test that picks the colliding pairs out of all pairs.
pub open spec fn hit_test(shapes: Seq<GameObject>) -> spec_fn((usize, usize)) -> bool {
    |pair: (usize, usize)|
        pair.0 < shapes.len() && pair.1 < shapes.len() && shapes[pair.0 as int].collides(
            &shapes[pair.1 as int],
        )
}

/// The pairs of objects of `shapes` that collide, in the order of the pass.
pub open spec fn colliding_pairs(shapes: Seq<GameObject>) -> Seq<(usize, usize)> {
    all_pairs(shapes.len()).filter(hit_test(shapes))
}

proof fn lemma_pairs_before(n: nat, i: nat, j: nat)
    requires
        i <= n,
        i < j <= n || (i == n && j == n) || j == i + 1,
        n <= usize::MAX,
    ensures
        2 * pairs_before(n, i, j).len() == i * (2 * n - i - 1) + 2 * (if j > i + 1 {
            j - i - 1
        } else {
            0
        }),
        forall|k: int|
            0 <= k < pairs_before(n, i, j).len() ==> {
                let p = #[trigger] pairs_before(n, i, j)[k];
                p.0 < p.1 < n && (p.0 < i || (p.0 == i && p.1 < j))
            },
        forall|k: int, l: int|
            0 <= k < l < pairs_before(n, i, j).len() ==> pair_precedes(
                #[trigger] pairs_before(n, i, j)[k],
                #[trigger] pairs_before(n, i, j)[l],
            ),
        forall|a: usize, b: usize|
            a < b < n && (a < i || (a == i && b < j)) ==> pairs_before(n, i, j).contains((a, b)),
    decreases i, j,
{
    let s = pairs_before(n, i, j);
    if j > i + 1 {
        let t = pairs_before(n, i, (j - 1) as nat);
        lemma_pairs_before(n, i, (j - 1) as nat);
        assert forall|a: usize, b: usize|
            a < b < n && (a < i || (a == i && b < j)) implies s.contains((a, b)) by {
            if a == i && b == j - 1 {
                assert(s[s.len() - 1] == (a, b));
            } else {
                assert(t.contains((a, b)));
                let k = choose|k: int| 0 <= k < t.len() && t[k] == (a, b);
                assert(s[k] == (a, b));
            }
        }
    } else if i > 0 {
        // the row of `i` has not begun: these are the pairs of the rows before
        lemma_pairs_before(n, (i - 1) as nat, n);
        assert(2 * s.len() == i * (2 * n - i - 1)) by (nonlinear_arith)
            requires
                2 * s.len() == (i - 1) * (2 * n - (i - 1) - 1) + 2 * (if n > (i - 1) + 1 {
                    n - (i - 1) - 1
                } else {
                    0
                }),
                1 <= i <= n,
        ;
    }
}

/// A pass over `n` objects looks at `n (n - 1) / 2` pairs of indices: at
/// every pair `(a, b)` with `a < b < n`, at no pair twice, and at no
/// object paired with itself.
pub proof fn lemma_all_pairs(n: nat)
    requires
        n <= usize::MAX,
    ensures
        all_pairs(n).len() == pair_count(n),
        2 * all_pairs(n).len() == n * (n - 1),
        forall|k: int|
            0 <= k < all_pairs(n).len() ==> (#[trigger] all_pairs(n)[k]).0 < all_pairs(n)[k].1 < n,
        forall|k: int, l: int|
            0 <= k < l < all_pairs(n).len() ==> #[trigger] all_pairs(n)[k] != #[trigger] all_pairs(
                n,
            )[l],
        forall|a: usize, b: usize| a < b < n ==> all_pairs(n).contains((a, b)),
{
    lemma_pairs_before(n, n, n);
}

/// The colliding pairs are pairs of two different objects of the live
/// set, the lower index first, in ascending order, and every pair of
/// objects that collide is among them.
pub proof fn lemma_colliding_pairs(shapes: Seq<GameObject>)
    requires
        shapes.len() <= usize::MAX,
    ensures
        forall|k: int|
            0 <= k < colliding_pairs(shapes).len() ==> {
                let p = #[trigger] colliding_pairs(shapes)[k];
                p.0 < p.1 < shapes.len() && shapes[p.0 as int].collides(&shapes[p.1 as int])
            },
        forall|a: usize, b: usize|
            a < b < shapes.len() && shapes[a as int].collides(&shapes[b as int])
                ==> colliding_pairs(shapes).contains((a, b)),
        colliding_pairs(shapes).len() <= pair_count(shapes.len()),
        2 * colliding_pairs(shapes).len() <= shapes.len() * (shapes.len() - 1),
{
    let all = all_pairs(shapes.len());
    let test = hit_test(shapes);
    lemma_all_pairs(shapes.len());
    assert forall|k: int| 0 <= k < colliding_pairs(shapes).len() implies {
        let p = #[trigger] colliding_pairs(shapes)[k];
        p.0 < p.1 < shapes.len() && shapes[p.0 as int].collides(&shapes[p.1 as int])
    } by {
        // what the test lets through passes the test, and is one of all pairs
        let p = colliding_pairs(shapes)[k];
        all.lemma_filter_pred(test, k);
        all.lemma_filter_contains_rev(test, p);
    }
    assert forall|a: usize, b: usize|
        a < b < shapes.len() && shapes[a as int].collides(&shapes[b as int]) implies colliding_pairs(
        shapes,
    ).contains((a, b)) by {
        // the pair is one of all pairs, and the test lets it through
        assert(all.contains((a, b)));
        let at = choose|at: int| 0 <= at < all.len() && all[at] == (a, b);
        all.lemma_filter_contains(test, at);
    }
}

/// Finds the pairs of objects that collide. Every pair of indices is
/// looked at once, the lower index first, and no object is paired with
/// itself.
pub fn find_collisions(shapes: &Vec<GameObject>) -> (pairs: Vec<(usize, usize)>)
    ensures
        pairs@ == colliding_pairs(shapes@),
        forall|k: int|
            0 <= k < pairs@.len() ==> (#[trigger] pairs@[k]).0 < pairs@[k].1 < shapes@.len(),
{
    let mut pairs: Vec<(usize, usize)> = Vec::new();
    let len = shapes.len();
    let ghost test = hit_test(shapes@);
    let mut i: usize = 0;
    while i < len
        invariant
            0 <= i <= len,
            len == shapes@.len(),
            test == hit_test(shapes@),
            pairs@ == pairs_before(len as nat, i as nat, (i + 1) as nat).filter(test),
        decreases len - i,
    {
        let mut j: usize = i + 1;
        while j < len
            invariant
                i < j <= len,
                len == shapes@.len(),
                test == hit_test(shapes@),
                pairs@ == pairs_before(len as nat, i as nat, j as nat).filter(test),
            decreases len - j,
        {
            let ghost before = pairs_before(len as nat, i as nat, j as nat);
            let hit = shapes[i].collides(&shapes[j]);
            if hit {
                pairs.push((i, j));
            }
            proof {
                reveal(Seq::filter);
                let after = pairs_before(len as nat, i as nat, (j + 1) as nat);
                assert(after.drop_last() =~= before);
            }
            j += 1;
        }
        i += 1;
    }
    proof {
        lemma_colliding_pairs(shapes@);
    }
    pairs
}

/// A collision pass as it stands between two pairs.
pub struct Pass {
    /// The live set.
    pub shapes: Seq<GameObject>,
    /// The objects that the collisions have made so far.
    pub spawned: Seq<GameObject>,
    /// The draws that are left.
    pub draws: Seq<u32>,
}

/// The live set once the rocket at index `scorer` has scored a hit. An
/// index at which no rocket is found scores nothing.
pub open spec fn credited(shapes: Seq<GameObject>, scorer: Option<usize>) -> Seq<GameObject> {
    match scorer {
        Some(k) => if k < shapes.len() {
            match shapes[k as int] {
                GameObject::Rocket(rocket) => shapes.update(
                    k as int,
                    GameObject::Rocket(Rocket { score: raised(rocket.score, HIT_SCORE), ..rocket }),
                ),
                _ => shapes,
            }
        } else {
            shapes
        },
        None => shapes,
    }
}

/// The pass once the object at index `k` has taken a collision with an
/// object of type `objtype`.
pub open spec fn struck(pass: Pass, k: int, objtype: GameObjectType) -> Pass {
    let object = pass.shapes[k];
    Pass {
        shapes: credited(pass.shapes.update(k, object.collided(objtype)), object.scorer(objtype)),
        spawned: pass.spawned + object.debris(objtype, pass.draws),
        draws: draws_after(pass.draws, object.draws_used(objtype)),
    }
}

/// The pass once the two objects of `pair` have taken their collision:
/// first the one at the lower index, then the other, each with the type
/// of the other. A pair that names an index outside the live set, or one
/// index twice, changes nothing.
pub open spec fn resolved_pair(pass: Pass, pair: (usize, usize)) -> Pass {
    if pair.0 < pass.shapes.len() && pair.1 < pass.shapes.len() && pair.0 != pair.1 {
        let first_type = pass.shapes[pair.0 as int].get_type();
        let second_type = pass.shapes[pair.1 as int].get_type();
        struck(struck(pass, pair.0 as int, second_type), pair.1 as int, first_type)
    } else {
        pass
    }
}

/// The pass once all of `pairs` are resolved, in their order.
pub open spec fn resolved(pass: Pass, pairs: Seq<(usize, usize)>) -> Pass
    decreases pairs.len(),
{
    if pairs.len() == 0 {
        pass
    } else {
        resolved_pair(resolved(pass, pairs.drop_last()), pairs.last())
    }
}

/// Lets the object at index `k` take a collision with an object of type
/// `objtype`.
fn strike(
    shapes: &mut Vec<GameObject>,
    objects: &mut Vec<GameObject>,
    k: usize,
    objtype: GameObjectType,
    objfactory: &GameObjectFactory,
    random: &mut RandomSource,
)
    requires
        k < old(shapes)@.len(),
    ensures
        (Pass { shapes: final(shapes)@, spawned: final(objects)@, draws: final(random)@ }) == struck(
            Pass { shapes: old(shapes)@, spawned: old(objects)@, draws: old(random)@ },
            k as int,
            objtype,
        ),
        same_cast(old(shapes)@, final(shapes)@),
        forall|i: int|
            old(objects)@.len() <= i < final(objects)@.len() ==> (#[trigger] final(objects)@[i]).wf()
                && final(objects)@[i].get_type() != GameObjectType::Rocket,
{
    let mut collision = shapes[k].collision_with(objtype, objfactory, random);
    let ghost struck_shapes = shapes@;
    objects.append(&mut collision.objects);
    match collision.scorer {
        Some(owner) => {
            if owner < shapes.len() {
                match &mut shapes[owner] {
                    GameObject::Rocket(rocket) => {
                        rocket.score = rocket.score.saturating_add(HIT_SCORE);
                    },
                    _ => {},
                }
            }
        },
        None => {},
    }
    assert(shapes@ =~= credited(struck_shapes, collision.scorer));
}

/// The live set `after` holds the objects of `before`, each of the kind it
/// was, none less well formed, and none brought back from being over.
pub open spec fn same_cast(before: Seq<GameObject>, after: Seq<GameObject>) -> bool {
    &&& after.len() == before.len()
    &&& forall|i: int|
        0 <= i < before.len() ==> {
            &&& (#[trigger] after[i]).get_type() == before[i].get_type()
            &&& before[i].wf() ==> after[i].wf()
            &&& before[i].is_expired() ==> after[i].is_expired()
        }
}

/// Lets the objects of every pair of `pairs` take their collision, in the
/// order of `pairs`, and returns the objects that the collisions made.
///
/// The live set keeps its objects: each stays at its index and of its
/// kind, and none that was over comes back. The objects that are returned
/// are not part of the live set yet.
pub fn resolve_collisions(
    shapes: &mut Vec<GameObject>,
    pairs: &Vec<(usize, usize)>,
    objfactory: &GameObjectFactory,
    random: &mut RandomSource,
) -> (objects: Vec<GameObject>)
    ensures
        (Pass { shapes: final(shapes)@, spawned: objects@, draws: final(random)@ }) == resolved(
            Pass { shapes: old(shapes)@, spawned: Seq::empty(), draws: old(random)@ },
            pairs@,
        ),
        same_cast(old(shapes)@, final(shapes)@),
        forall|i: int|
            0 <= i < objects@.len() ==> (#[trigger] objects@[i]).wf() && objects@[i].get_type()
                != GameObjectType::Rocket,
{
    let mut objects: Vec<GameObject> = Vec::new();
    let ghost start = Pass { shapes: shapes@, spawned: Seq::empty(), draws: random@ };
    let mut k: usize = 0;
    while k < pairs.len()
        invariant
            0 <= k <= pairs@.len(),
            start == (Pass { shapes: old(shapes)@, spawned: Seq::empty(), draws: old(random)@ }),
            (Pass { shapes: shapes@, spawned: objects@, draws: random@ }) == resolved(
                start,
                pairs@.take(k as int),
            ),
            same_cast(old(shapes)@, shapes@),
            forall|i: int|
                0 <= i < objects@.len() ==> (#[trigger] objects@[i]).wf() && objects@[i].get_type()
                    != GameObjectType::Rocket,
        decreases pairs@.len() - k,
    {
        let (i, j) = pairs[k];
        proof {
            assert(pairs@.take(k + 1).drop_last() =~= pairs@.take(k as int));
        }
        if i < shapes.len() && j < shapes.len() && i != j {
            let first_type = shapes[i].get_type();
            let second_type = shapes[j].get_type();
            strike(shapes, &mut objects, i, second_type, objfactory, random);
            strike(shapes, &mut objects, j, first_type, objfactory, random);
        }
        k += 1;
    }
    assert(pairs@.take(pairs@.len() as int) =~= pairs@);
    objects
}

/// A pass keeps the size of the live set, and takes at most eight draws
/// for every pair: four for each asteroid that breaks.
pub proof fn lemma_resolved_spends(pass: Pass, pairs: Seq<(usize, usize)>)
    ensures
        resolved(pass, pairs).shapes.len() == pass.shapes.len(),
        spent(pass.draws, resolved(pass, pairs).draws, 8 * (pairs.len() as int)),
    decreases pairs.len(),
{
    if pairs.len() == 0 {
        assert(pass.draws == draws_after(pass.draws, 0));
    } else {
        lemma_resolved_spends(pass, pairs.drop_last());
        let before = resolved(pass, pairs.drop_last());
        let pair = pairs.last();
        if pair.0 < before.shapes.len() && pair.1 < before.shapes.len() && pair.0 != pair.1 {
            let first_type = before.shapes[pair.0 as int].get_type();
            let second_type = before.shapes[pair.1 as int].get_type();
            let between = struck(before, pair.0 as int, second_type);
            let after = struck(between, pair.1 as int, first_type);
            lemma_spent_twice(before.draws, between.draws, after.draws, 4, 4);
        } else {
            assert(before.draws == draws_after(before.draws, 0));
        }
        lemma_spent_twice(
            pass.draws,
            before.draws,
            resolved(pass, pairs).draws,
            8 * (pairs.drop_last().len() as int),
            8,
        );
    }
}

/// `after` is the rocket `before` in a later state: it shows its score in
/// the same place and fires bullets of the same colour.
pub open spec fn same_rocket(before: GameObject, after: GameObject) -> bool {
    match (before, after) {
        (GameObject::Rocket(b), GameObject::Rocket(a)) => a.score_pos == b.score_pos
            && a.bullet_color == b.bullet_color,
        _ => false,
    }
}

/// In the live set `after`, every object of `before` is at its index and of
/// its kind, and every rocket is the rocket it was.
pub open spec fn same_places(before: Seq<GameObject>, after: Seq<GameObject>) -> bool {
    &&& after.len() >= before.len()
    &&& forall|i: int|
        0 <= i < before.len() ==> {
            &&& (#[trigger] after[i]).get_type() == before[i].get_type()
            &&& before[i].get_type() == GameObjectType::Rocket ==> same_rocket(before[i], after[i])
        }
}

/// A pass leaves every object at its index and of its kind, and every
/// rocket the rocket it was.
pub proof fn lemma_resolved_keeps_places(pass: Pass, pairs: Seq<(usize, usize)>)
    ensures
        resolved(pass, pairs).shapes.len() == pass.shapes.len(),
        same_places(pass.shapes, resolved(pass, pairs).shapes),
    decreases pairs.len(),
{
    if pairs.len() > 0 {
        lemma_resolved_keeps_places(pass, pairs.drop_last());
    }
}

/// The number of pairs before `(i, j)`, in the order of the pass, that the
/// index `k` is part of.
pub open spec fn meets(n: nat, i: nat, j: nat, k: int) -> nat
    decreases i, j,
{
    if j > i + 1 {
        meets(n, i, (j - 1) as nat, k) + if k == i || k == j - 1 {
            1nat
        } else {
            0nat
        }
    } else if i == 0 {
        0
    } else {
        meets(n, (i - 1) as nat, n, k)
    }
}

/// Every object is part of `n - 1` of the pairs of `n` objects, and of no
/// more of them at any time of the pass.
pub proof fn lemma_meets(n: nat, i: nat, j: nat, k: int)
    requires
        i <= n,
        i < j <= n || (i == n && j == n) || j == i + 1,
        0 <= k < n,
    ensures
        meets(n, i, j, k) == (if k < i { k } else { i as int }) + (if k < i {
            n - 1 - k
        } else {
            0
        }) + (if k == i && j > i + 1 {
            j - i - 1
        } else {
            0
        }) + (if i < k < j {
            1int
        } else {
            0int
        }),
        meets(n, i, j, k) <= n - 1,
        i == n ==> meets(n, i, j, k) == n - 1,
    decreases i, j,
{
    if j > i + 1 {
        lemma_meets(n, i, (j - 1) as nat, k);
    } else if i > 0 {
        lemma_meets(n, (i - 1) as nat, n, k);
    }
}

/// The rocket `object` with `hits` times the damage that a rocket does; any
/// other object as it is.
pub open spec fn rammed(object: GameObject, hits: nat) -> GameObject {
    match object {
        GameObject::Rocket(rocket) => GameObject::Rocket(
            Rocket {
                damage: (rocket.damage + crate::components::rocket::ROCKET_DAMAGE * hits) as u64,
                ..rocket
            },
        ),
        _ => object,
    }
}

/// The live set of rockets once the pairs before `(i, j)` have taken their
/// collisions: every rocket has the damage of all the pairs it is part of.
pub open spec fn heaped(shapes: Seq<GameObject>, i: nat, j: nat) -> Seq<GameObject> {
    Seq::new(shapes.len(), |k: int| rammed(shapes[k], meets(shapes.len(), i, j, k)))
}

/// The objects of `shapes` are rockets without a protecting shield, any two
/// of which collide, and whose damage has room for that of the others.
pub open spec fn is_heap_of_rockets(shapes: Seq<GameObject>) -> bool {
    &&& shapes.len() <= usize::MAX
    &&& forall|k: int|
        0 <= k < shapes.len() ==> (#[trigger] shapes[k] matches GameObject::Rocket(rocket)
            && !rocket.is_shield_active() && rocket.damage
            + crate::components::rocket::ROCKET_DAMAGE * (shapes.len() - 1) <= u64::MAX)
    &&& forall|a: int, b: int|
        #![trigger shapes[a], shapes[b]]
        0 <= a < b < shapes.len() ==> shapes[a].collides(&shapes[b])
}

proof fn lemma_heap_step(shapes: Seq<GameObject>, draws: Seq<u32>, i: nat, j: nat)
    requires
        is_heap_of_rockets(shapes),
        i <= shapes.len(),
        i < j <= shapes.len() || (i == shapes.len() && j == shapes.len()) || j == i + 1,
    ensures
        resolved(
            Pass { shapes, spawned: Seq::empty(), draws },
            pairs_before(shapes.len(), i, j),
        ) == (Pass { shapes: heaped(shapes, i, j), spawned: Seq::empty(), draws }),
    decreases i, j,
{
    let n = shapes.len();
    let start = Pass { shapes, spawned: Seq::empty(), draws };
    let pairs = pairs_before(n, i, j);
    if j > i + 1 {
        let before_pairs = pairs_before(n, i, (j - 1) as nat);
        lemma_heap_step(shapes, draws, i, (j - 1) as nat);
        let pair = (i as usize, (j - 1) as usize);
        assert(pairs.drop_last() =~= before_pairs);
        assert(pairs.last() == pair);
        let before = Pass { shapes: heaped(shapes, i, (j - 1) as nat), spawned: Seq::empty(), draws };
        assert(resolved(start, pairs) == resolved_pair(before, pair));
        lemma_meets(n, i, j, i as int);
        lemma_meets(n, i, j, j - 1);
        let first = struck(before, i as int, GameObjectType::Rocket);
        assert(first.spawned =~= Seq::empty());
        assert(first.draws =~= draws);
        let second = struck(first, j - 1, GameObjectType::Rocket);
        assert(second.spawned =~= Seq::empty());
        assert(second.draws =~= draws);
        assert(second.shapes =~= heaped(shapes, i, j));
    } else if i > 0 {
        lemma_heap_step(shapes, draws, (i - 1) as nat, n);
        assert(heaped(shapes, i, j) =~= heaped(shapes, (i - 1) as nat, n));
    } else {
        assert(heaped(shapes, i, j) =~= shapes);
    }
}

/// A sequence of which every element passes a test is what the test lets
/// through.
proof fn lemma_filter_keeps_all(pairs: Seq<(usize, usize)>, test: spec_fn((usize, usize)) -> bool)
    requires
        forall|k: int| 0 <= k < pairs.len() ==> test(#[trigger] pairs[k]),
    ensures
        pairs.filter(test) == pairs,
    decreases pairs.len(),
{
    reveal(Seq::filter);
    if pairs.len() > 0 {
        lemma_filter_keeps_all(pairs.drop_last(), test);
        assert(pairs.drop_last().push(pairs.last()) =~= pairs);
    }
}

/// Rockets in a heap, none with a protecting shield: every pair of them
/// collides once, on each side. So a pass over `n` of them leaves each with
/// the damage of `n - 1` rockets more, makes no object and takes no draw.
pub proof fn lemma_rockets_in_a_heap(shapes: Seq<GameObject>, draws: Seq<u32>)
    requires
        is_heap_of_rockets(shapes),
    ensures
        colliding_pairs(shapes) == all_pairs(shapes.len()),
        resolved(Pass { shapes, spawned: Seq::empty(), draws }, colliding_pairs(shapes)).shapes.len()
            == shapes.len(),
        resolved(Pass { shapes, spawned: Seq::empty(), draws }, colliding_pairs(shapes)).spawned
            == Seq::<GameObject>::empty(),
        resolved(Pass { shapes, spawned: Seq::empty(), draws }, colliding_pairs(shapes)).draws == draws,
        forall|k: int|
            0 <= k < shapes.len() ==> #[trigger] resolved(
                Pass { shapes, spawned: Seq::empty(), draws },
                colliding_pairs(shapes),
            ).shapes[k] == rammed(shapes[k], (shapes.len() - 1) as nat),
{
    let n = shapes.len();
    let all = all_pairs(n);
    lemma_all_pairs(n);
    assert forall|k: int| 0 <= k < all.len() implies hit_test(shapes)(#[trigger] all[k]) by {
        let pair = all[k];
        assert(shapes[pair.0 as int].collides(&shapes[pair.1 as int]));
    }
    lemma_filter_keeps_all(all, hit_test(shapes));
    lemma_heap_step(shapes, draws, n, n);
    assert forall|k: int| 0 <= k < n implies #[trigger] heaped(shapes, n, n)[k] == rammed(
        shapes[k],
        (n - 1) as nat,
    ) by {
        lemma_meets(n, n, n, k);
    }
}

} // verus!
