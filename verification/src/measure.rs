//! What the physics measures, as the rules see it.
//!
//! Positions, speeds, timers and hull points are computed by the physics in
//! floating point. The rules never do arithmetic on them: they compare them and
//! carry them from place to place. So a measured number is held here as an
//! integer of the same rank, and whatever has to be added, scaled or turned
//! comes in already computed.

use vstd::prelude::*;

verus! {

/// A 32-bit measurement, as the integer that ranks with it.
///
/// A number that is not negative is carried as its IEEE 754 bit pattern, and a
/// negative one as minus the bit pattern of its magnitude. Zero is 0, two
/// measurements compare exactly as their integers do, and the number can be
/// had back from the integer. There is no rank for "not a number".
pub type Real = i32;

/// A 64-bit measurement, ranked in the same way. Used for moments in time.
pub type Stamp = i64;

/// One half.
pub const HALF: Real = 0x3f00_0000;

/// One.
pub const ONE: Real = 0x3f80_0000;

/// Minus one.
pub const MINUS_ONE: Real = -0x3f80_0000;

/// Minus one half.
pub const MINUS_HALF: Real = -0x3f00_0000;

/// A point on the field, or a displacement across it.
#[derive(Clone, Copy, Debug, PartialEq, Eq, Structural)]
pub struct Vec2 {
    pub x: Real,
    pub y: Real,
}

/// Where a vehicle is and how it is moving. Only an aircraft banks or climbs.
#[derive(Clone, Copy, Debug, PartialEq, Eq, Structural)]
pub struct MoveState {
    pub pos: Vec2,
    pub yaw: Real,
    pub speed: Real,
    pub roll: Real,
    pub alt: Real,
}

/// Whether `i` is the first of the least keys in `keys`.
pub open spec fn is_first_least(keys: Seq<Option<Real>>, i: int) -> bool {
    &&& 0 <= i < keys.len()
    &&& keys[i] is Some
    &&& forall|j: int| 0 <= j < keys.len() && keys[j] is Some ==> keys[i]->0 <= #[trigger] keys[j]->0
    &&& forall|j: int| 0 <= j < i && keys[j] is Some ==> keys[i]->0 < #[trigger] keys[j]->0
}

/// What [`first_least`] finds: the first of the least keys, if there is any key.
pub open spec fn least_pick(keys: Seq<Option<Real>>, r: Option<usize>) -> bool {
    match r {
        Some(i) => is_first_least(keys, i as int),
        None => forall|j: int| 0 <= j < keys.len() ==> keys[j] is None,
    }
}

/// The first of the least keys, if there is any key.
pub open spec fn least_of(keys: Seq<Option<Real>>) -> Option<int> {
    if exists|i: int| is_first_least(keys, i) {
        Some(choose|i: int| is_first_least(keys, i))
    } else {
        None
    }
}

/// There is only one first of the least keys.
pub proof fn lemma_least_is_one(keys: Seq<Option<Real>>, i: int, j: int)
    requires
        is_first_least(keys, i),
        is_first_least(keys, j),
    ensures
        i == j,
{
    assert(keys[i]->0 <= keys[j]->0);
    assert(keys[j]->0 <= keys[i]->0);
}

/// The same pick, as an index into a vector.
pub open spec fn same_index(a: Option<usize>, b: Option<int>) -> bool {
    match a {
        Some(i) => b == Some(i as int),
        None => b is None,
    }
}

/// The candidate with the least key, the earliest of them where several tie.
/// A candidate without a key is out of the running.
pub fn first_least(keys: &Vec<Option<Real>>) -> (r: Option<usize>)
    ensures
        match r {
            Some(i) => {
                &&& i < keys@.len()
                &&& keys@[i as int] is Some
                &&& forall|j: int|
                    0 <= j < keys@.len() && (#[trigger] keys@[j]) is Some ==> keys@[i as int]->0
                        <= keys@[j]->0
                &&& forall|j: int|
                    0 <= j < i && (#[trigger] keys@[j]) is Some ==> keys@[i as int]->0 < keys@[j]->0
            },
            None => forall|j: int| 0 <= j < keys@.len() ==> (#[trigger] keys@[j]) is None,
        },
        least_pick(keys@, r),
        same_index(r, least_of(keys@)),
{
    let mut best: Option<usize> = None;
    let mut i: usize = 0;
    while i < keys.len()
        invariant
            i <= keys.len(),
            match best {
                Some(b) => b < i && is_first_least(keys@.take(i as int), b as int),
                None => forall|j: int| 0 <= j < i ==> keys@[j] is None,
            },
        decreases keys.len() - i,
    {
        let ghost before = keys@.take(i as int);
        let ghost after = keys@.take(i as int + 1);
        if let Some(key) = keys[i] {
            match best {
                Some(b) => {
                    let least: Real = match keys[b] {
                        Some(k) => k,
                        None => key,
                    };
                    if key < least {
                        best = Some(i);
                    }
                    assert forall|j: int|
                        #![trigger after[j]]
                        0 <= j < after.len() && after[j] is Some implies after[best->0 as int]->0 <= after[j]->0 by {
                        if j < i {
                            assert(before[j] == after[j]);
                        }
                    }
                    assert forall|j: int|
                        #![trigger after[j]]
                        0 <= j < best->0 && after[j] is Some implies after[best->0 as int]->0 < after[j]->0 by {
                        assert(before[j] == after[j]);
                    }
                },
                None => {
                    best = Some(i);
                },
            }
        } else {
            if let Some(b) = best {
                assert forall|j: int|
                    #![trigger after[j]]
                    0 <= j < after.len() && after[j] is Some implies after[b as int]->0 <= after[j]->0 by {
                    assert(before[j] == after[j]);
                }
                assert forall|j: int|
                    #![trigger after[j]]
                    0 <= j < b && after[j] is Some implies after[b as int]->0 < after[j]->0 by {
                    assert(before[j] == after[j]);
                }
            }
        }
        i = i + 1;
    }
    assert(keys@.take(keys@.len() as int) =~= keys@);
    proof {
        if let Some(b) = best {
            let chosen = choose|k: int| is_first_least(keys@, k);
            lemma_least_is_one(keys@, b as int, chosen);
        }
    }
    best
}

/// What `f` lists for each of the first `n` numbers, end to end.
pub open spec fn gathered<T>(n: nat, f: spec_fn(int) -> Seq<T>) -> Seq<T>
    decreases n,
{
    if n == 0 {
        Seq::empty()
    } else {
        gathered((n - 1) as nat, f) + f(n - 1)
    }
}

/// A list of one thing or of none.
pub open spec fn listed_if<T>(present: bool, item: T) -> Seq<T> {
    if present {
        seq![item]
    } else {
        Seq::empty()
    }
}

/// Whether entry `a` comes before entry `b` when `keys` are ranked: by key, and
/// in the order they were given where two keys are equal.
pub open spec fn ranks_before(keys: Seq<Real>, a: int, b: int) -> bool {
    keys[a] < keys[b] || (keys[a] == keys[b] && a < b)
}

/// Whether `picked` is the first `picked.len()` entries of `keys` in rank order.
pub open spec fn ranked_prefix(keys: Seq<Real>, picked: Seq<usize>) -> bool {
    &&& forall|i: int| 0 <= i < picked.len() ==> 0 <= #[trigger] picked[i] < keys.len()
    &&& forall|i: int, j: int|
        0 <= i < j < picked.len() ==> ranks_before(keys, picked[i] as int, picked[j] as int)
    &&& forall|k: int, i: int|
        #![trigger ranks_before(keys, picked[i] as int, k)]
        0 <= k < keys.len() && 0 <= i < picked.len() && !picked.contains(k as usize)
            ==> ranks_before(keys, picked[i] as int, k)
}

/// Ranks `keys` and keeps the first `keep`: the indices, nearest first, ties in
/// the order they were given.
pub fn nearest_first(keys: &Vec<Real>, keep: usize) -> (picked: Vec<usize>)
    ensures
        forall|i: int| 0 <= i < picked@.len() ==> (#[trigger] picked@[i]) < keys@.len(),
        forall|i: int, j: int|
            0 <= i < j < picked@.len() ==> picked@[i] != picked@[j] && keys@[#[trigger] picked@[i] as int]
                <= keys@[#[trigger] picked@[j] as int],
        forall|i: int, k: usize|
            0 <= i < picked@.len() && k < keys@.len() && !(#[trigger] picked@.contains(k))
                ==> keys@[(#[trigger] picked@[i]) as int] <= keys@[k as int],
        ranked_prefix(keys@, picked@),
        picked@.len() == if keep < keys@.len() { keep as nat } else { keys@.len() },
{
    let mut order: Vec<usize> = Vec::new();
    let mut i: usize = 0;
    while i < keys.len()
        invariant
            i <= keys.len(),
            order@.len() == i,
            forall|a: int| 0 <= a < order@.len() ==> #[trigger] order@[a] < i,
            forall|k: usize| k < i ==> #[trigger] order@.contains(k),
            forall|a: int, b: int|
                0 <= a < b < order@.len() ==> ranks_before(
                    keys@,
                    #[trigger] order@[a] as int,
                    #[trigger] order@[b] as int,
                ),
        decreases keys.len() - i,
    {
        let ghost held = order@;
        let mut at: usize = order.len();
        while at > 0 && keys[order[at - 1]] > keys[i]
            invariant
                at <= order@.len(),
                order@ == held,
                held.len() == i,
                i < keys.len(),
                forall|a: int| 0 <= a < held.len() ==> #[trigger] held[a] < i,
                forall|a: int| at <= a < held.len() ==> keys@[#[trigger] held[a] as int] > keys@[i as int],
            decreases at,
        {
            at = at - 1;
        }
        order.insert(at, i);
        proof {
            assert(order@ == held.insert(at as int, i));
            assert forall|k: usize| k < i + 1 implies #[trigger] order@.contains(k) by {
                if k == i {
                    assert(order@[at as int] == i);
                } else {
                    assert(held.contains(k));
                    let a = choose|a: int| 0 <= a < held.len() && held[a] == k;
                    if a < at {
                        assert(order@[a] == k);
                    } else {
                        assert(order@[a + 1] == k);
                    }
                }
            }
            assert forall|a: int, b: int| 0 <= a < b < order@.len() implies ranks_before(
                keys@,
                #[trigger] order@[a] as int,
                #[trigger] order@[b] as int,
            ) by {
                let oa = if a < at { a } else { a - 1 };
                let ob = if b < at { b } else { b - 1 };
                if a != at && b != at {
                    assert(order@[a] == held[oa] && order@[b] == held[ob]);
                } else if a == at {
                    assert(order@[b] == held[ob]);
                } else {
                    assert(order@[a] == held[a]);
                    if a < at - 1 {
                        assert(ranks_before(keys@, held[a] as int, held[at - 1] as int));
                    }
                }
            }
        }
        i = i + 1;
    }
    let ghost full = order@;
    if keep < order.len() {
        order.truncate(keep);
    }
    proof {
        assert forall|k: int, a: int|
            #![trigger ranks_before(keys@, order@[a] as int, k)]
            0 <= k < keys@.len() && 0 <= a < order@.len() && !order@.contains(k as usize) implies ranks_before(
            keys@,
            order@[a] as int,
            k,
        ) by {
            assert(full.contains(k as usize));
            let c = choose|c: int| 0 <= c < full.len() && full[c] == k as usize;
            if c < order@.len() {
                assert(order@[c] == k as usize);
            }
            assert(order@[a] == full[a]);
            assert(full[c] == k);
        }
        assert forall|i: int, k: usize|
            0 <= i < order@.len() && k < keys@.len() && !(#[trigger] order@.contains(
                k,
            )) implies keys@[(#[trigger] order@[i]) as int] <= keys@[k as int] by {
            assert(ranks_before(keys@, order@[i] as int, k as int));
        }
    }
    order
}

/// The least of the keys is the least, the earliest where several tie, and is
/// there as soon as there is any key at all.
pub proof fn lemma_least(keys: Seq<Option<Real>>)
    ensures
        match least_of(keys) {
            Some(i) => {
                &&& 0 <= i < keys.len()
                &&& keys[i] is Some
                &&& forall|j: int|
                    0 <= j < keys.len() && (#[trigger] keys[j]) is Some ==> keys[i]->0 <= keys[j]->0
                &&& forall|j: int|
                    0 <= j < i && (#[trigger] keys[j]) is Some ==> keys[i]->0 < keys[j]->0
            },
            None => forall|j: int| 0 <= j < keys.len() ==> (#[trigger] keys[j]) is None,
        },
{
    if exists|j: int| 0 <= j < keys.len() && (#[trigger] keys[j]) is Some {
        let n = keys.len();
        assert(keys.take(n as int) =~= keys);
        lemma_there_is_a_least(keys, n);
    }
}

proof fn lemma_there_is_a_least(keys: Seq<Option<Real>>, n: nat)
    requires
        n <= keys.len(),
        exists|j: int| 0 <= j < n && (#[trigger] keys[j]) is Some,
    ensures
        exists|i: int| is_first_least(keys.take(n as int), i),
    decreases n,
{
    let all = keys.take(n as int);
    let m = (n - 1) as nat;
    if exists|j: int| 0 <= j < m && (#[trigger] keys[j]) is Some {
        lemma_there_is_a_least(keys, m);
        let before = keys.take(m as int);
        let i = choose|i: int| is_first_least(before, i);
        assert(forall|j: int| 0 <= j < m ==> before[j] == all[j]);
        if all[n - 1] is Some && all[n - 1]->0 < all[i]->0 {
            assert forall|j: int| #![trigger all[j]] 0 <= j < all.len() && all[j] is Some implies all[n - 1]->0
                <= all[j]->0 by {
                if j < m {
                    assert(before[i]->0 <= before[j]->0);
                }
            }
            assert forall|j: int| #![trigger all[j]] 0 <= j < n - 1 && all[j] is Some implies all[n - 1]->0
                < all[j]->0 by {
                assert(before[i]->0 <= before[j]->0);
            }
            assert(is_first_least(all, n - 1));
        } else {
            assert forall|j: int| #![trigger all[j]] 0 <= j < all.len() && all[j] is Some implies all[i]->0
                <= all[j]->0 by {
                if j < m {
                    assert(before[i]->0 <= before[j]->0);
                }
            }
            assert forall|j: int| #![trigger all[j]] 0 <= j < i && all[j] is Some implies all[i]->0
                < all[j]->0 by {
                assert(before[i]->0 < before[j]->0);
            }
            assert(is_first_least(all, i));
        }
    } else {
        assert(keys[n - 1] is Some);
        assert(is_first_least(all, n - 1));
    }
}

/// What is gathered comes from somewhere.
pub proof fn lemma_gathered_from<T>(n: nat, f: spec_fn(int) -> Seq<T>, x: T)
    requires
        gathered(n, f).contains(x),
    ensures
        exists|i: int| 0 <= i < n && (#[trigger] f(i)).contains(x),
    decreases n,
{
    if n > 0 {
        let m = (n - 1) as nat;
        let (before, own) = (gathered(m, f), f(n - 1));
        let k = choose|k: int| 0 <= k < (before + own).len() && (before + own)[k] == x;
        if k < before.len() {
            assert(before[k] == x);
            lemma_gathered_from(m, f, x);
        } else {
            assert(own[k - before.len()] == x);
            assert(f(n - 1).contains(x));
        }
    }
}

/// Everything listed is gathered.
pub proof fn lemma_gathered_holds<T>(n: nat, f: spec_fn(int) -> Seq<T>, i: int, x: T)
    requires
        0 <= i < n,
        f(i).contains(x),
    ensures
        gathered(n, f).contains(x),
    decreases n,
{
    let m = (n - 1) as nat;
    let (before, own) = (gathered(m, f), f(n - 1));
    if i == n - 1 {
        let k = choose|k: int| 0 <= k < own.len() && own[k] == x;
        assert((before + own)[before.len() + k] == x);
    } else {
        lemma_gathered_holds(m, f, i, x);
        let k = choose|k: int| 0 <= k < before.len() && before[k] == x;
        assert((before + own)[k] == x);
    }
}

} // verus!
