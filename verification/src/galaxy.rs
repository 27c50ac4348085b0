//! Galaxy graph: a ring of planets with random shortcuts.
//!
//! Planets `1..=n` form a ring (`1-2-...-n-1`). On top of that, shortcut
//! edges are drawn at startup from a per-planet budget: four planets may add at
//! most one shortcut, two at most two, one at most three; the number actually
//! drawn is weighted so that zero is the most likely outcome.
//!
//! Everything is driven by a small xorshift64 generator, so a seed fixes the
//! whole graph.

use vstd::prelude::*;

verus! {

// =========================================================================
// PSEUDO-RANDOM GENERATOR
// =========================================================================

/// One step of the xorshift64 generator.
pub open spec fn xorshift(x: u64) -> u64 {
    let a = x ^ (x << 13u64);
    let b = a ^ (a >> 7u64);
    b ^ (b << 17u64)
}

/// `2^53`: the resolution of a uniform draw.
pub open spec fn draw_resolution() -> nat {
    9007199254740992
}

/// A uniform draw in `0..total` taken from the top 53 bits of `x`:
/// `floor(u * total)` where `u = (x >> 11) / 2^53` lies in `[0, 1)`.
pub open spec fn draw_below(x: u64, total: nat) -> nat {
    (((x >> 11u64) as nat) * total) / draw_resolution()
}

/// Sum of the weights.
pub open spec fn weight_sum(ws: Seq<u32>) -> nat
    decreases ws.len(),
{
    if ws.len() == 0 {
        0
    } else {
        weight_sum(ws.drop_last()) + ws.last() as nat
    }
}

/// The index picked by walking the weights with the draw `r`: the first
/// index whose cumulative weight exceeds `r`, or the last index.
pub open spec fn weighted_pick(ws: Seq<u32>, r: int) -> nat
    decreases ws.len(),
{
    if ws.len() <= 1 {
        0
    } else if r < ws[0] {
        0
    } else {
        1 + weighted_pick(ws.drop_first(), r - ws[0])
    }
}

/// Fisher-Yates from index `i` down to `1`: the shuffled sequence and the
/// generator state after it.
pub open spec fn shuffle_from(s: Seq<u32>, x: u64, i: nat) -> (Seq<u32>, u64)
    decreases i,
{
    if i == 0 || i >= s.len() {
        (s, x)
    } else {
        let x2 = xorshift(x);
        let j = ((x2 as usize) as nat) % (i + 1);
        shuffle_from(s.update(i as int, s[j as int]).update(j as int, s[i as int]), x2, (i - 1) as nat)
    }
}

/// A full shuffle of `s` with generator state `x`.
pub open spec fn spec_shuffle(s: Seq<u32>, x: u64) -> (Seq<u32>, u64) {
    if s.len() <= 1 {
        (s, x)
    } else {
        shuffle_from(s, x, (s.len() - 1) as nat)
    }
}

/// Reservoir sampling from position `i` on.
pub open spec fn reservoir(slice: Seq<u32>, k: nat, res: Seq<u32>, x: u64, i: nat) -> (Seq<u32>, u64)
    decreases slice.len() - i,
{
    if i >= slice.len() {
        (res, x)
    } else {
        let x2 = xorshift(x);
        let j = ((x2 as usize) as nat) % (i + 1);
        let res2 = if j < k { res.update(j as int, slice[i as int]) } else { res };
        reservoir(slice, k, res2, x2, i + 1)
    }
}

/// Reservoir sample of `k` elements of `slice`, without replacement.
pub open spec fn spec_sample(slice: Seq<u32>, k: nat, x: u64) -> (Seq<u32>, u64) {
    if k == 0 || slice.len() == 0 {
        (Seq::empty(), x)
    } else if k >= slice.len() {
        (slice, x)
    } else {
        reservoir(slice, k, slice.take(k as int), x, k)
    }
}

proof fn lemma_weight_sum_prefix(ws: Seq<u32>, i: int)
    requires
        0 <= i <= ws.len(),
    ensures
        weight_sum(ws.take(i)) <= weight_sum(ws),
    decreases ws.len(),
{
    if i < ws.len() {
        assert(ws.drop_last().take(i) =~= ws.take(i));
        lemma_weight_sum_prefix(ws.drop_last(), i);
    } else {
        assert(ws.take(i) =~= ws);
    }
}

proof fn lemma_pick_below(ws: Seq<u32>, r: int)
    requires
        ws.len() >= 1,
    ensures
        weighted_pick(ws, r) < ws.len(),
    decreases ws.len(),
{
    if ws.len() > 1 && r >= ws[0] {
        lemma_pick_below(ws.drop_first(), r - ws[0]);
    }
}

proof fn lemma_weight_sum_first(ws: Seq<u32>)
    requires
        ws.len() >= 1,
    ensures
        weight_sum(ws) == ws[0] as nat + weight_sum(ws.drop_first()),
    decreases ws.len(),
{
    if ws.len() > 1 {
        lemma_weight_sum_first(ws.drop_last());
        assert(ws.drop_last().drop_first() =~= ws.drop_first().drop_last());
    } else {
        assert(ws.drop_last() =~= Seq::<u32>::empty());
        assert(ws.drop_first() =~= Seq::<u32>::empty());
    }
}

/// A draw below the total weight never picks a zero weight.
pub proof fn lemma_pick_is_weighted(ws: Seq<u32>, r: int)
    requires
        ws.len() >= 1,
        0 <= r < weight_sum(ws),
    ensures
        ws[weighted_pick(ws, r) as int] > 0,
    decreases ws.len(),
{
    lemma_weight_sum_first(ws);
    if ws.len() == 1 {
        assert(ws.drop_first() =~= Seq::<u32>::empty());
    } else if r >= ws[0] {
        lemma_pick_is_weighted(ws.drop_first(), r - ws[0]);
        let k = weighted_pick(ws.drop_first(), r - ws[0]);
        lemma_pick_below(ws.drop_first(), r - ws[0]);
        assert(weighted_pick(ws, r) == 1 + k);
        assert(ws[1 + k as int] == ws.drop_first()[k as int]);
    } else {
        assert(weighted_pick(ws, r) == 0);
    }
}

/// Swapping two entries keeps the same elements.
pub proof fn lemma_swap_multiset(s: Seq<u32>, i: int, j: int)
    requires
        0 <= i < s.len(),
        0 <= j < s.len(),
    ensures
        s.update(i, s[j]).update(j, s[i]).to_multiset() == s.to_multiset(),
{
    broadcast use vstd::seq_lib::to_multiset_update;
    broadcast use vstd::multiset::group_multiset_axioms;
    let s1 = s.update(i, s[j]);
    assert(s1.to_multiset() == s.to_multiset().insert(s[j]).remove(s[i]));
    assert(s1.update(j, s[i]).to_multiset() == s1.to_multiset().insert(s[i]).remove(s1[j]));
    assert(s1[j] == s[j]);
    let m = s.to_multiset();
    assert forall|x: u32| #[trigger] m.insert(s[j]).remove(s[i]).insert(s[i]).remove(s[j]).count(x) == m.count(x) by {
        if s[i] != s[j] {
            assert(m.count(s[i]) > 0) by {
                vstd::seq_lib::to_multiset_contains(s, s[i]);
            }
        }
    }
    assert(s1.update(j, s[i]).to_multiset() =~= s.to_multiset());
}

/// `res` holds the elements of `slice` found at the distinct positions
/// `idx`.
pub open spec fn picked_at(slice: Seq<u32>, res: Seq<u32>, idx: Seq<int>) -> bool {
    &&& idx.len() == res.len()
    &&& idx.no_duplicates()
    &&& forall|m: int| 0 <= m < idx.len() ==> 0 <= #[trigger] idx[m] < slice.len() && res[m] == slice[idx[m]]
}

/// Minimal dependency-free generator (xorshift64).
struct Rng {
    state: u64,
}

impl Rng {
    fn new(seed: u64) -> (r: Rng)
        ensures
            r.state == seed | 1,
    {
        Rng { state: seed | 1 }
    }

    fn next(&mut self) -> (x: u64)
        ensures
            x == xorshift(old(self).state),
            final(self).state == x,
    {
        let mut x = self.state;
        x = x ^ (x << 13u64);
        x = x ^ (x >> 7u64);
        x = x ^ (x << 17u64);
        self.state = x;
        x
    }

    /// Picks an index from `weights` proportionally.
    fn weighted_choice(&mut self, weights: &Vec<u32>) -> (i: u32)
        requires
            1 <= weights@.len() <= u32::MAX,
            weight_sum(weights@) <= u32::MAX,
        ensures
            final(self).state == xorshift(old(self).state),
            i == weighted_pick(weights@, draw_below(final(self).state, weight_sum(weights@)) as int),
            i < weights@.len(),
            weight_sum(weights@) > 0 ==> weights@[i as int] > 0,
    {
        let mut total: u32 = 0;
        let mut k: usize = 0;
        while k < weights.len()
            invariant
                k <= weights@.len(),
                total == weight_sum(weights@.take(k as int)),
                weight_sum(weights@) <= u32::MAX,
            decreases weights@.len() - k,
        {
            proof {
                assert(weights@.take(k + 1).drop_last() =~= weights@.take(k as int));
                lemma_weight_sum_prefix(weights@, k + 1);
            }
            total = total + weights[k];
            k = k + 1;
        }
        proof {
            assert(weights@.take(weights@.len() as int) =~= weights@);
        }
        let x = self.next();
        let m: u64 = x >> 11u64;
        assert(m < 9007199254740992u64) by (bit_vector)
            requires
                m == x >> 11u64,
        ;
        let t: u128 = total as u128;
        assert((m as int) * (t as int) <= 9007199254740992int * 4294967295int) by (nonlinear_arith)
            requires
                0 <= m < 9007199254740992u64,
                0 <= t <= 4294967295u128,
        ;
        let prod: u128 = (m as u128) * t;
        let q: u128 = prod / 9007199254740992u128;
        assert(q < t || t == 0) by (nonlinear_arith)
            requires
                q == prod / 9007199254740992u128,
                prod == (m as u128) * t,
                m < 9007199254740992u64,
        ;
        let ghost r0: int = q as int;
        assert(r0 == draw_below(x, weight_sum(weights@)));
        proof {
            if weight_sum(weights@) > 0 {
                lemma_pick_is_weighted(weights@, r0);
            }
        }
        let mut r: u32 = q as u32;
        let mut i: usize = 0;
        let len = weights.len();
        while i < len
            invariant
                len == weights@.len(),
                len >= 1,
                len <= u32::MAX,
                self.state == xorshift(old(self).state),
                r0 == draw_below(self.state, weight_sum(weights@)),
                i <= len,
                i < len ==> weighted_pick(weights@, r0) == i + weighted_pick(weights@.skip(i as int), r as int),
                i == len ==> weighted_pick(weights@, r0) == len - 1,
            decreases len - i,
        {
            proof {
                let s = weights@.skip(i as int);
                if s.len() > 1 {
                    assert(s.drop_first() =~= weights@.skip(i + 1));
                }
            }
            if r < weights[i] {
                proof {
                    lemma_pick_below(weights@, r0);
                }
                return i as u32;
            }
            r = r - weights[i];
            i = i + 1;
        }
        proof {
            lemma_pick_below(weights@, r0);
        }
        (len - 1) as u32
    }

    /// Fisher-Yates shuffle in place.
    fn shuffle(&mut self, v: &mut Vec<u32>)
        ensures
            (final(v)@, final(self).state) == spec_shuffle(old(v)@, old(self).state),
            final(v)@.len() == old(v)@.len(),
            final(v)@.to_multiset() == old(v)@.to_multiset(),
            forall|k: int| 0 <= k < final(v)@.len() ==> old(v)@.contains(#[trigger] final(v)@[k]),
    {
        let n = v.len();
        if n <= 1 {
            return;
        }
        let ghost target = spec_shuffle(v@, self.state);
        let ghost orig = v@;
        let mut i: usize = n - 1;
        while i > 0
            invariant
                v@.len() == n,
                i < n,
                shuffle_from(v@, self.state, i as nat) == target,
                v@.to_multiset() == orig.to_multiset(),
                forall|k: int| 0 <= k < v@.len() ==> orig.contains(#[trigger] v@[k]),
            decreases i,
        {
            let x = self.next();
            let j = (x as usize) % (i + 1);
            let vi = v[i];
            let vj = v[j];
            proof {
                assert(orig.contains(v@[i as int]));
                assert(orig.contains(v@[j as int]));
                lemma_swap_multiset(v@, i as int, j as int);
            }
            v.set(i, vj);
            v.set(j, vi);
            i = i - 1;
        }
    }

    /// Reservoir sample `k` elements from `slice` without replacement.
    fn sample(&mut self, slice: &Vec<u32>, k: usize) -> (res: Vec<u32>)
        ensures
            (res@, final(self).state) == spec_sample(slice@, k as nat, old(self).state),
            res@.len() == if k == 0 || slice@.len() == 0 { 0 } else if k < slice@.len() { k as int } else { slice@.len() as int },
            exists|idx: Seq<int>| #[trigger] picked_at(slice@, res@, idx),
            forall|m: int| 0 <= m < res@.len() ==> slice@.contains(#[trigger] res@[m]),
    {
        if k == 0 || slice.len() == 0 {
            proof {
                assert(picked_at(slice@, Seq::<u32>::empty(), Seq::<int>::empty()));
            }
            return Vec::new();
        }
        let take = if k < slice.len() { k } else { slice.len() };
        let mut result: Vec<u32> = Vec::new();
        let mut p: usize = 0;
        while p < take
            invariant
                take <= slice@.len(),
                p <= take,
                result@ == slice@.take(p as int),
            decreases take - p,
        {
            proof {
                assert(slice@.take(p + 1) =~= slice@.take(p as int).push(slice@[p as int]));
            }
            result.push(slice[p]);
            p = p + 1;
        }
        let ghost mut idx: Seq<int> = Seq::new(take as nat, |m: int| m);
        assert(picked_at(slice@, result@, idx));
        if k >= slice.len() {
            proof {
                assert(result@ =~= slice@);
                assert forall|m: int| 0 <= m < result@.len() implies slice@.contains(#[trigger] result@[m]) by {
                    assert(result@[m] == slice@[m]);
                }
            }
            return result;
        }
        let ghost target = spec_sample(slice@, k as nat, self.state);
        let mut i: usize = k;
        while i < slice.len()
            invariant
                k < slice@.len(),
                k <= i <= slice@.len(),
                result@.len() == k,
                reservoir(slice@, k as nat, result@, self.state, i as nat) == target,
                forall|m: int| 0 <= m < result@.len() ==> slice@.contains(#[trigger] result@[m]),
                picked_at(slice@, result@, idx),
                forall|m: int| 0 <= m < idx.len() ==> #[trigger] idx[m] < i,
            decreases slice@.len() - i,
        {
            let x = self.next();
            let j = (x as usize) % (i + 1);
            if j < k {
                proof {
                    assert(slice@.contains(slice@[i as int]));
                    let old_idx = idx;
                    idx = idx.update(j as int, i as int);
                    assert forall|a: int, b: int| 0 <= a < idx.len() && 0 <= b < idx.len() && a != b
                        implies idx[a] != idx[b] by {
                        if a != j && b != j {
                            assert(old_idx[a] != old_idx[b]);
                        } else if a == j {
                            assert(old_idx[b] < i);
                        } else {
                            assert(old_idx[a] < i);
                        }
                    }
                }
                result.set(j, slice[i]);
            }
            i = i + 1;
        }
        proof {
            assert(picked_at(slice@, result@, idx));
        }
        result
    }
}

// =========================================================================
// LAYOUT
// =========================================================================

/// The ring successor of planet `i` among planets `1..=n`.
pub open spec fn ring_next(i: u32, n: u32) -> u32 {
    if i == n { 1 } else { (i + 1) as u32 }
}

/// The complete adjacency graph and edge list for the galaxy.
pub struct GalaxyLayout {
    /// `adjacency[id]`: sorted list of the planets reachable from `id`
    /// (index 0 is unused and always empty).
    adjacency: Vec<Vec<u32>>,
    /// All edges as `(lo, hi)` pairs, sorted.
    pub edges: Vec<(u32, u32)>,
}

impl GalaxyLayout {
    /// Number of planets the layout was built for.
    pub closed spec fn planet_count(self) -> nat {
        if self.adjacency@.len() == 0 { 0 } else { (self.adjacency@.len() - 1) as nat }
    }

    /// The edge list.
    pub closed spec fn spec_edges(self) -> Seq<(u32, u32)> {
        self.edges@
    }

    /// The neighbours of planet `id` (empty for an unknown planet).
    pub closed spec fn spec_neighbors(self, id: u32) -> Seq<u32> {
        if 1 <= id && (id as int) < self.adjacency@.len() {
            self.adjacency@[id as int]@
        } else {
            Seq::empty()
        }
    }

    /// The edge list.
    pub fn edge_list(&self) -> (e: &Vec<(u32, u32)>)
        ensures
            e@ == self.spec_edges(),
    {
        &self.edges
    }

    /// Only the planets `1..=planet_count()` have neighbours.
    pub proof fn lemma_neighbors_known(self, id: u32)
        requires
            self.spec_neighbors(id).len() > 0,
        ensures
            1 <= id <= self.planet_count(),
    {
    }

    /// Number of planets the layout was built for.
    pub fn planet_total(&self) -> (n: usize)
        ensures
            n == self.planet_count(),
    {
        if self.adjacency.len() == 0 { 0 } else { self.adjacency.len() - 1 }
    }

    /// Returns the neighbours of `planet_id`. The layout is static and
    /// complete; dead planets are filtered later by the caller.
    pub fn neighbors_of(&self, planet_id: u32) -> (ns: Vec<u32>)
        ensures
            ns@ == self.spec_neighbors(planet_id),
    {
        if planet_id >= 1 && (planet_id as usize) < self.adjacency.len() {
            let row = &self.adjacency[planet_id as usize];
            let mut out: Vec<u32> = Vec::new();
            let mut k: usize = 0;
            while k < row.len()
                invariant
                    k <= row@.len(),
                    out@ == row@.take(k as int),
                decreases row@.len() - k,
            {
                proof {
                    assert(row@.take(k + 1) =~= row@.take(k as int).push(row@[k as int]));
                }
                out.push(row[k]);
                k = k + 1;
            }
            proof {
                assert(row@.take(row@.len() as int) =~= row@);
            }
            out
        } else {
            Vec::new()
        }
    }
}

/// A square boolean matrix of side `size`, symmetric, whose true entries
/// only relate planets `1..=n`.
spec fn link_ok(link: Seq<Vec<bool>>, n: u32) -> bool {
    &&& link.len() == n + 1
    &&& forall|a: int| 0 <= a <= n ==> (#[trigger] link[a])@.len() == n + 1
    &&& forall|a: int, b: int| 0 <= a <= n && 0 <= b <= n ==> link[a]@[b] == link[b]@[a]
    &&& forall|a: int, b: int| 0 <= a <= n && 0 <= b <= n && #[trigger] link[a]@[b] ==> 1 <= a && 1 <= b
}

/// A link between two planets, as its `(lo, hi)` pair.
pub open spec fn norm(a: u32, b: u32) -> (u32, u32) {
    if a <= b { (a, b) } else { (b, a) }
}

/// The matrix holds exactly the links of `e` among planets `1..=n`.
spec fn links_match(link: Seq<Vec<bool>>, e: Set<(u32, u32)>, n: u32) -> bool {
    forall|a: u32, b: u32| #![trigger link[a as int]@[b as int]] 1 <= a <= n && 1 <= b <= n ==>
        (link[a as int]@[b as int] <==> e.contains(norm(a, b)))
}

/// The ring links of planets `1..=i`.
pub open spec fn ring_links(n: u32, i: nat) -> Set<(u32, u32)>
    decreases i,
{
    if i == 0 {
        Set::empty()
    } else {
        ring_links(n, (i - 1) as nat).insert(norm(i as u32, ring_next(i as u32, n)))
    }
}

/// The shortcut budgets before they are shuffled.
pub open spec fn budget_list() -> Seq<u32> {
    seq![1u32, 1u32, 1u32, 1u32, 2u32, 2u32, 3u32]
}

/// The weights of drawing `0..=budget` shortcuts.
pub open spec fn shortcut_weights(budget: u32) -> Seq<u32> {
    seq![50u32, 30u32, 15u32, 5u32].take(budget as int + 1)
}

/// The planets among `1..=m` that `planet` is not linked to, itself excluded,
/// in increasing order.
pub open spec fn candidates_upto(e: Set<(u32, u32)>, planet: u32, m: nat) -> Seq<u32>
    decreases m,
{
    if m == 0 {
        Seq::empty()
    } else {
        let rest = candidates_upto(e, planet, (m - 1) as nat);
        let q = m as u32;
        if q != planet && !e.contains(norm(q, planet)) { rest.push(q) } else { rest }
    }
}

/// `e` with `planet` linked to each of `ds`.
pub open spec fn with_links(e: Set<(u32, u32)>, ds: Seq<u32>, planet: u32) -> Set<(u32, u32)>
    decreases ds.len(),
{
    if ds.len() == 0 {
        e
    } else {
        with_links(e, ds.drop_last(), planet).insert(norm(ds.last(), planet))
    }
}

/// The shortcuts `planet` draws: a count weighted by its budget, then that
/// many of its candidates, sampled. Gives the links and the generator after.
pub open spec fn draw_step(n: u32, budgets: Seq<u32>, e: Set<(u32, u32)>, x: u64, planet: u32) -> (Set<(u32, u32)>, u64) {
    let ws = shortcut_weights(budgets[planet - 1]);
    let x1 = xorshift(x);
    let count = weighted_pick(ws, draw_below(x1, weight_sum(ws)) as int);
    let cands = candidates_upto(e, planet, n as nat);
    let actual = if count < cands.len() { count } else { cands.len() };
    let drawn = spec_sample(cands, actual, x1);
    (with_links(e, drawn.0, planet), drawn.1)
}

/// The shortcuts of planets `planet..=n`, drawn in order.
pub open spec fn draw_from(n: u32, budgets: Seq<u32>, e: Set<(u32, u32)>, x: u64, planet: nat) -> (Set<(u32, u32)>, u64)
    decreases n + 1 - planet,
{
    if planet == 0 || planet > n {
        (e, x)
    } else {
        let next = draw_step(n, budgets, e, x, planet as u32);
        draw_from(n, budgets, next.0, next.1, planet + 1)
    }
}

/// The links of the galaxy built for `n` planets from `seed`.
pub open spec fn galaxy_links(n: u32, seed: u64) -> Set<(u32, u32)> {
    let shuffled = spec_shuffle(budget_list(), seed | 1);
    draw_from(n, shuffled.0, ring_links(n, n as nat), shuffled.1, 1).0
}

/// The planets among `1..=m` linked to `a`, in increasing order; a planet
/// linked to itself is listed twice.
pub open spec fn neighbor_seq(e: Set<(u32, u32)>, a: u32, m: nat) -> Seq<u32>
    decreases m,
{
    if m == 0 {
        Seq::empty()
    } else {
        let rest = neighbor_seq(e, a, (m - 1) as nat);
        let b = m as u32;
        if e.contains(norm(a, b)) {
            if a == b { rest.push(b).push(b) } else { rest.push(b) }
        } else {
            rest
        }
    }
}

/// The links `(a, y)` with `a <= y <= m`, in increasing `y`.
pub open spec fn edge_row(e: Set<(u32, u32)>, a: u32, m: nat) -> Seq<(u32, u32)>
    decreases m,
{
    if m == 0 {
        Seq::empty()
    } else {
        let rest = edge_row(e, a, (m - 1) as nat);
        let y = m as u32;
        if a <= y && e.contains((a, y)) { rest.push((a, y)) } else { rest }
    }
}

/// The links `(x, y)` with `x <= y`, `x <= a` and `y <= n`, in
/// lexicographic order.
pub open spec fn edge_rows(e: Set<(u32, u32)>, n: u32, a: nat) -> Seq<(u32, u32)>
    decreases a,
{
    if a == 0 {
        Seq::empty()
    } else {
        edge_rows(e, n, (a - 1) as nat) + edge_row(e, a as u32, n as nat)
    }
}

// =========================================================================
// HOW MANY LINKS A GALAXY HAS
// =========================================================================

proof fn lemma_ring_member(n: u32, m: nat, p: (u32, u32))
    requires
        ring_links(n, m).contains(p),
    ensures
        exists|j: nat| 1 <= j <= m && p == #[trigger] norm(j as u32, ring_next(j as u32, n)),
    decreases m,
{
    if m > 0 {
        if p != norm(m as u32, ring_next(m as u32, n)) {
            lemma_ring_member(n, (m - 1) as nat, p);
            let j = choose|j: nat| 1 <= j <= m - 1 && p == #[trigger] norm(j as u32, ring_next(j as u32, n));
            assert(1 <= j <= m && p == norm(j as u32, ring_next(j as u32, n)));
        } else {
            assert(p == norm(m as u32, ring_next(m as u32, n)));
        }
    }
}

/// The ring of `n` planets has at most one link per planet, and exactly one
/// per planet from three planets on.
pub proof fn lemma_ring_size(n: u32, i: nat)
    requires
        i <= n,
    ensures
        ring_links(n, i).finite(),
        ring_links(n, i).len() <= i,
        n >= 3 ==> ring_links(n, i).len() == i,
    decreases i,
{
    broadcast use vstd::set::group_set_axioms;
    if i > 0 {
        lemma_ring_size(n, (i - 1) as nat);
        let prev = ring_links(n, (i - 1) as nat);
        let p = norm(i as u32, ring_next(i as u32, n));
        if n >= 3 && prev.contains(p) {
            lemma_ring_member(n, (i - 1) as nat, p);
            let j = choose|j: nat| 1 <= j <= i - 1 && p == #[trigger] norm(j as u32, ring_next(j as u32, n));
            assert(false);
        }
    }
}

proof fn lemma_with_links_size(e: Set<(u32, u32)>, ds: Seq<u32>, planet: u32)
    requires
        e.finite(),
    ensures
        with_links(e, ds, planet).finite(),
        with_links(e, ds, planet).len() <= e.len() + ds.len(),
    decreases ds.len(),
{
    broadcast use vstd::set::group_set_axioms;
    if ds.len() > 0 {
        lemma_with_links_size(e, ds.drop_last(), planet);
    }
}

proof fn lemma_reservoir_len(slice: Seq<u32>, k: nat, res: Seq<u32>, x: u64, i: nat)
    requires
        res.len() == k,
    ensures
        reservoir(slice, k, res, x, i).0.len() == res.len(),
    decreases slice.len() - i,
{
    if i < slice.len() {
        let x2 = xorshift(x);
        let j = ((x2 as usize) as nat) % (i + 1);
        let res2 = if j < k { res.update(j as int, slice[i as int]) } else { res };
        lemma_reservoir_len(slice, k, res2, x2, i + 1);
    }
}

proof fn lemma_sample_len(slice: Seq<u32>, k: nat, x: u64)
    ensures
        spec_sample(slice, k, x).0.len() <= k,
{
    if !(k == 0 || slice.len() == 0) && k < slice.len() {
        lemma_reservoir_len(slice, k, slice.take(k as int), x, k);
    }
}

/// A planet's draw adds at most its budget of shortcuts.
pub proof fn lemma_draw_step_size(n: u32, budgets: Seq<u32>, e: Set<(u32, u32)>, x: u64, planet: u32)
    requires
        e.finite(),
        1 <= planet <= budgets.len(),
        budgets[planet - 1] <= 3,
    ensures
        draw_step(n, budgets, e, x, planet).0.finite(),
        draw_step(n, budgets, e, x, planet).0.len() <= e.len() + budgets[planet - 1],
{
    let ws = shortcut_weights(budgets[planet - 1]);
    let x1 = xorshift(x);
    let r = draw_below(x1, weight_sum(ws)) as int;
    assert(ws.len() == budgets[planet - 1] + 1);
    lemma_pick_below(ws, r);
    let count = weighted_pick(ws, r);
    let cands = candidates_upto(e, planet, n as nat);
    let actual = if count < cands.len() { count } else { cands.len() };
    lemma_sample_len(cands, actual, x1);
    lemma_with_links_size(e, spec_sample(cands, actual, x1).0, planet);
}

proof fn lemma_draw_from_size(n: u32, budgets: Seq<u32>, e: Set<(u32, u32)>, x: u64, planet: nat)
    requires
        e.finite(),
        1 <= planet <= n + 1,
        n <= budgets.len(),
        forall|k: int| 0 <= k < budgets.len() ==> #[trigger] budgets[k] <= 3,
    ensures
        draw_from(n, budgets, e, x, planet).0.finite(),
        draw_from(n, budgets, e, x, planet).0.len() <= e.len() + weight_sum(budgets.subrange(planet - 1, n as int)),
    decreases n + 1 - planet,
{
    if planet <= n {
        let next = draw_step(n, budgets, e, x, planet as u32);
        lemma_draw_step_size(n, budgets, e, x, planet as u32);
        lemma_draw_from_size(n, budgets, next.0, next.1, planet + 1);
        let sub = budgets.subrange(planet - 1, n as int);
        lemma_weight_sum_first(sub);
        assert(sub.drop_first() =~= budgets.subrange(planet as int, n as int));
    }
}

proof fn lemma_shuffle_from_multiset(s: Seq<u32>, x: u64, i: nat)
    ensures
        shuffle_from(s, x, i).0.to_multiset() == s.to_multiset(),
    decreases i,
{
    if !(i == 0 || i >= s.len()) {
        let x2 = xorshift(x);
        let j = ((x2 as usize) as nat) % (i + 1);
        lemma_swap_multiset(s, i as int, j as int);
        lemma_shuffle_from_multiset(s.update(i as int, s[j as int]).update(j as int, s[i as int]), x2, (i - 1) as nat);
    }
}

/// The shortcut budgets, whatever the seed, are four of one, two of two and
/// one of three.
pub proof fn lemma_shortcut_budgets(x: u64)
    ensures
        spec_shuffle(budget_list(), x).0.to_multiset() == budget_list().to_multiset(),
        spec_shuffle(budget_list(), x).0.len() == 7,
{
    lemma_shuffle_from_multiset(budget_list(), x, 6);
    lemma_shuffle_from_len(budget_list(), x, 6);
}

proof fn lemma_shuffle_from_len(s: Seq<u32>, x: u64, i: nat)
    ensures
        shuffle_from(s, x, i).0.len() == s.len(),
    decreases i,
{
    if !(i == 0 || i >= s.len()) {
        let x2 = xorshift(x);
        let j = ((x2 as usize) as nat) % (i + 1);
        lemma_shuffle_from_len(s.update(i as int, s[j as int]).update(j as int, s[i as int]), x2, (i - 1) as nat);
    }
}

proof fn lemma_sum_by_counts(s: Seq<u32>)
    requires
        forall|k: int| 0 <= k < s.len() ==> #[trigger] s[k] <= 3,
    ensures
        weight_sum(s) == s.to_multiset().count(1u32) + 2 * s.to_multiset().count(2u32) + 3 * s.to_multiset().count(3u32),
    decreases s.len(),
{
    broadcast use vstd::multiset::group_multiset_axioms;
    if s.len() == 0 {
        assert(s.to_multiset() =~= vstd::multiset::Multiset::<u32>::empty()) by {
            broadcast use vstd::seq_lib::group_to_multiset_ensures;
        }
    } else {
        let t = s.drop_last();
        lemma_sum_by_counts(t);
        assert(s =~= t.push(s.last()));
        vstd::seq_lib::to_multiset_build(t, s.last());
    }
}

proof fn lemma_edge_row_below(e: Set<(u32, u32)>, a: u32, m: nat)
    requires
        m < a,
    ensures
        edge_row(e, a, m) == Seq::<(u32, u32)>::empty(),
    decreases m,
{
    if m > 0 {
        lemma_edge_row_below(e, a, (m - 1) as nat);
    }
}

fn empty_links(n: u32) -> (link: Vec<Vec<bool>>)
    requires
        n <= 7,
    ensures
        link_ok(link@, n),
        forall|a: int, b: int| 0 <= a <= n && 0 <= b <= n ==> !link@[a]@[b],
{
    let size = n as usize + 1;
    let mut link: Vec<Vec<bool>> = Vec::new();
    let mut a: usize = 0;
    while a < size
        invariant
            size == n + 1,
            a <= size,
            link@.len() == a,
            forall|x: int| 0 <= x < a ==> (#[trigger] link@[x])@.len() == size,
            forall|x: int, y: int| 0 <= x < a && 0 <= y < size ==> !link@[x]@[y],
        decreases size - a,
    {
        let mut row: Vec<bool> = Vec::new();
        let mut b: usize = 0;
        while b < size
            invariant
                b <= size,
                row@.len() == b,
                forall|y: int| 0 <= y < b ==> !row@[y],
            decreases size - b,
        {
            row.push(false);
            b = b + 1;
        }
        link.push(row);
        a = a + 1;
    }
    link
}

/// Links planets `a` and `b` both ways.
fn connect(link: &mut Vec<Vec<bool>>, n: u32, a: u32, b: u32)
    requires
        link_ok(old(link)@, n),
        1 <= a <= n,
        1 <= b <= n,
    ensures
        link_ok(final(link)@, n),
        forall|x: int, y: int| 0 <= x <= n && 0 <= y <= n ==>
            #[trigger] final(link)@[x]@[y] == (old(link)@[x]@[y] || (x == a && y == b) || (x == b && y == a)),
{
    let ghost before = link@;
    link[a as usize].set(b as usize, true);
    link[b as usize].set(a as usize, true);
    assert forall|x: int, y: int| 0 <= x <= n && 0 <= y <= n implies
        #[trigger] link@[x]@[y] == (before[x]@[y] || (x == a && y == b) || (x == b && y == a)) by {
        if x == b {
        } else if x == a {
        } else {
        }
    }
}

proof fn lemma_connect_links(before: Seq<Vec<bool>>, after: Seq<Vec<bool>>, e: Set<(u32, u32)>, n: u32, a: u32, b: u32)
    requires
        links_match(before, e, n),
        link_ok(before, n),
        1 <= a <= n,
        1 <= b <= n,
        forall|x: int, y: int| 0 <= x <= n && 0 <= y <= n ==>
            #[trigger] after[x]@[y] == (before[x]@[y] || (x == a && y == b) || (x == b && y == a)),
    ensures
        links_match(after, e.insert(norm(a, b)), n),
{
    assert forall|x: u32, y: u32| 1 <= x <= n && 1 <= y <= n implies
        (#[trigger] after[x as int]@[y as int] <==> e.insert(norm(a, b)).contains(norm(x, y))) by {
        assert(before[x as int]@[y as int] <==> e.contains(norm(x, y)));
    }
}

/// The planets `p` in `1..=n` that `planet` could still take a shortcut to:
/// not itself and not already linked, in increasing order.
fn shortcut_candidates(link: &Vec<Vec<bool>>, n: u32, planet: u32, Ghost(e): Ghost<Set<(u32, u32)>>) -> (c: Vec<u32>)
    requires
        link_ok(link@, n),
        links_match(link@, e, n),
        n <= 7,
        1 <= planet <= n,
    ensures
        c@ == candidates_upto(e, planet, n as nat),
        forall|k: int| 0 <= k < c@.len() ==> 1 <= #[trigger] c@[k] <= n && c@[k] != planet
            && !link@[c@[k] as int]@[planet as int],
{
    let mut c: Vec<u32> = Vec::new();
    let mut p: u32 = 1;
    while p <= n
        invariant
            link_ok(link@, n),
            links_match(link@, e, n),
            n <= 7,
            1 <= planet <= n,
            1 <= p <= n + 1,
            c@ == candidates_upto(e, planet, (p - 1) as nat),
            forall|k: int| 0 <= k < c@.len() ==> 1 <= #[trigger] c@[k] < p && c@[k] != planet
                && !link@[c@[k] as int]@[planet as int],
        decreases n + 1 - p,
    {
        proof {
            assert(link@[p as int]@[planet as int] <==> e.contains(norm(p, planet)));
        }
        if p != planet && !link[p as usize][planet as usize] {
            c.push(p);
        }
        p = p + 1;
    }
    c
}

/// The sorted list of planets linked to `a`; a self-link is listed twice.
fn neighbor_list(link: &Vec<Vec<bool>>, n: u32, a: u32, Ghost(e): Ghost<Set<(u32, u32)>>) -> (ns: Vec<u32>)
    requires
        link_ok(link@, n),
        links_match(link@, e, n),
        n <= 7,
        a <= n,
    ensures
        1 <= a ==> ns@ == neighbor_seq(e, a, n as nat),
        forall|k: int| 0 <= k < ns@.len() ==> 1 <= #[trigger] ns@[k] <= n,
        forall|b: u32| 1 <= b <= n ==> (ns@.contains(b) <==> link@[a as int]@[b as int]),
        !link@[a as int]@[a as int] ==> forall|j: int, k: int| 0 <= j < k < ns@.len() ==> ns@[j] < ns@[k],
{
    let mut ns: Vec<u32> = Vec::new();
    let mut b: u32 = 1;
    while b <= n
        invariant
            link_ok(link@, n),
            links_match(link@, e, n),
            n <= 7,
            a <= n,
            1 <= b <= n + 1,
            1 <= a ==> ns@ == neighbor_seq(e, a, (b - 1) as nat),
            forall|k: int| 0 <= k < ns@.len() ==> 1 <= #[trigger] ns@[k] < b,
            forall|x: u32| 1 <= x < b ==> (ns@.contains(x) <==> link@[a as int]@[x as int]),
            !link@[a as int]@[a as int] ==> forall|j: int, k: int| 0 <= j < k < ns@.len() ==> ns@[j] < ns@[k],
        decreases n + 1 - b,
    {
        proof {
            if 1 <= a {
                assert(link@[a as int]@[b as int] <==> e.contains(norm(a, b)));
            }
        }
        if link[a as usize][b as usize] {
            let ghost before = ns@;
            ns.push(b);
            if a == b {
                ns.push(b);
            }
            proof {
                assert forall|x: u32| 1 <= x < b + 1 implies (ns@.contains(x) <==> link@[a as int]@[x as int]) by {
                    if x < b {
                        if before.contains(x) {
                            let k = choose|k: int| 0 <= k < before.len() && before[k] == x;
                            assert(ns@[k] == x);
                        }
                        if ns@.contains(x) {
                            let k = choose|k: int| 0 <= k < ns@.len() && ns@[k] == x;
                            assert(k < before.len());
                            assert(before[k] == x);
                        }
                    } else {
                        assert(ns@[before.len() as int] == b);
                    }
                }
            }
        } else {
            proof {
                assert forall|x: u32| 1 <= x < b + 1 implies (ns@.contains(x) <==> link@[a as int]@[x as int]) by {
                    if x == b && ns@.contains(x) {
                        let k = choose|k: int| 0 <= k < ns@.len() && ns@[k] == x;
                        assert(ns@[k] < b);
                    }
                }
            }
        }
        b = b + 1;
    }
    ns
}

/// All linked pairs `(a, b)` with `a <= b`, in lexicographic order.
fn edge_list(link: &Vec<Vec<bool>>, n: u32, Ghost(e): Ghost<Set<(u32, u32)>>) -> (es: Vec<(u32, u32)>)
    requires
        link_ok(link@, n),
        links_match(link@, e, n),
        n <= 7,
    ensures
        es@ == edge_rows(e, n, n as nat),
        forall|k: int| 0 <= k < es@.len() ==> (#[trigger] es@[k]).0 <= es@[k].1 && 1 <= es@[k].0
            && es@[k].1 <= n && link@[es@[k].0 as int]@[es@[k].1 as int],
        forall|a: u32, b: u32| 1 <= a <= b <= n && #[trigger] link@[a as int]@[b as int] ==> es@.contains((a, b)),
        forall|j: int, k: int| 0 <= j < k < es@.len() ==> pair_lt(es@[j], es@[k]),
{
    let mut es: Vec<(u32, u32)> = Vec::new();
    let mut a: u32 = 1;
    while a <= n
        invariant
            link_ok(link@, n),
            links_match(link@, e, n),
            n <= 7,
            1 <= a <= n + 1,
            es@ == edge_rows(e, n, (a - 1) as nat),
            forall|k: int| 0 <= k < es@.len() ==> (#[trigger] es@[k]).0 <= es@[k].1 && 1 <= es@[k].0
                && es@[k].0 < a && es@[k].1 <= n && link@[es@[k].0 as int]@[es@[k].1 as int],
            forall|x: u32, y: u32| 1 <= x < a && x <= y <= n && #[trigger] link@[x as int]@[y as int] ==> es@.contains((x, y)),
            forall|j: int, k: int| 0 <= j < k < es@.len() ==> pair_lt(es@[j], es@[k]),
        decreases n + 1 - a,
    {
        let mut b: u32 = a;
        let ghost row_start = es@.len();
        proof {
            lemma_edge_row_below(e, a, (a - 1) as nat);
            assert(es@ =~= edge_rows(e, n, (a - 1) as nat) + edge_row(e, a, (a - 1) as nat));
        }
        while b <= n
            invariant
                link_ok(link@, n),
                links_match(link@, e, n),
                n <= 7,
                1 <= a <= n,
                a <= b <= n + 1,
                es@ == edge_rows(e, n, (a - 1) as nat) + edge_row(e, a, (b - 1) as nat),
                row_start <= es@.len(),
                forall|k: int| 0 <= k < es@.len() ==> (#[trigger] es@[k]).0 <= es@[k].1 && 1 <= es@[k].0
                    && es@[k].0 <= a && es@[k].1 <= n && link@[es@[k].0 as int]@[es@[k].1 as int],
                forall|k: int| row_start <= k < es@.len() ==> (#[trigger] es@[k]).0 == a && es@[k].1 < b,
                forall|k: int| 0 <= k < row_start ==> (#[trigger] es@[k]).0 < a,
                forall|x: u32, y: u32| 1 <= x < a && x <= y <= n && #[trigger] link@[x as int]@[y as int] ==> es@.contains((x, y)),
                forall|y: u32| a <= y < b && #[trigger] link@[a as int]@[y as int] ==> es@.contains((a, y)),
                forall|j: int, k: int| 0 <= j < k < es@.len() ==> pair_lt(es@[j], es@[k]),
            decreases n + 1 - b,
        {
            proof {
                assert(link@[a as int]@[b as int] <==> e.contains(norm(a, b)));
            }
            if link[a as usize][b as usize] {
                let ghost before = es@;
                es.push((a, b));
                proof {
                    assert forall|x: u32, y: u32| 1 <= x < a && x <= y <= n && #[trigger] link@[x as int]@[y as int] implies es@.contains((x, y)) by {
                        let k = choose|k: int| 0 <= k < before.len() && before[k] == (x, y);
                        assert(es@[k] == (x, y));
                    }
                    assert forall|y: u32| a <= y < b + 1 && #[trigger] link@[a as int]@[y as int] implies es@.contains((a, y)) by {
                        if y < b {
                            let k = choose|k: int| 0 <= k < before.len() && before[k] == (a, y);
                            assert(es@[k] == (a, y));
                        } else {
                            assert(es@[before.len() as int] == (a, y));
                        }
                    }
                }
            }
            b = b + 1;
        }
        proof {
            assert(edge_rows(e, n, a as nat) == edge_rows(e, n, (a - 1) as nat) + edge_row(e, a, n as nat));
        }
        a = a + 1;
    }
    es
}

/// Strict lexicographic order on planet pairs.
pub open spec fn pair_lt(p: (u32, u32), q: (u32, u32)) -> bool {
    p.0 < q.0 || (p.0 == q.0 && p.1 < q.1)
}

/// What every galaxy built for `n` planets satisfies.
pub open spec fn galaxy_laws(layout: GalaxyLayout, n: u32) -> bool {
    &&& layout.planet_count() == n
    // unknown planets have no neighbours
    &&& forall|i: u32| !(1 <= i <= n) ==> #[trigger] layout.spec_neighbors(i).len() == 0
    // neighbours are planets
    &&& forall|i: u32, k: int| 0 <= k < layout.spec_neighbors(i).len() ==> 1 <= #[trigger] layout.spec_neighbors(i)[k] <= n
    // the ring is always present
    &&& forall|i: u32| 1 <= i <= n ==> #[trigger] layout.spec_neighbors(i).contains(ring_next(i, n))
    // the graph is symmetric
    &&& forall|i: u32, j: u32| #[trigger] layout.spec_neighbors(i).contains(j) ==> layout.spec_neighbors(j).contains(i)
    // with two or more planets, no planet is its own neighbour
    &&& n >= 2 ==> forall|i: u32| !(#[trigger] layout.spec_neighbors(i)).contains(i)
    // with two or more planets, neighbour lists are strictly increasing
    &&& n >= 2 ==> forall|i: u32, j: int, k: int| 0 <= j < k < layout.spec_neighbors(i).len() ==>
        #[trigger] layout.spec_neighbors(i)[j] < #[trigger] layout.spec_neighbors(i)[k]
    // with three or more planets, every planet has at least two neighbours
    &&& n >= 3 ==> forall|i: u32| 1 <= i <= n ==> #[trigger] layout.spec_neighbors(i).len() >= 2
    // the edge list holds each link once, as a sorted (lo, hi) pair
    &&& forall|k: int| 0 <= k < layout.spec_edges().len() ==> (#[trigger] layout.spec_edges()[k]).0 <= layout.spec_edges()[k].1
        && layout.spec_neighbors(layout.spec_edges()[k].0).contains(layout.spec_edges()[k].1)
    &&& forall|a: u32, b: u32| a <= b && #[trigger] layout.spec_neighbors(a).contains(b) ==> layout.spec_edges().contains((a, b))
    &&& forall|j: int, k: int| 0 <= j < k < layout.spec_edges().len() ==> pair_lt(layout.spec_edges()[j], layout.spec_edges()[k])
}

/// `layout` is the galaxy of `n` planets drawn from `seed`: it keeps the
/// laws, its neighbour lists are those of `galaxy_links(n, seed)` in
/// increasing order, and its edge list holds those links in lexicographic
/// order.
pub open spec fn built_from(layout: GalaxyLayout, n: u32, seed: u64) -> bool {
    &&& galaxy_laws(layout, n)
    &&& forall|a: u32| 1 <= a <= n ==> #[trigger] layout.spec_neighbors(a) == neighbor_seq(galaxy_links(n, seed), a, n as nat)
    &&& layout.spec_edges() == edge_rows(galaxy_links(n, seed), n, n as nat)
}

proof fn lemma_neighbor_seq_member(e: Set<(u32, u32)>, a: u32, m: nat, b: u32)
    requires
        neighbor_seq(e, a, m).contains(b),
        m <= u32::MAX,
    ensures
        e.contains(norm(a, b)),
    decreases m,
{
    if m > 0 {
        let rest = neighbor_seq(e, a, (m - 1) as nat);
        let q = m as u32;
        let all = neighbor_seq(e, a, m);
        if !(e.contains(norm(a, q)) && b == q) {
            let k = choose|k: int| 0 <= k < all.len() && all[k] == b;
            if e.contains(norm(a, q)) {
                if a == q {
                    assert(all == rest.push(q).push(q));
                    assert(k < rest.len());
                    assert(rest[k] == b);
                } else {
                    assert(all == rest.push(q));
                    assert(k < rest.len());
                    assert(rest[k] == b);
                }
            } else {
                assert(all == rest);
            }
            assert(rest.contains(b));
            lemma_neighbor_seq_member(e, a, (m - 1) as nat, b);
        }
    }
}

/// A galaxy holds at most eleven shortcuts on top of its ring; from three
/// planets on, the ring alone gives one link per planet.
pub proof fn lemma_edge_count(layout: GalaxyLayout, n: u32, seed: u64)
    requires
        built_from(layout, n, seed),
        n <= 7,
    ensures
        layout.spec_edges().len() <= n + 11,
        n >= 3 ==> n <= layout.spec_edges().len(),
{
    broadcast use vstd::seq_lib::seq_to_set_is_finite;
    broadcast use vstd::seq_lib::to_multiset_contains;
    let edges = layout.spec_edges();
    let g = galaxy_links(n, seed);
    assert(edges.no_duplicates()) by {
        assert forall|j: int, k: int| 0 <= j < edges.len() && 0 <= k < edges.len() && j != k
            implies edges[j] != edges[k] by {
            if j < k {
                assert(pair_lt(edges[j], edges[k]));
            } else {
                assert(pair_lt(edges[k], edges[j]));
            }
        }
    }
    edges.unique_seq_to_set();
    let set = edges.to_set();

    // ---- at most the ring and eleven shortcuts ----
    let sh = spec_shuffle(budget_list(), seed | 1);
    lemma_shortcut_budgets(seed | 1);
    assert forall|k: int| 0 <= k < sh.0.len() implies #[trigger] sh.0[k] <= 3 by {
        let v = sh.0[k];
        assert(sh.0.contains(v));
        vstd::seq_lib::to_multiset_contains(sh.0, v);
        vstd::seq_lib::to_multiset_contains(budget_list(), v);
        assert(budget_list().contains(v));
        let m = choose|m: int| 0 <= m < budget_list().len() && budget_list()[m] == v;
    }
    assert forall|k: int| 0 <= k < budget_list().len() implies #[trigger] budget_list()[k] <= 3 by {}
    lemma_sum_by_counts(sh.0);
    lemma_sum_by_counts(budget_list());
    assert(weight_sum(budget_list()) == 11) by {
        reveal_with_fuel(weight_sum, 8);
    }
    lemma_ring_size(n, n as nat);
    lemma_draw_from_size(n, sh.0, ring_links(n, n as nat), sh.1, 1);
    assert(sh.0.subrange(0, n as int) =~= sh.0.take(n as int));
    lemma_weight_sum_prefix(sh.0, n as int);
    assert(g.len() <= n + 11);
    assert forall|p: (u32, u32)| set.contains(p) implies g.contains(p) by {
        let k = choose|k: int| 0 <= k < edges.len() && edges[k] == p;
        assert(p.0 <= p.1 && layout.spec_neighbors(p.0).contains(p.1));
        if !(1 <= p.0 <= n) {
            assert(layout.spec_neighbors(p.0).len() == 0);
        }
        lemma_neighbor_seq_member(g, p.0, n as nat, p.1);
    }
    vstd::set_lib::lemma_len_subset(set, g);

    // ---- at least the ring ----
    if n >= 3 {
        assert forall|q: (u32, u32)| ring_links(n, n as nat).contains(q) implies set.contains(q) by {
            lemma_ring_member(n, n as nat, q);
            let j = choose|j: nat| 1 <= j <= n && q == #[trigger] norm(j as u32, ring_next(j as u32, n));
            let a = j as u32;
            let b = ring_next(a, n);
            assert(layout.spec_neighbors(a).contains(b));
            assert(layout.spec_neighbors(b).contains(a));
            if a <= b {
                assert(edges.contains((a, b)));
            } else {
                assert(edges.contains((b, a)));
            }
        }
        vstd::set_lib::lemma_len_subset(ring_links(n, n as nat), set);
    }
}

/// The same planet count and seed always give the same graph.
pub proof fn lemma_same_seed_same_galaxy(l1: GalaxyLayout, l2: GalaxyLayout, n: u32, seed: u64)
    requires
        built_from(l1, n, seed),
        built_from(l2, n, seed),
    ensures
        l1.spec_edges() == l2.spec_edges(),
        forall|a: u32| #[trigger] l1.spec_neighbors(a) == l2.spec_neighbors(a),
{
    assert forall|a: u32| #[trigger] l1.spec_neighbors(a) == l2.spec_neighbors(a) by {
        if !(1 <= a <= n) {
            assert(l1.spec_neighbors(a) =~= l2.spec_neighbors(a));
        }
    }
}

/// Builds the galaxy layout for `n` planets (normally 7).
///
/// The ring always connects planet `i` to planet `i+1` (wrapping), so planet
/// 1 and planet `n` are also connected. Shortcuts are drawn from the
/// generator seeded with `seed`, so the same seed gives the same graph.
pub fn build_galaxy(n: u32, seed: u64) -> (layout: GalaxyLayout)
    requires
        n <= 7,
    ensures
        built_from(layout, n, seed),
        layout.spec_edges().len() <= n + 11,
        n >= 3 ==> n <= layout.spec_edges().len(),
{
    let mut rng = Rng::new(seed);
    let mut link = empty_links(n);
    let ghost mut e: Set<(u32, u32)> = Set::empty();

    // ---- Ring edges ----
    let mut i: u32 = 1;
    while i <= n
        invariant
            n <= 7,
            1 <= i <= n + 1,
            link_ok(link@, n),
            links_match(link@, e, n),
            e == ring_links(n, (i - 1) as nat),
            forall|x: u32| 1 <= x < i ==> #[trigger] link@[x as int]@[ring_next(x, n) as int],
            n >= 2 ==> forall|x: int| 0 <= x <= n ==> !(#[trigger] link@[x])@[x],
        decreases n + 1 - i,
    {
        let b = if i == n { 1 } else { i + 1 };
        let ghost before = link@;
        connect(&mut link, n, i, b);
        proof {
            lemma_connect_links(before, link@, e, n, i, b);
            e = e.insert(norm(i, b));
        }
        i = i + 1;
    }

    // ---- Per-planet shortcut budget ----
    let mut budgets: Vec<u32> = vec![1, 1, 1, 1, 2, 2, 3];
    let ghost initial_budgets = budgets@;
    assert(initial_budgets =~= budget_list());
    let ghost shuffled = spec_shuffle(budget_list(), rng.state);
    assert(rng.state == seed | 1);
    rng.shuffle(&mut budgets);
    let ghost target = draw_from(n, shuffled.0, e, shuffled.1, 1);
    assert(target.0 == galaxy_links(n, seed));
    assert forall|k: int| 0 <= k < budgets@.len() implies #[trigger] budgets@[k] <= 3 by {
        assert(initial_budgets.contains(budgets@[k]));
        let m = choose|m: int| 0 <= m < initial_budgets.len() && initial_budgets[m] == budgets@[k];
        assert(initial_budgets[m] <= 3);
    }

    // ---- Draw shortcuts ----
    let all_weights: [u32; 4] = [50, 30, 15, 5];
    let mut planet: u32 = 1;
    while planet <= n
        invariant
            n <= 7,
            1 <= planet <= n + 1,
            link_ok(link@, n),
            links_match(link@, e, n),
            budgets@ == shuffled.0,
            draw_from(n, shuffled.0, e, rng.state, planet as nat) == target,
            budgets@.len() == 7,
            forall|k: int| 0 <= k < budgets@.len() ==> #[trigger] budgets@[k] <= 3,
            all_weights@ == seq![50u32, 30u32, 15u32, 5u32],
            forall|x: u32| 1 <= x <= n ==> #[trigger] link@[x as int]@[ring_next(x, n) as int],
            n >= 2 ==> forall|x: int| 0 <= x <= n ==> !(#[trigger] link@[x])@[x],
        decreases n + 1 - planet,
    {
        let budget = budgets[(planet - 1) as usize];
        let mut weights: Vec<u32> = Vec::new();
        let mut w: usize = 0;
        while w <= budget as usize
            invariant
                budget <= 3,
                w <= budget + 1,
                weights@ == all_weights@.take(w as int),
                all_weights@ == seq![50u32, 30u32, 15u32, 5u32],
            decreases budget + 1 - w,
        {
            proof {
                assert(all_weights@.take(w + 1) =~= all_weights@.take(w as int).push(all_weights@[w as int]));
            }
            weights.push(all_weights[w]);
            w = w + 1;
        }
        proof {
            reveal_with_fuel(weight_sum, 5);
            assert(weight_sum(weights@) <= 100) by {
                if budget == 0 {
                    assert(weights@ =~= seq![50u32]);
                } else if budget == 1 {
                    assert(weights@ =~= seq![50u32, 30u32]);
                    assert(weights@.drop_last() =~= seq![50u32]);
                } else if budget == 2 {
                    assert(weights@ =~= seq![50u32, 30u32, 15u32]);
                    assert(weights@.drop_last() =~= seq![50u32, 30u32]);
                    assert(weights@.drop_last().drop_last() =~= seq![50u32]);
                } else {
                    assert(weights@ =~= seq![50u32, 30u32, 15u32, 5u32]);
                    assert(weights@.drop_last() =~= seq![50u32, 30u32, 15u32]);
                    assert(weights@.drop_last().drop_last() =~= seq![50u32, 30u32]);
                    assert(weights@.drop_last().drop_last().drop_last() =~= seq![50u32]);
                }
            }
        }
        let ghost x0 = rng.state;
        let ghost step = draw_step(n, budgets@, e, x0, planet);
        proof {
            assert(weights@ == shortcut_weights(budgets@[planet - 1]));
        }
        let count = rng.weighted_choice(&weights);

        let candidates = shortcut_candidates(&link, n, planet, Ghost(e));
        let actual: usize = if (count as usize) < candidates.len() { count as usize } else { candidates.len() };
        let chosen = rng.sample(&candidates, actual);
        let ghost e0 = e;
        let mut c: usize = 0;
        while c < chosen.len()
            invariant
                n <= 7,
                1 <= planet <= n,
                link_ok(link@, n),
                links_match(link@, e, n),
                c <= chosen@.len(),
                e == with_links(e0, chosen@.take(c as int), planet),
                forall|m: int| 0 <= m < chosen@.len() ==> candidates@.contains(#[trigger] chosen@[m]),
                forall|k: int| 0 <= k < candidates@.len() ==> 1 <= #[trigger] candidates@[k] <= n && candidates@[k] != planet,
                forall|x: u32| 1 <= x <= n ==> #[trigger] link@[x as int]@[ring_next(x, n) as int],
                n >= 2 ==> forall|x: int| 0 <= x <= n ==> !(#[trigger] link@[x])@[x],
            decreases chosen@.len() - c,
        {
            let dest = chosen[c];
            proof {
                assert(candidates@.contains(chosen@[c as int]));
                let k = choose|k: int| 0 <= k < candidates@.len() && candidates@[k] == dest;
                assert(1 <= candidates@[k] <= n);
            }
            let ghost before = link@;
            connect(&mut link, n, dest, planet);
            proof {
                lemma_connect_links(before, link@, e, n, dest, planet);
                assert(chosen@.take(c + 1).drop_last() =~= chosen@.take(c as int));
                e = e.insert(norm(dest, planet));
            }
            c = c + 1;
        }
        proof {
            assert(chosen@.take(c as int) =~= chosen@);
            assert(step == (e, rng.state));
        }
        planet = planet + 1;
    }

    // ---- Adjacency and edge list ----
    let mut adjacency: Vec<Vec<u32>> = Vec::new();
    let mut a: u32 = 0;
    while a <= n
        invariant
            n <= 7,
            a <= n + 1,
            link_ok(link@, n),
            links_match(link@, e, n),
            e == galaxy_links(n, seed),
            adjacency@.len() == a,
            forall|x: int| 1 <= x < a ==> #[trigger] adjacency@[x]@ == neighbor_seq(e, x as u32, n as nat),
            forall|x: int, k: int| 0 <= x < a && 0 <= k < adjacency@[x]@.len() ==> 1 <= #[trigger] adjacency@[x]@[k] <= n,
            forall|x: int, b: u32| 0 <= x < a && 1 <= b <= n ==> (#[trigger] adjacency@[x]@.contains(b) <==> link@[x]@[b as int]),
            forall|x: int| 0 <= x < a && !link@[x]@[x] ==> forall|j: int, k: int| 0 <= j < k < adjacency@[x]@.len() ==>
                #[trigger] adjacency@[x]@[j] < #[trigger] adjacency@[x]@[k],
        decreases n + 1 - a,
    {
        let row = neighbor_list(&link, n, a, Ghost(e));
        adjacency.push(row);
        a = a + 1;
    }
    let edges = edge_list(&link, n, Ghost(e));
    let layout = GalaxyLayout { adjacency, edges };

    proof {
        assert(layout.planet_count() == n);
        assert forall|i: u32, j: u32| #[trigger] layout.spec_neighbors(i).contains(j) implies layout.spec_neighbors(j).contains(i) by {
            let k = choose|k: int| 0 <= k < layout.spec_neighbors(i).len() && layout.spec_neighbors(i)[k] == j;
            assert(1 <= j <= n);
            assert(1 <= i <= n);
            assert(layout.spec_neighbors(i) == adjacency@[i as int]@);
            assert(link@[i as int]@[j as int]);
        }
        assert forall|i: u32| 1 <= i <= n implies #[trigger] layout.spec_neighbors(i).contains(ring_next(i, n)) by {
            assert(link@[i as int]@[ring_next(i, n) as int]);
        }
        if n >= 2 {
            assert forall|i: u32| !(#[trigger] layout.spec_neighbors(i)).contains(i) by {
                if 1 <= i <= n {
                    assert(!link@[i as int]@[i as int]);
                }
            }
        }
        if n >= 3 {
            assert forall|i: u32| 1 <= i <= n implies #[trigger] layout.spec_neighbors(i).len() >= 2 by {
                let nb = layout.spec_neighbors(i);
                let nx = ring_next(i, n);
                let pv: u32 = if i == 1 { n } else { (i - 1) as u32 };
                assert(ring_next(pv, n) == i);
                assert(link@[pv as int]@[i as int]);
                assert(link@[i as int]@[pv as int]);
                assert(nb.contains(nx));
                assert(nb.contains(pv));
                assert(nx != pv);
                let k1 = choose|k: int| 0 <= k < nb.len() && nb[k] == nx;
                let k2 = choose|k: int| 0 <= k < nb.len() && nb[k] == pv;
                assert(k1 != k2);
            }
        }
        assert forall|k: int| 0 <= k < layout.edges@.len() implies (#[trigger] layout.edges@[k]).0 <= layout.edges@[k].1
            && layout.spec_neighbors(layout.edges@[k].0).contains(layout.edges@[k].1) by {
            let e = layout.edges@[k];
            assert(link@[e.0 as int]@[e.1 as int]);
            assert(adjacency@[e.0 as int]@.contains(e.1));
        }
        assert forall|x: u32, y: u32| x <= y && #[trigger] layout.spec_neighbors(x).contains(y) implies layout.edges@.contains((x, y)) by {
            let k = choose|k: int| 0 <= k < layout.spec_neighbors(x).len() && layout.spec_neighbors(x)[k] == y;
            assert(1 <= x <= n);
            assert(link@[x as int]@[y as int]);
        }
    }
    proof {
        lemma_edge_count(layout, n, seed);
    }
    layout
}

} // verus!
