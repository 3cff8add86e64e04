//! Recipe access: merging the results of several relationship queries into
//! one canonical, deduplicated recipe set, and sampling from it.
use vstd::prelude::*;
use crate::model::{
    distinct_keys, key, key_less, same_key, ChosenDeleted, RecipeRelationships, RecipeVec, RelKind,
    Recipe,
};
use crate::expiry::{chosen_listing, expired, is_expired, lemma_live_rows_not_expired, live_rows};
use itertools::Itertools;
use rand::seq::SliceRandom;

verus! {

/// Position `i` holds the first recipe of `s` with its identity.
pub open spec fn first_of_key(s: Seq<Recipe>, i: int) -> bool {
    &&& 0 <= i < s.len()
    &&& forall|j: int| 0 <= j < i ==> key(s[j]) != key(s[i])
}

/// The recipes of `s` are in strictly increasing order of identity.
pub open spec fn sorted_by_key(s: Seq<Recipe>) -> bool {
    forall|i: int, j: int| 0 <= i < j < s.len() ==> key(s[i]) < key(s[j])
}

/// Position `j` of `out` holds the first recipe of `input` with its identity.
pub open spec fn kept(input: Seq<Recipe>, out: Seq<Recipe>, j: int) -> bool {
    exists|i: int| #[trigger] first_of_key(input, i) && out[j] == input[i]
}

/// Some recipe of `out` has the identity of position `i` of `input`.
pub open spec fn covered(input: Seq<Recipe>, out: Seq<Recipe>, i: int) -> bool {
    exists|j: int| 0 <= j < out.len() && #[trigger] key(out[j]) == key(input[i])
}

/// `out` is the canonical set of `input`: ordered by identity, and holding,
/// for each identity that occurs in `input`, the first recipe with it.
pub open spec fn canonical(input: Seq<Recipe>, out: Seq<Recipe>) -> bool {
    &&& sorted_by_key(out)
    &&& forall|j: int| 0 <= j < out.len() ==> #[trigger] kept(input, out, j)
    &&& forall|i: int| 0 <= i < input.len() ==> #[trigger] covered(input, out, i)
}

/// The recipes that a sequence of direct-edge rows carries.
pub open spec fn row_recipes(rows: Seq<(Recipe, RelKind)>) -> Seq<Recipe> {
    rows.map_values(|p: (Recipe, RelKind)| p.0)
}

/// The identities of the rows whose edge is of kind `kind`, in row order.
pub open spec fn ids_of_kind(rows: Seq<(Recipe, RelKind)>, kind: RelKind) -> Seq<u128>
    decreases rows.len(),
{
    if rows.len() == 0 {
        seq![]
    } else {
        let prev = ids_of_kind(rows.drop_last(), kind);
        let row = rows.last();
        if row.1 == kind && row.0.id is Some {
            prev.push(row.0.id->0)
        } else {
            prev
        }
    }
}

proof fn lemma_sorted_distinct(s: Seq<Recipe>)
    requires
        sorted_by_key(s),
    ensures
        distinct_keys(s),
{
}

proof fn lemma_canonical_skip(p: Seq<Recipe>, x: Recipe, out: Seq<Recipe>, pos: int)
    requires
        canonical(p, out),
        0 <= pos < out.len(),
        key(out[pos]) == key(x),
    ensures
        canonical(p.push(x), out),
{
    let q = p.push(x);
    let k = p.len() as int;
    assert forall|j: int| 0 <= j < out.len() implies #[trigger] kept(q, out, j) by {
        assert(kept(p, out, j));
        let i = choose|i: int| #[trigger] first_of_key(p, i) && out[j] == p[i];
        assert(first_of_key(q, i));
    }
    assert forall|i: int| 0 <= i < q.len() implies #[trigger] covered(q, out, i) by {
        if i == k {
            assert(key(out[pos]) == key(q[i]));
        } else {
            assert(q[i] == p[i]);
            assert(covered(p, out, i));
        }
    }
}

proof fn lemma_canonical_insert(p: Seq<Recipe>, x: Recipe, out: Seq<Recipe>, pos: int)
    requires
        canonical(p, out),
        0 <= pos <= out.len(),
        forall|j: int| 0 <= j < pos ==> key(out[j]) < key(x),
        pos < out.len() ==> key(out[pos]) > key(x),
    ensures
        canonical(p.push(x), out.insert(pos, x)),
{
    let q = p.push(x);
    let k = p.len() as int;
    let new_out = out.insert(pos, x);
    let n = new_out.len();
    assert forall|j: int| 0 <= j < out.len() implies key(out[j]) != key(x) by {
        if j > pos {
            assert(key(out[pos]) < key(out[j]));
        }
    }
    assert forall|j: int| 0 <= j < k implies key(q[j]) != key(q[k]) by {
        assert(q[j] == p[j]);
        assert(covered(p, out, j));
        let jj = choose|jj: int| 0 <= jj < out.len() && #[trigger] key(out[jj]) == key(p[j]);
    }
    assert(first_of_key(q, k));
    assert forall|a: int, b: int| 0 <= a < b < n implies key(new_out[a]) < key(new_out[b]) by {
        if b < pos {
        } else if b == pos {
        } else if a < pos {
            assert(new_out[b] == out[b - 1]);
            assert(key(out[pos]) > key(x));
        } else if a == pos {
            assert(new_out[b] == out[b - 1]);
            assert(key(out[pos]) > key(x));
            if b - 1 > pos {
                assert(key(out[pos]) < key(out[b - 1]));
            }
        } else {
            assert(new_out[a] == out[a - 1]);
            assert(new_out[b] == out[b - 1]);
        }
    }
    assert forall|j: int| 0 <= j < n implies #[trigger] kept(q, new_out, j) by {
        if j == pos {
            assert(first_of_key(q, k) && new_out[j] == q[k]);
        } else {
            let jj = if j < pos {
                j
            } else {
                j - 1
            };
            assert(new_out[j] == out[jj]);
            assert(kept(p, out, jj));
            let i = choose|i: int| #[trigger] first_of_key(p, i) && out[jj] == p[i];
            assert(first_of_key(q, i));
        }
    }
    assert forall|i: int| 0 <= i < q.len() implies #[trigger] covered(q, new_out, i) by {
        if i == k {
            assert(key(new_out[pos]) == key(q[i]));
        } else {
            assert(q[i] == p[i]);
            assert(covered(p, out, i));
            let jj = choose|jj: int| 0 <= jj < out.len() && #[trigger] key(out[jj]) == key(p[i]);
            if jj < pos {
                assert(key(new_out[jj]) == key(q[i]));
            } else {
                assert(new_out[jj + 1] == out[jj]);
                assert(key(new_out[jj + 1]) == key(q[i]));
            }
        }
    }
}

/// Puts a list of recipes into canonical form: sorted by identity, one recipe
/// per identity, the first one met.
pub fn canonical_set(input: Vec<Recipe>) -> (out: Vec<Recipe>)
    ensures
        canonical(input@, out@),
        distinct_keys(out@),
{
    let ghost orig = input@;
    let mut rest = input;
    let mut out: Vec<Recipe> = Vec::new();
    assert(orig.take(0) =~= Seq::<Recipe>::empty());
    while rest.len() > 0
        invariant
            rest@.len() <= orig.len(),
            rest@ == orig.subrange(orig.len() - rest@.len(), orig.len() as int),
            canonical(orig.take(orig.len() - rest@.len()), out@),
        decreases rest.len(),
    {
        let ghost k = orig.len() - rest@.len();
        let ghost p = orig.take(k);
        let ghost old_out = out@;
        assert(orig.take(k + 1) =~= p.push(orig[k]));
        let x = rest.remove(0);
        assert(rest@ =~= orig.subrange(orig.len() - rest@.len(), orig.len() as int));
        let mut pos: usize = 0;
        while pos < out.len() && key_less(&out[pos], &x)
            invariant
                pos <= out.len(),
                out@ == old_out,
                forall|j: int| 0 <= j < pos ==> key(out@[j]) < key(x),
            decreases out.len() - pos,
        {
            pos = pos + 1;
        }
        if pos < out.len() && same_key(&out[pos], &x) {
            proof {
                lemma_canonical_skip(p, x, old_out, pos as int);
            }
        } else {
            proof {
                lemma_canonical_insert(p, x, old_out, pos as int);
            }
            out.insert(pos, x);
        }
    }
    assert(orig.take(orig.len() as int) =~= orig);
    proof {
        lemma_sorted_distinct(out@);
    }
    out
}

/// Position `i` of `s` repeats the identity of an earlier position.
pub open spec fn seen_before(s: Seq<Recipe>, i: int) -> bool {
    exists|j: int| 0 <= j < i && #[trigger] key(s[j]) == key(s[i])
}

/// The recipes of `s` in order, each but the first with a given identity left out.
pub open spec fn first_occurrences(s: Seq<Recipe>) -> Seq<Recipe>
    decreases s.len(),
{
    if s.len() == 0 {
        seq![]
    } else {
        let prev = first_occurrences(s.drop_last());
        if seen_before(s, s.len() - 1) {
            prev
        } else {
            prev.push(s.last())
        }
    }
}

proof fn lemma_first_occurrences(s: Seq<Recipe>)
    ensures
        distinct_keys(first_occurrences(s)),
        forall|x: Recipe| #[trigger]
            first_occurrences(s).contains(x) ==> exists|i: int| 0 <= i < s.len() && s[i] == x,
    decreases s.len(),
{
    if s.len() > 0 {
        let t = s.drop_last();
        lemma_first_occurrences(t);
        let prev = first_occurrences(t);
        assert forall|x: Recipe| #[trigger] prev.contains(x) implies exists|i: int|
            0 <= i < s.len() && s[i] == x by {
            let i = choose|i: int| 0 <= i < t.len() && t[i] == x;
            assert(s[i] == x);
        }
        if !seen_before(s, s.len() - 1) {
            let r = prev.push(s.last());
            assert forall|a: int, b: int| 0 <= a < b < r.len() implies key(r[a]) != key(r[b]) by {
                if b == r.len() - 1 {
                    assert(prev.contains(r[a]));
                    let i = choose|i: int| 0 <= i < s.len() && s[i] == r[a];
                    assert(0 <= i < t.len()) by {
                        let i2 = choose|i2: int| 0 <= i2 < t.len() && t[i2] == r[a];
                        if key(s[i2]) == key(s[s.len() - 1]) {
                            assert(seen_before(s, s.len() - 1));
                        }
                    }
                    let i2 = choose|i2: int| 0 <= i2 < t.len() && t[i2] == r[a];
                    assert(s[i2] == r[a]);
                    if key(r[a]) == key(r[b]) {
                        assert(key(s[i2]) == key(s[s.len() - 1]));
                        assert(seen_before(s, s.len() - 1));
                    }
                } else {
                    assert(r[a] == prev[a] && r[b] == prev[b]);
                }
            }
            assert forall|x: Recipe| #[trigger] r.contains(x) implies exists|i: int|
                0 <= i < s.len() && s[i] == x by {
                let k = choose|k: int| 0 <= k < r.len() && r[k] == x;
                if k == r.len() - 1 {
                    assert(s[s.len() - 1] == x);
                } else {
                    assert(prev[k] == x);
                    assert(prev.contains(x));
                }
            }
        }
    }
}

/// Relies on itertools' `Itertools::unique_by`: it yields the items in order,
/// leaving out each item whose key, here the identity, an earlier item had.
#[verifier::external_body]
fn unique_by_id(recipes: Vec<Recipe>) -> (r: Vec<Recipe>)
    ensures
        r@ == first_occurrences(recipes@),
{
    recipes.into_iter().unique_by(|r| r.id).collect()
}

/// The recipes that use an ingredient as one user sees them: the user's own
/// such recipes, then the public ones, each identity once, first one kept.
pub fn recipes_by_ingredient(owned: Vec<Recipe>, public: Vec<Recipe>) -> (r: Vec<Recipe>)
    ensures
        r@ == first_occurrences(owned@ + public@),
        distinct_keys(r@),
        forall|x: Recipe| #[trigger] r@.contains(x) ==> (owned@ + public@).contains(x),
{
    let mut all = owned;
    let mut more = public;
    all.append(&mut more);
    let r = unique_by_id(all);
    proof {
        lemma_first_occurrences(r@);
        lemma_first_occurrences(owned@ + public@);
    }
    r
}

/// The recipes a user can see, with the user's direct relationships: the
/// recipes of the user's OWNS and LIKES edges (`direct`, each with the kind of
/// its edge) and the public recipes of other users, as one canonical set.
pub fn recipe_list(direct: Vec<(Recipe, RelKind)>, public: Vec<Recipe>) -> (r: RecipeVec)
    ensures
        canonical(row_recipes(direct@) + public@, r.recipes@),
        distinct_keys(r.recipes@),
        r.rels is Some,
        r.rels->0.owns@ == ids_of_kind(direct@, RelKind::Owns),
        r.rels->0.likes@ == ids_of_kind(direct@, RelKind::Likes),
{
    let ghost orig = direct@;
    let mut rest = direct;
    let mut all: Vec<Recipe> = Vec::new();
    let mut owns: Vec<u128> = Vec::new();
    let mut likes: Vec<u128> = Vec::new();
    assert(orig.take(0) =~= Seq::<(Recipe, RelKind)>::empty());
    while rest.len() > 0
        invariant
            rest@.len() <= orig.len(),
            rest@ == orig.subrange(orig.len() - rest@.len(), orig.len() as int),
            all@ == row_recipes(orig.take(orig.len() - rest@.len())),
            owns@ == ids_of_kind(orig.take(orig.len() - rest@.len()), RelKind::Owns),
            likes@ == ids_of_kind(orig.take(orig.len() - rest@.len()), RelKind::Likes),
        decreases rest.len(),
    {
        let ghost k = orig.len() - rest@.len();
        assert(orig.take(k + 1).drop_last() =~= orig.take(k));
        let (recipe, kind) = rest.remove(0);
        assert(rest@ =~= orig.subrange(orig.len() - rest@.len(), orig.len() as int));
        match recipe.id {
            Some(id) => {
                match kind {
                    RelKind::Owns => owns.push(id),
                    RelKind::Likes => likes.push(id),
                }
            },
            None => {},
        }
        all.push(recipe);
        assert(all@ =~= row_recipes(orig.take(k + 1)));
    }
    assert(orig.take(orig.len() as int) =~= orig);
    let mut more = public;
    all.append(&mut more);
    let recipes = canonical_set(all);
    RecipeVec { recipes, rels: Some(RecipeRelationships { owns, likes }) }
}

/// The user's weekly selection: nothing when the selection was just found
/// expired and deleted; else the recipes of the user's CHOSEN edges (each
/// row a recipe with its edge's creation time), leaving out any edge that has
/// expired by `now` but is not deleted yet.
pub fn chosen_recipes(deleted: ChosenDeleted, chosen: Vec<(Recipe, i64)>, now: i64) -> (r: RecipeVec)
    ensures
        r.recipes@ == chosen_listing(deleted.0, chosen@, now),
        forall|x: Recipe| #[trigger] r.recipes@.contains(x) ==> exists|i: int|
            0 <= i < chosen@.len() && chosen@[i].0 == x && !expired(chosen@[i].1 as int, now as int),
        r.rels is None,
{
    let ghost orig = chosen@;
    proof {
        lemma_live_rows_not_expired(orig, now);
    }
    let mut out: Vec<Recipe> = Vec::new();
    if deleted.0 {
        assert(out@ =~= chosen_listing(true, orig, now));
        return RecipeVec { recipes: out, rels: None };
    }
    let mut rest = chosen;
    assert(orig.take(0) =~= Seq::<(Recipe, i64)>::empty());
    while rest.len() > 0
        invariant
            rest@.len() <= orig.len(),
            rest@ == orig.subrange(orig.len() - rest@.len(), orig.len() as int),
            out@ == live_rows(orig.take(orig.len() - rest@.len()), now),
        decreases rest.len(),
    {
        let ghost k = orig.len() - rest@.len();
        assert(orig.take(k + 1).drop_last() =~= orig.take(k));
        let (recipe, created) = rest.remove(0);
        assert(rest@ =~= orig.subrange(orig.len() - rest@.len(), orig.len() as int));
        if !is_expired(created, now) {
            out.push(recipe);
        }
    }
    assert(orig.take(orig.len() as int) =~= orig);
    RecipeVec { recipes: out, rels: None }
}

/// Relies on rand's `SliceRandom::choose_multiple`, over the thread-local
/// generator: it yields `min(amount, pool.len())` items of `pool`, taken from
/// distinct positions.
#[verifier::external_body]
fn choose_positions(pool: &Vec<usize>, amount: usize) -> (r: Vec<usize>)
    ensures
        r@.len() == if amount < pool@.len() {
            amount as int
        } else {
            pool@.len() as int
        },
        forall|k: int| 0 <= k < r@.len() ==> pool@.contains(#[trigger] r@[k]),
        pool@.no_duplicates() ==> r@.no_duplicates(),
{
    pool.choose_multiple(&mut rand::thread_rng(), amount).cloned().collect()
}

/// The recipes at the given distinct positions, in the order of `positions`.
pub fn pick_recipes(recipes: Vec<Recipe>, positions: &Vec<usize>) -> (r: Vec<Recipe>)
    requires
        positions@.no_duplicates(),
        forall|k: int| 0 <= k < positions@.len() ==> #[trigger] positions@[k] < recipes@.len(),
    ensures
        r@.len() == positions@.len(),
        forall|k: int| 0 <= k < r@.len() ==> #[trigger] r@[k] == recipes@[positions@[k] as int],
{
    let ghost orig = recipes@;
    let mut rest = recipes;
    let mut slots: Vec<Option<Recipe>> = Vec::new();
    while rest.len() > 0
        invariant
            rest@.len() <= orig.len(),
            rest@ == orig.subrange(orig.len() - rest@.len(), orig.len() as int),
            slots@.len() == orig.len() - rest@.len(),
            forall|p: int| 0 <= p < slots@.len() ==> #[trigger] slots@[p] == Some(orig[p]),
        decreases rest.len(),
    {
        let x = rest.remove(0);
        assert(rest@ =~= orig.subrange(orig.len() - rest@.len(), orig.len() as int));
        slots.push(Some(x));
    }
    let mut out: Vec<Recipe> = Vec::new();
    let mut k: usize = 0;
    while k < positions.len()
        invariant
            k <= positions@.len(),
            slots@.len() == orig.len(),
            positions@.no_duplicates(),
            forall|j: int| 0 <= j < positions@.len() ==> #[trigger] positions@[j] < orig.len(),
            forall|p: int|
                0 <= p < slots@.len() ==> (#[trigger] slots@[p] == Some(orig[p]) || exists|j: int|
                    0 <= j < k && positions@[j] == p),
            out@.len() == k,
            forall|j: int| 0 <= j < k ==> #[trigger] out@[j] == orig[positions@[j] as int],
        decreases positions@.len() - k,
    {
        let p = positions[k];
        assert(slots@[p as int] == Some(orig[p as int])) by {
            if slots@[p as int] != Some(orig[p as int]) {
                let j = choose|j: int| 0 <= j < k && positions@[j] == p;
                assert(positions@[j] == positions@[k as int]);
            }
        }
        let mut slot: Option<Recipe> = None;
        slots.set_and_swap(p, &mut slot);
        match slot {
            Some(x) => {
                out.push(x);
            },
            None => {},
        }
        k = k + 1;
        proof {
            assert forall|q: int| 0 <= q < slots@.len() implies (#[trigger] slots@[q] == Some(
                orig[q],
            ) || exists|j: int| 0 <= j < k && positions@[j] == q) by {
                if q == p {
                    assert(positions@[k - 1] == q);
                }
            }
        }
    }
    out
}

/// The range `0..n` as a vector.
fn positions_upto(n: usize) -> (r: Vec<usize>)
    ensures
        r@.len() == n,
        forall|k: int| 0 <= k < n ==> #[trigger] r@[k] == k,
        r@.no_duplicates(),
{
    let mut r: Vec<usize> = Vec::new();
    let mut i: usize = 0;
    while i < n
        invariant
            i <= n,
            r@.len() == i,
            forall|k: int| 0 <= k < i ==> #[trigger] r@[k] == k,
        decreases n - i,
    {
        r.push(i);
        i = i + 1;
    }
    r
}

/// How many recipes a weekly sample holds when the caller names no number.
pub const DEFAULT_WEEKLY_AMOUNT: usize = 7;

/// A random weekly sample of the recipes a user owns or likes: `amount`
/// distinct recipes (seven when not given), or all of them when there are
/// fewer, drawn without replacement. Rows that repeat an identity count once.
pub fn random_recipes(recipes: Vec<Recipe>, amount: Option<usize>) -> (r: RecipeVec)
    ensures
        exists|c: Seq<Recipe>|
            canonical(recipes@, c) && r.recipes@.len() == if amount.unwrap_or(
                DEFAULT_WEEKLY_AMOUNT,
            ) < c.len() {
                amount.unwrap_or(DEFAULT_WEEKLY_AMOUNT) as int
            } else {
                c.len() as int
            },
        distinct_keys(r.recipes@),
        forall|x: Recipe| #[trigger] r.recipes@.contains(x) ==> recipes@.contains(x),
        r.rels is None,
{
    let wanted = match amount {
        Some(n) => n,
        None => DEFAULT_WEEKLY_AMOUNT,
    };
    let ghost orig = recipes@;
    let eligible = canonical_set(recipes);
    let ghost pool_seq = eligible@;
    let pool = positions_upto(eligible.len());
    let positions = choose_positions(&pool, wanted);
    assert forall|k: int| 0 <= k < positions@.len() implies #[trigger] positions@[k] < pool_seq.len() by {
        assert(pool@.contains(positions@[k]));
    }
    let picked = pick_recipes(eligible, &positions);
    proof {
        assert forall|x: Recipe| #[trigger] picked@.contains(x) implies orig.contains(x) by {
            let k = choose|k: int| 0 <= k < picked@.len() && picked@[k] == x;
            let j = positions@[k] as int;
            assert(pool_seq[j] == x);
            assert(kept(orig, pool_seq, j));
            let i = choose|i: int| #[trigger] first_of_key(orig, i) && pool_seq[j] == orig[i];
            assert(orig[i] == x);
        }
        assert forall|a: int, b: int| 0 <= a < b < picked@.len() implies key(picked@[a]) != key(
            picked@[b],
        ) by {
            assert(positions@[a] != positions@[b]);
            assert(picked@[a] == pool_seq[positions@[a] as int]);
            assert(picked@[b] == pool_seq[positions@[b] as int]);
        }
    }
    RecipeVec { recipes: picked, rels: None }
}

} // verus!
