//! An in-memory graph store: recipe nodes with their owner and visibility,
//! and LIKES edges. It answers the queries of the access service and
//! applies its writes, so that the service can run without a graph backend.
use vstd::prelude::*;
use crate::access::{canonical, covered, row_recipes};
use crate::like::{change_for, edge_after, like_change, LikeChange};
use crate::model::{key, Recipe, RelKind};

verus! {

/// A stored recipe node: its identity, its owner and whether it is public.
#[derive(Debug)]
pub struct StoredRecipe {
    pub id: u128,
    pub owner: String,
    pub public: bool,
}

/// What a stored recipe node holds.
pub struct RecipeNode {
    pub id: u128,
    pub owner: Seq<char>,
    pub public: bool,
}

impl View for StoredRecipe {
    type V = RecipeNode;

    open spec fn view(&self) -> RecipeNode {
        RecipeNode { id: self.id, owner: self.owner@, public: self.public }
    }
}

/// A LIKES edge: the user, and the recipe's identity.
#[derive(Debug)]
pub struct LikeEdge {
    pub user: String,
    pub recipe: u128,
}

impl View for LikeEdge {
    type V = (Seq<char>, u128);

    open spec fn view(&self) -> (Seq<char>, u128) {
        (self.user@, self.recipe)
    }
}

/// The whole store.
#[derive(Debug)]
pub struct MemoryGraph {
    pub recipes: Vec<StoredRecipe>,
    pub likes: Vec<LikeEdge>,
}

/// What the whole store holds.
pub struct GraphState {
    pub recipes: Seq<RecipeNode>,
    pub likes: Seq<(Seq<char>, u128)>,
}

impl View for MemoryGraph {
    type V = GraphState;

    open spec fn view(&self) -> GraphState {
        GraphState {
            recipes: self.recipes@.map_values(|n: StoredRecipe| n@),
            likes: self.likes@.map_values(|l: LikeEdge| l@),
        }
    }
}

/// The user owns the recipe with identity `id`.
pub open spec fn owns(g: GraphState, user: Seq<char>, id: u128) -> bool {
    exists|i: int| 0 <= i < g.recipes.len() && #[trigger] g.recipes[i].id == id && g.recipes[i].owner == user
}

/// The user likes the recipe with identity `id`.
pub open spec fn liked(g: GraphState, user: Seq<char>, id: u128) -> bool {
    g.likes.contains((user, id))
}

/// The recipe with identity `id` is public.
pub open spec fn public_recipe(g: GraphState, id: u128) -> bool {
    exists|i: int| 0 <= i < g.recipes.len() && #[trigger] g.recipes[i].id == id && g.recipes[i].public
}

/// The store holds a recipe with identity `id`.
pub open spec fn has_recipe(g: GraphState, id: u128) -> bool {
    exists|i: int| 0 <= i < g.recipes.len() && #[trigger] g.recipes[i].id == id
}

/// No two nodes of `s` share an identity.
pub open spec fn unique_ids(s: Seq<RecipeNode>) -> bool {
    forall|i: int, j: int| 0 <= i < j < s.len() ==> #[trigger] s[i].id != #[trigger] s[j].id
}

/// Every LIKES edge leads to a stored recipe, and no user likes a recipe
/// that the user owns.
pub open spec fn likes_sound(g: GraphState) -> bool {
    forall|u: Seq<char>, rid: u128|
        #[trigger] liked(g, u, rid) ==> has_recipe(g, rid) && !owns(g, u, rid)
}

/// The store's invariant: no two recipe nodes share an identity, every
/// LIKES edge leads to a stored recipe, and no user both owns and likes one
/// recipe.
pub open spec fn well_formed(g: GraphState) -> bool {
    unique_ids(g.recipes) && likes_sound(g)
}

/// In a well-formed store no user both owns and likes a recipe.
pub proof fn lemma_owner_never_likes(g: GraphState, user: Seq<char>, id: u128)
    requires
        well_formed(g),
    ensures
        !(owns(g, user, id) && liked(g, user, id)),
{
}

proof fn lemma_filter_unique(s: Seq<RecipeNode>, keep: spec_fn(RecipeNode) -> bool)
    requires
        unique_ids(s),
    ensures
        unique_ids(s.filter(keep)),
        forall|n: RecipeNode| #[trigger] s.filter(keep).contains(n) ==> s.contains(n),
    decreases s.len(),
{
    reveal_with_fuel(Seq::filter, 1);
    if s.len() > 0 {
        let t = s.drop_last();
        assert(unique_ids(t)) by {
            assert forall|i: int, j: int| 0 <= i < j < t.len() implies #[trigger] t[i].id
                != #[trigger] t[j].id by {
                assert(t[i] == s[i] && t[j] == s[j]);
            }
        }
        lemma_filter_unique(t, keep);
        let f = t.filter(keep);
        assert forall|n: RecipeNode| #[trigger] f.contains(n) implies s.contains(n) by {
            let k = choose|k: int| 0 <= k < t.len() && t[k] == n;
            assert(s[k] == n);
        }
        if keep(s.last()) {
            let r = f.push(s.last());
            assert(s.filter(keep) == r);
            assert forall|i: int, j: int| 0 <= i < j < r.len() implies #[trigger] r[i].id
                != #[trigger] r[j].id by {
                if j == r.len() - 1 {
                    assert(f.contains(r[i]));
                    let k = choose|k: int| 0 <= k < t.len() && t[k] == r[i];
                    assert(s[k] == r[i]);
                    assert(s[s.len() - 1] == r[j]);
                } else {
                    assert(r[i] == f[i] && r[j] == f[j]);
                }
            }
            assert forall|n: RecipeNode| #[trigger] r.contains(n) implies s.contains(n) by {
                let k = choose|k: int| 0 <= k < r.len() && r[k] == n;
                if k == r.len() - 1 {
                    assert(s[s.len() - 1] == n);
                } else {
                    assert(f[k] == n);
                    assert(f.contains(n));
                }
            }
        }
    }
}

/// The edge between a user and a recipe, as the like lookup reports it.
pub open spec fn edge_between(g: GraphState, user: Seq<char>, id: u128) -> Option<RelKind> {
    if owns(g, user, id) {
        Some(RelKind::Owns)
    } else if liked(g, user, id) {
        Some(RelKind::Likes)
    } else {
        None
    }
}

/// Keeps the recipe nodes other than the one with identity `id`.
pub open spec fn other_node(id: u128) -> spec_fn(RecipeNode) -> bool {
    |n: RecipeNode| n.id != id
}

/// Keeps the LIKES edges that do not lead to the recipe with identity `id`.
pub open spec fn edge_elsewhere(id: u128) -> spec_fn((Seq<char>, u128)) -> bool {
    |l: (Seq<char>, u128)| l.1 != id
}

/// Keeps the LIKES edges other than the one from `user` to `id`.
pub open spec fn other_like(user: Seq<char>, id: u128) -> spec_fn((Seq<char>, u128)) -> bool {
    |l: (Seq<char>, u128)| l != (user, id)
}

/// The store after the query that removes a recipe if the user owns it:
/// the node goes, with the edges to it; otherwise nothing changes.
pub open spec fn after_remove(g: GraphState, user: Seq<char>, id: u128) -> GraphState {
    if owns(g, user, id) {
        GraphState {
            recipes: g.recipes.filter(other_node(id)),
            likes: g.likes.filter(edge_elsewhere(id)),
        }
    } else {
        g
    }
}

/// Some row of `rows` is an edge of kind `kind` to the recipe `id`.
pub open spec fn has_row(rows: Seq<(Recipe, RelKind)>, id: u128, kind: RelKind) -> bool {
    exists|k: int| 0 <= k < rows.len() && #[trigger] rows[k].0.id == Some(id) && rows[k].1 == kind
}

/// The row is an edge of `user` in `g`, of the kind it names.
pub open spec fn row_of(g: GraphState, user: Seq<char>, row: (Recipe, RelKind)) -> bool {
    &&& row.0.id is Some
    &&& row.1 == RelKind::Owns ==> owns(g, user, row.0.id->0)
    &&& row.1 == RelKind::Likes ==> liked(g, user, row.0.id->0)
}

/// `rows` is an answer of the direct-edge query for `user` on `g`: every row
/// is an edge of the user, and every edge of the user has a row.
pub open spec fn answers_direct(g: GraphState, user: Seq<char>, rows: Seq<(Recipe, RelKind)>) -> bool {
    &&& forall|k: int| 0 <= k < rows.len() ==> #[trigger] row_of(g, user, rows[k])
    &&& forall|id: u128| #[trigger] owns(g, user, id) ==> has_row(rows, id, RelKind::Owns)
    &&& forall|id: u128| #[trigger] liked(g, user, id) ==> has_row(rows, id, RelKind::Likes)
}

/// The recipe `id` is public and owned by someone other than `user`.
pub open spec fn public_elsewhere(g: GraphState, user: Seq<char>, id: u128) -> bool {
    exists|i: int|
        0 <= i < g.recipes.len() && #[trigger] g.recipes[i].id == id && g.recipes[i].public
            && g.recipes[i].owner != user
}

/// `rows` is an answer of the query for the public recipes of others.
pub open spec fn answers_public(g: GraphState, user: Seq<char>, rows: Seq<Recipe>) -> bool {
    &&& forall|k: int|
        0 <= k < rows.len() ==> (#[trigger] rows[k]).id is Some && public_elsewhere(
            g,
            user,
            rows[k].id->0,
        )
    &&& forall|id: u128|
        #[trigger] public_elsewhere(g, user, id) ==> exists|k: int|
            0 <= k < rows.len() && #[trigger] rows[k].id == Some(id)
}

/// A recipe record that carries only what the store holds.
fn bare_recipe(node: &StoredRecipe) -> (r: Recipe)
    ensures
        r.id == Some(node.id),
        r.public == Some(node.public),
{
    Recipe {
        id: Some(node.id),
        name: String::new(),
        public: Some(node.public),
        steps: None,
        tipo: None,
        calories: None,
        carbohydrates: None,
        fat: None,
        protein: None,
        servings: None,
        meal_type: None,
        ingredients: None,
        time: None,
    }
}

impl MemoryGraph {
    /// An empty store.
    pub fn new() -> (g: MemoryGraph)
        ensures
            g@.recipes.len() == 0,
            g@.likes.len() == 0,
    {
        let g = MemoryGraph { recipes: Vec::new(), likes: Vec::new() };
        assert(g@.recipes =~= Seq::<RecipeNode>::empty());
        assert(g@.likes =~= Seq::<(Seq<char>, u128)>::empty());
        g
    }

    /// Whether the user owns the recipe with identity `id`.
    pub fn owns(&self, user: &String, id: u128) -> (r: bool)
        ensures
            r == owns(self@, user@, id),
    {
        let mut i: usize = 0;
        while i < self.recipes.len()
            invariant
                i <= self.recipes@.len(),
                forall|j: int|
                    0 <= j < i ==> !(#[trigger] self@.recipes[j].id == id && self@.recipes[j].owner
                        == user@),
            decreases self.recipes@.len() - i,
        {
            let n = &self.recipes[i];
            if n.id == id && n.owner == *user {
                assert(self@.recipes[i as int].id == id);
                return true;
            }
            i = i + 1;
        }
        false
    }

    /// Whether the user likes the recipe with identity `id`.
    pub fn liked(&self, user: &String, id: u128) -> (r: bool)
        ensures
            r == liked(self@, user@, id),
    {
        let mut i: usize = 0;
        while i < self.likes.len()
            invariant
                i <= self.likes@.len(),
                forall|j: int| 0 <= j < i ==> #[trigger] self@.likes[j] != (user@, id),
            decreases self.likes@.len() - i,
        {
            let l = &self.likes[i];
            if l.recipe == id && l.user == *user {
                assert(self@.likes[i as int] == (user@, id));
                return true;
            }
            i = i + 1;
        }
        false
    }

    /// Whether the recipe with identity `id` is public.
    pub fn is_public(&self, id: u128) -> (r: bool)
        ensures
            r == public_recipe(self@, id),
    {
        let mut i: usize = 0;
        while i < self.recipes.len()
            invariant
                i <= self.recipes@.len(),
                forall|j: int|
                    0 <= j < i ==> !(#[trigger] self@.recipes[j].id == id && self@.recipes[j].public),
            decreases self.recipes@.len() - i,
        {
            if self.recipes[i].id == id && self.recipes[i].public {
                assert(self@.recipes[i as int].id == id);
                return true;
            }
            i = i + 1;
        }
        false
    }

    /// Answers the like lookup: the edge between the user and the recipe.
    pub fn like_edge(&self, user: &String, id: u128) -> (r: Option<RelKind>)
        ensures
            r == edge_between(self@, user@, id),
    {
        if self.owns(user, id) {
            Some(RelKind::Owns)
        } else if self.liked(user, id) {
            Some(RelKind::Likes)
        } else {
            None
        }
    }

    /// Drops the recipe node with identity `id`.
    fn drop_recipe_nodes(&mut self, id: u128)
        ensures
            final(self)@.recipes == old(self)@.recipes.filter(other_node(id)),
            final(self)@.likes == old(self)@.likes,
    {
        let mut rest: Vec<StoredRecipe> = Vec::new();
        std::mem::swap(&mut self.recipes, &mut rest);
        let ghost orig = rest@;
        let ghost f = |n: StoredRecipe| n@;
        assert(orig.take(0).map_values(f) =~= Seq::<RecipeNode>::empty());
        proof {
            reveal_with_fuel(Seq::filter, 1);
        }
        assert(self.recipes@.map_values(f) =~= orig.take(0).map_values(f).filter(other_node(id)));
        while rest.len() > 0
            invariant
                rest@.len() <= orig.len(),
                rest@ == orig.subrange(orig.len() - rest@.len(), orig.len() as int),
                self.recipes@.map_values(f) == orig.take(orig.len() - rest@.len()).map_values(
                    f,
                ).filter(other_node(id)),
                self.likes@ == old(self).likes@,
                f == (|n: StoredRecipe| n@),
            decreases rest.len(),
        {
            let ghost k = orig.len() - rest@.len();
            let ghost before = self.recipes@;
            let x = rest.remove(0);
            assert(rest@ =~= orig.subrange(orig.len() - rest@.len(), orig.len() as int));
            assert(orig.take(k + 1).map_values(f) =~= orig.take(k).map_values(f).push(x@));
            proof {
                orig.take(k).map_values(f).lemma_filter_push(x@, other_node(id));
            }
            if x.id != id {
                self.recipes.push(x);
                assert(self.recipes@.map_values(f) =~= before.map_values(f).push(x@));
            }
        }
        assert(orig.take(orig.len() as int) =~= orig);
    }

    /// Drops the LIKES edges to the recipe `id`: all of them, or only the
    /// one from `user` when a user is given.
    fn drop_like_edges(&mut self, id: u128, user: Option<&String>)
        ensures
            user is None ==> final(self)@.likes == old(self)@.likes.filter(edge_elsewhere(id)),
            user is Some ==> final(self)@.likes == old(self)@.likes.filter(
                other_like(user->0@, id),
            ),
            final(self)@.recipes == old(self)@.recipes,
    {
        let ghost keep = match user {
            None => edge_elsewhere(id),
            Some(u) => other_like(u@, id),
        };
        let mut rest: Vec<LikeEdge> = Vec::new();
        std::mem::swap(&mut self.likes, &mut rest);
        let ghost orig = rest@;
        let ghost f = |l: LikeEdge| l@;
        assert(orig.take(0).map_values(f) =~= Seq::<(Seq<char>, u128)>::empty());
        proof {
            reveal_with_fuel(Seq::filter, 1);
        }
        assert(self.likes@.map_values(f) =~= orig.take(0).map_values(f).filter(keep));
        while rest.len() > 0
            invariant
                rest@.len() <= orig.len(),
                rest@ == orig.subrange(orig.len() - rest@.len(), orig.len() as int),
                self.likes@.map_values(f) == orig.take(orig.len() - rest@.len()).map_values(
                    f,
                ).filter(keep),
                self.recipes@ == old(self).recipes@,
                f == (|l: LikeEdge| l@),
                keep == match user {
                    None => edge_elsewhere(id),
                    Some(u) => other_like(u@, id),
                },
            decreases rest.len(),
        {
            let ghost k = orig.len() - rest@.len();
            let ghost before = self.likes@;
            let x = rest.remove(0);
            assert(rest@ =~= orig.subrange(orig.len() - rest@.len(), orig.len() as int));
            assert(orig.take(k + 1).map_values(f) =~= orig.take(k).map_values(f).push(x@));
            proof {
                orig.take(k).map_values(f).lemma_filter_push(x@, keep);
            }
            let goes = match user {
                None => x.recipe == id,
                Some(u) => x.recipe == id && x.user == *u,
            };
            if !goes {
                self.likes.push(x);
                assert(self.likes@.map_values(f) =~= before.map_values(f).push(x@));
            }
        }
        assert(orig.take(orig.len() as int) =~= orig);
    }

    /// Applies the query that removes a recipe if the user owns it.
    pub fn remove_recipe(&mut self, user: &String, id: u128)
        ensures
            final(self)@ == after_remove(old(self)@, user@, id),
            unique_ids(old(self)@.recipes) ==> unique_ids(final(self)@.recipes),
            likes_sound(old(self)@) ==> likes_sound(final(self)@),
            well_formed(old(self)@) ==> well_formed(final(self)@),
    {
        if self.owns(user, id) {
            self.drop_recipe_nodes(id);
            self.drop_like_edges(id, None);
            proof {
                if unique_ids(old(self)@.recipes) {
                    lemma_filter_unique(old(self)@.recipes, other_node(id));
                }
                let o = old(self)@;
                let n = self@;
                if likes_sound(o) {
                    assert forall|u: Seq<char>, rid: u128| #[trigger] liked(n, u, rid) implies has_recipe(
                        n,
                        rid,
                    ) && !owns(n, u, rid) by {
                        let k = choose|k: int| 0 <= k < n.likes.len() && n.likes[k] == (u, rid);
                        o.likes.lemma_filter_pred(edge_elsewhere(id), k);
                        o.likes.lemma_filter_contains_rev(edge_elsewhere(id), (u, rid));
                        assert(liked(o, u, rid));
                        assert(rid != id);
                        let i = choose|i: int| 0 <= i < o.recipes.len() && #[trigger] o.recipes[i].id == rid;
                        o.recipes.lemma_filter_contains(other_node(id), i);
                        let j = choose|j: int| 0 <= j < n.recipes.len() && n.recipes[j] == o.recipes[i];
                        assert(n.recipes[j].id == rid);
                        if owns(n, u, rid) {
                            let m = choose|m: int|
                                0 <= m < n.recipes.len() && #[trigger] n.recipes[m].id == rid
                                    && n.recipes[m].owner == u;
                            o.recipes.lemma_filter_contains_rev(other_node(id), n.recipes[m]);
                            let m2 = choose|m2: int| 0 <= m2 < o.recipes.len() && o.recipes[m2] == n.recipes[m];
                            assert(o.recipes[m2].id == rid);
                            assert(owns(o, u, rid));
                        }
                    }
                }
            }
        }
    }

    /// Whether the store holds a recipe with identity `id`.
    pub fn has_recipe(&self, id: u128) -> (r: bool)
        ensures
            r == has_recipe(self@, id),
    {
        let mut i: usize = 0;
        while i < self.recipes.len()
            invariant
                i <= self.recipes@.len(),
                forall|j: int| 0 <= j < i ==> #[trigger] self@.recipes[j].id != id,
            decreases self.recipes@.len() - i,
        {
            if self.recipes[i].id == id {
                assert(self@.recipes[i as int].id == id);
                return true;
            }
            i = i + 1;
        }
        false
    }

    /// Stores a new recipe owned by `owner`; a recipe whose identity is
    /// already taken is refused, and then nothing changes.
    pub fn create_recipe(&mut self, owner: &String, id: u128, public: bool) -> (r: bool)
        ensures
            r == !has_recipe(old(self)@, id),
            r ==> final(self)@.recipes == old(self)@.recipes.push(
                RecipeNode { id, owner: owner@, public },
            ) && final(self)@.likes == old(self)@.likes,
            !r ==> final(self)@ == old(self)@,
            unique_ids(old(self)@.recipes) ==> unique_ids(final(self)@.recipes),
            likes_sound(old(self)@) ==> likes_sound(final(self)@),
            well_formed(old(self)@) ==> well_formed(final(self)@),
    {
        if self.has_recipe(id) {
            return false;
        }
        let ghost before = self@;
        self.recipes.push(StoredRecipe { id, owner: owner.clone(), public });
        assert(self@.recipes =~= before.recipes.push(RecipeNode { id, owner: owner@, public }));
        proof {
            if unique_ids(before.recipes) {
                assert forall|i: int, j: int|
                    0 <= i < j < self@.recipes.len() implies #[trigger] self@.recipes[i].id
                    != #[trigger] self@.recipes[j].id by {
                    if j == self@.recipes.len() - 1 {
                        assert(self@.recipes[i] == before.recipes[i]);
                        assert(before.recipes[i].id != id);
                    } else {
                        assert(self@.recipes[i] == before.recipes[i]);
                        assert(self@.recipes[j] == before.recipes[j]);
                    }
                }
            }
            let n = self@;
            if likes_sound(before) {
                assert forall|u: Seq<char>, rid: u128| #[trigger] liked(n, u, rid) implies has_recipe(
                    n,
                    rid,
                ) && !owns(n, u, rid) by {
                    assert(liked(before, u, rid));
                    let i = choose|i: int| 0 <= i < before.recipes.len() && #[trigger] before.recipes[i].id == rid;
                    assert(n.recipes[i] == before.recipes[i]);
                    if owns(n, u, rid) {
                        let m = choose|m: int|
                            0 <= m < n.recipes.len() && #[trigger] n.recipes[m].id == rid && n.recipes[m].owner == u;
                        if m < before.recipes.len() {
                            assert(n.recipes[m] == before.recipes[m]);
                            assert(owns(before, u, rid));
                        } else {
                            assert(rid == id);
                        }
                    }
                }
            }
        }
        true
    }

    /// Makes the recipe with identity `id` public or private.
    pub fn set_public(&mut self, id: u128, public: bool)
        ensures
            unique_ids(old(self)@.recipes) ==> unique_ids(final(self)@.recipes),
            likes_sound(old(self)@) ==> likes_sound(final(self)@),
            well_formed(old(self)@) ==> well_formed(final(self)@),
            final(self)@.likes == old(self)@.likes,
            final(self)@.recipes.len() == old(self)@.recipes.len(),
            forall|i: int|
                0 <= i < old(self)@.recipes.len() ==> #[trigger] final(self)@.recipes[i] == if old(
                    self,
                )@.recipes[i].id == id {
                    RecipeNode { public, ..old(self)@.recipes[i] }
                } else {
                    old(self)@.recipes[i]
                },
    {
        let mut i: usize = 0;
        while i < self.recipes.len()
            invariant
                i <= self.recipes@.len(),
                self@.likes == old(self)@.likes,
                self@.recipes.len() == old(self)@.recipes.len(),
                forall|j: int|
                    0 <= j < old(self)@.recipes.len() ==> #[trigger] self@.recipes[j] == if j < i
                        && old(self)@.recipes[j].id == id {
                        RecipeNode { public, ..old(self)@.recipes[j] }
                    } else {
                        old(self)@.recipes[j]
                    },
            decreases self.recipes@.len() - i,
        {
            if self.recipes[i].id == id {
                let ghost before = self@.recipes;
                let mut node = self.recipes.remove(i);
                node.public = public;
                self.recipes.insert(i, node);
                assert(self@.recipes =~= before.update(i as int, RecipeNode { public, ..before[i as int] }));
            }
            i = i + 1;
        }
        proof {
            let o = old(self)@;
            let n = self@;
            assert forall|k: int| 0 <= k < n.recipes.len() implies #[trigger] n.recipes[k].id == o.recipes[k].id
                && n.recipes[k].owner == o.recipes[k].owner by {
                assert(n.recipes[k] == if o.recipes[k].id == id {
                    RecipeNode { public, ..o.recipes[k] }
                } else {
                    o.recipes[k]
                });
            }
            if likes_sound(o) {
                assert forall|u: Seq<char>, rid: u128| #[trigger] liked(n, u, rid) implies has_recipe(
                    n,
                    rid,
                ) && !owns(n, u, rid) by {
                    assert(liked(o, u, rid));
                    let i = choose|i: int| 0 <= i < o.recipes.len() && #[trigger] o.recipes[i].id == rid;
                    assert(n.recipes[i].id == rid);
                    if owns(n, u, rid) {
                        let m = choose|m: int|
                            0 <= m < n.recipes.len() && #[trigger] n.recipes[m].id == rid && n.recipes[m].owner == u;
                        assert(o.recipes[m].id == rid);
                    }
                }
            }
            if unique_ids(old(self)@.recipes) {
                assert forall|a: int, b: int|
                    0 <= a < b < self@.recipes.len() implies #[trigger] self@.recipes[a].id
                    != #[trigger] self@.recipes[b].id by {
                    assert(self@.recipes[a].id == old(self)@.recipes[a].id);
                    assert(self@.recipes[b].id == old(self)@.recipes[b].id);
                }
            }
        }
    }

    /// Applies a like toggle of the user on the recipe with identity `id`:
    /// the change that the edge found calls for.
    pub fn toggle_like(&mut self, user: &String, id: u128) -> (c: LikeChange)
        ensures
            c == like_change(edge_between(old(self)@, user@, id)),
            edge_between(final(self)@, user@, id) == edge_after(
                edge_between(old(self)@, user@, id),
                public_recipe(old(self)@, id),
                c,
            ),
            final(self)@.recipes == old(self)@.recipes,
            forall|u: Seq<char>, rid: u128|
                (u, rid) != (user@, id) ==> #[trigger] liked(final(self)@, u, rid) == liked(
                    old(self)@,
                    u,
                    rid,
                ),
            unique_ids(old(self)@.recipes) ==> unique_ids(final(self)@.recipes),
            likes_sound(old(self)@) ==> likes_sound(final(self)@),
            well_formed(old(self)@) ==> well_formed(final(self)@),
    {
        let existing = self.like_edge(user, id);
        let change = change_for(existing);
        match change {
            LikeChange::Like => {
                if self.is_public(id) {
                    let ghost before = self@;
                    self.likes.push(LikeEdge { user: user.clone(), recipe: id });
                    assert(self@.likes =~= before.likes.push((user@, id)));
                    assert(self@.likes[self@.likes.len() - 1] == (user@, id));
                    assert(liked(self@, user@, id));
                    assert(!owns(self@, user@, id)) by {
                        assert(self@.recipes == before.recipes);
                    }
                    proof {
                        let n = self@;
                        assert forall|u: Seq<char>, rid: u128|
                            (u, rid) != (user@, id) implies #[trigger] liked(n, u, rid) == liked(
                                before,
                                u,
                                rid,
                            ) by {
                            if liked(n, u, rid) {
                                let k = choose|k: int| 0 <= k < n.likes.len() && n.likes[k] == (u, rid);
                                assert(k < before.likes.len());
                                assert(before.likes[k] == (u, rid));
                            }
                            if liked(before, u, rid) {
                                let k = choose|k: int|
                                    0 <= k < before.likes.len() && before.likes[k] == (u, rid);
                                assert(n.likes[k] == (u, rid));
                            }
                        }
                        assert(has_recipe(before, id));
                        assert(!owns(before, user@, id));
                    }
                }
            },
            LikeChange::Unlike => {
                let ghost before = self@;
                self.drop_like_edges(id, Some(user));
                proof {
                    if before.likes.filter(other_like(user@, id)).contains((user@, id)) {
                        let k = choose|k: int|
                            0 <= k < before.likes.filter(other_like(user@, id)).len()
                                && before.likes.filter(other_like(user@, id))[k] == (user@, id);
                        before.likes.lemma_filter_pred(other_like(user@, id), k);
                    }
                    assert(!liked(self@, user@, id));
                    assert(!owns(self@, user@, id)) by {
                        assert(self@.recipes == before.recipes);
                    }
                    let n = self@;
                    let keep = other_like(user@, id);
                    assert forall|u: Seq<char>, rid: u128|
                        (u, rid) != (user@, id) implies #[trigger] liked(n, u, rid) == liked(before, u, rid) by {
                        if liked(n, u, rid) {
                            before.likes.lemma_filter_contains_rev(keep, (u, rid));
                        }
                        if liked(before, u, rid) {
                            let k = choose|k: int| 0 <= k < before.likes.len() && before.likes[k] == (u, rid);
                            before.likes.lemma_filter_contains(keep, k);
                        }
                    }
                    assert forall|u: Seq<char>, rid: u128| #[trigger] liked(n, u, rid) implies liked(before, u, rid) by {
                        if liked(n, u, rid) {
                            before.likes.lemma_filter_contains_rev(keep, (u, rid));
                        }
                    }
                }
            },
            LikeChange::Keep => {},
        }
        change
    }

    /// Answers the direct-edge query: a row for each recipe the user owns,
    /// then one for each recipe the user likes.
    pub fn direct_rows(&self, user: &String) -> (r: Vec<(Recipe, RelKind)>)
        ensures
            answers_direct(self@, user@, r@),
    {
        let mut out: Vec<(Recipe, RelKind)> = Vec::new();
        let mut i: usize = 0;
        while i < self.recipes.len()
            invariant
                i <= self.recipes@.len(),
                forall|k: int| 0 <= k < out@.len() ==> #[trigger] row_of(self@, user@, out@[k]),
                forall|j: int|
                    0 <= j < i && #[trigger] self@.recipes[j].owner == user@ ==> has_row(
                        out@,
                        self@.recipes[j].id,
                        RelKind::Owns,
                    ),
            decreases self.recipes@.len() - i,
        {
            let ghost before = out@;
            let node = &self.recipes[i];
            if node.owner == *user {
                out.push((bare_recipe(node), RelKind::Owns));
                proof {
                    assert(self@.recipes[i as int].id == node.id);
                    assert(row_of(self@, user@, out@[out@.len() - 1]));
                    assert forall|k: int| 0 <= k < out@.len() implies #[trigger] row_of(
                        self@,
                        user@,
                        out@[k],
                    ) by {
                        if k < before.len() {
                            assert(out@[k] == before[k]);
                        }
                    }
                    assert forall|j: int|
                        0 <= j <= i && #[trigger] self@.recipes[j].owner == user@ implies has_row(
                        out@,
                        self@.recipes[j].id,
                        RelKind::Owns,
                    ) by {
                        if j < i {
                            let k = choose|k: int|
                                0 <= k < before.len() && #[trigger] before[k].0.id == Some(
                                    self@.recipes[j].id,
                                ) && before[k].1 == RelKind::Owns;
                            assert(out@[k] == before[k]);
                        } else {
                            assert(out@[out@.len() - 1].0.id == Some(self@.recipes[j].id));
                        }
                    }
                }
            }
            i = i + 1;
        }
        let mut m: usize = 0;
        while m < self.likes.len()
            invariant
                m <= self.likes@.len(),
                forall|k: int| 0 <= k < out@.len() ==> #[trigger] row_of(self@, user@, out@[k]),
                forall|j: int|
                    0 <= j < self.recipes@.len() && #[trigger] self@.recipes[j].owner == user@
                        ==> has_row(out@, self@.recipes[j].id, RelKind::Owns),
                forall|j: int|
                    0 <= j < m && (#[trigger] self@.likes[j]).0 == user@ ==> has_row(
                        out@,
                        self@.likes[j].1,
                        RelKind::Likes,
                    ),
            decreases self.likes@.len() - m,
        {
            let ghost before = out@;
            let edge = &self.likes[m];
            if edge.user == *user {
                let public = self.is_public(edge.recipe);
                let recipe = Recipe {
                    id: Some(edge.recipe),
                    name: String::new(),
                    public: Some(public),
                    steps: None,
                    tipo: None,
                    calories: None,
                    carbohydrates: None,
                    fat: None,
                    protein: None,
                    servings: None,
                    meal_type: None,
                    ingredients: None,
                    time: None,
                };
                out.push((recipe, RelKind::Likes));
                proof {
                    assert(self@.likes[m as int] == (user@, edge.recipe));
                    assert(liked(self@, user@, edge.recipe));
                    assert(row_of(self@, user@, out@[out@.len() - 1]));
                    assert forall|k: int| 0 <= k < out@.len() implies #[trigger] row_of(
                        self@,
                        user@,
                        out@[k],
                    ) by {
                        if k < before.len() {
                            assert(out@[k] == before[k]);
                        }
                    }
                    assert forall|j: int|
                        0 <= j < self.recipes@.len() && #[trigger] self@.recipes[j].owner == user@
                            implies has_row(out@, self@.recipes[j].id, RelKind::Owns) by {
                        let k = choose|k: int|
                            0 <= k < before.len() && #[trigger] before[k].0.id == Some(
                                self@.recipes[j].id,
                            ) && before[k].1 == RelKind::Owns;
                        assert(out@[k] == before[k]);
                    }
                    assert forall|j: int|
                        0 <= j <= m && (#[trigger] self@.likes[j]).0 == user@ implies has_row(
                        out@,
                        self@.likes[j].1,
                        RelKind::Likes,
                    ) by {
                        if j < m {
                            let k = choose|k: int|
                                0 <= k < before.len() && #[trigger] before[k].0.id == Some(
                                    self@.likes[j].1,
                                ) && before[k].1 == RelKind::Likes;
                            assert(out@[k] == before[k]);
                        } else {
                            assert(out@[out@.len() - 1].0.id == Some(self@.likes[j].1));
                        }
                    }
                }
            }
            m = m + 1;
        }
        proof {
            assert forall|id: u128| #[trigger] owns(self@, user@, id) implies has_row(
                out@,
                id,
                RelKind::Owns,
            ) by {
                let j = choose|j: int|
                    0 <= j < self@.recipes.len() && #[trigger] self@.recipes[j].id == id
                        && self@.recipes[j].owner == user@;
            }
            assert forall|id: u128| #[trigger] liked(self@, user@, id) implies has_row(
                out@,
                id,
                RelKind::Likes,
            ) by {
                let j = choose|j: int| 0 <= j < self@.likes.len() && self@.likes[j] == (user@, id);
                assert((self@.likes[j]).0 == user@);
            }
        }
        out
    }

    /// Answers the query for the public recipes that other users own.
    pub fn public_of_others(&self, user: &String) -> (r: Vec<Recipe>)
        ensures
            answers_public(self@, user@, r@),
    {
        let mut out: Vec<Recipe> = Vec::new();
        let mut i: usize = 0;
        while i < self.recipes.len()
            invariant
                i <= self.recipes@.len(),
                forall|k: int|
                    0 <= k < out@.len() ==> (#[trigger] out@[k]).id is Some && public_elsewhere(
                        self@,
                        user@,
                        out@[k].id->0,
                    ),
                forall|j: int|
                    0 <= j < i && (#[trigger] self@.recipes[j]).public && self@.recipes[j].owner
                        != user@ ==> exists|k: int|
                        0 <= k < out@.len() && #[trigger] out@[k].id == Some(self@.recipes[j].id),
            decreases self.recipes@.len() - i,
        {
            let ghost before = out@;
            let node = &self.recipes[i];
            if node.public && !(node.owner == *user) {
                out.push(bare_recipe(node));
                proof {
                    assert(self@.recipes[i as int].id == node.id);
                    assert forall|k: int| 0 <= k < out@.len() implies (#[trigger] out@[k]).id is Some
                        && public_elsewhere(self@, user@, out@[k].id->0) by {
                        if k < before.len() {
                            assert(out@[k] == before[k]);
                        }
                    }
                    assert forall|j: int|
                        0 <= j <= i && (#[trigger] self@.recipes[j]).public
                            && self@.recipes[j].owner != user@ implies exists|k: int|
                        0 <= k < out@.len() && #[trigger] out@[k].id == Some(self@.recipes[j].id) by {
                        if j < i {
                            let k = choose|k: int|
                                0 <= k < before.len() && #[trigger] before[k].id == Some(
                                    self@.recipes[j].id,
                                );
                            assert(out@[k] == before[k]);
                        } else {
                            assert(out@[out@.len() - 1].id == Some(self@.recipes[j].id));
                        }
                    }
                }
            }
            i = i + 1;
        }
        proof {
            assert forall|id: u128| #[trigger] public_elsewhere(self@, user@, id) implies exists|k: int|
                0 <= k < out@.len() && #[trigger] out@[k].id == Some(id) by {
                let j = choose|j: int|
                    0 <= j < self@.recipes.len() && #[trigger] self@.recipes[j].id == id
                        && self@.recipes[j].public && self@.recipes[j].owner != user@;
                assert((self@.recipes[j]).public);
            }
        }
        out
    }
}

/// A like toggle is its own inverse: two toggles in a row by a user on a
/// public recipe that the user does not own leave the edge between them as
/// it was before the first.
pub proof fn lemma_toggle_like_twice(
    g0: GraphState,
    g1: GraphState,
    g2: GraphState,
    user: Seq<char>,
    id: u128,
)
    requires
        public_recipe(g0, id),
        !owns(g0, user, id),
        edge_between(g1, user, id) == edge_after(
            edge_between(g0, user, id),
            public_recipe(g0, id),
            like_change(edge_between(g0, user, id)),
        ),
        g1.recipes == g0.recipes,
        edge_between(g2, user, id) == edge_after(
            edge_between(g1, user, id),
            public_recipe(g1, id),
            like_change(edge_between(g1, user, id)),
        ),
    ensures
        edge_between(g2, user, id) == edge_between(g0, user, id),
{
    assert(public_recipe(g1, id) == public_recipe(g0, id));
}

/// Removing a recipe that the caller does not own changes nothing, and the
/// recipe stays in what the access listing gives its owner: for any answer
/// of the owner's direct-edge query afterwards, and any public rows, the
/// canonical set holds the recipe.
pub proof fn lemma_foreign_remove_keeps_recipe(
    g: GraphState,
    user: Seq<char>,
    owner: Seq<char>,
    id: u128,
    direct: Seq<(Recipe, RelKind)>,
    public: Seq<Recipe>,
    listed: Seq<Recipe>,
)
    requires
        well_formed(g),
        owns(g, owner, id),
        user != owner,
        answers_direct(after_remove(g, user, id), owner, direct),
        canonical(row_recipes(direct) + public, listed),
    ensures
        after_remove(g, user, id) == g,
        exists|j: int| 0 <= j < listed.len() && key(listed[j]) == id as int,
{
    let i = choose|i: int| 0 <= i < g.recipes.len() && #[trigger] g.recipes[i].id == id && g.recipes[i].owner == owner;
    assert(!owns(g, user, id)) by {
        if owns(g, user, id) {
            let i2 = choose|i2: int|
                0 <= i2 < g.recipes.len() && #[trigger] g.recipes[i2].id == id && g.recipes[i2].owner
                    == user;
            if i2 < i {
                assert(g.recipes[i2].id != g.recipes[i].id);
            } else if i < i2 {
                assert(g.recipes[i].id != g.recipes[i2].id);
            }
        }
    }
    assert(has_row(direct, id, RelKind::Owns));
    let k = choose|k: int| 0 <= k < direct.len() && #[trigger] direct[k].0.id == Some(id) && direct[k].1 == RelKind::Owns;
    let input = row_recipes(direct) + public;
    assert(input[k] == direct[k].0);
    assert(covered(input, listed, k));
    let j = choose|j: int| 0 <= j < listed.len() && #[trigger] key(listed[j]) == key(input[k]);
    assert(key(listed[j]) == id as int);
}

} // verus!
