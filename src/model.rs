//! The records that cross the core's boundary.
use vstd::prelude::*;

verus! {

/// A list of recipe identities, as a caller submits them.
#[derive(Clone, Debug)]
pub struct IdsVec {
    pub ids: Vec<String>,
}

/// An ingredient as a recipe uses it: its name, its category and the amount.
#[derive(Clone, Debug)]
pub struct Ingredient {
    pub name: String,
    pub tipo: Option<String>,
    pub amount: String,
}

/// A recipe. The identity is the 128-bit value of the recipe's UUID; the
/// nutrition facts other than calories are the IEEE-754 bit patterns of
/// single-precision values, which the core carries without reading.
#[derive(Clone, Debug)]
pub struct Recipe {
    pub id: Option<u128>,
    pub name: String,
    pub public: Option<bool>,
    pub steps: Option<Vec<String>>,
    pub tipo: Option<String>,
    pub calories: Option<u16>,
    pub carbohydrates: Option<u32>,
    pub fat: Option<u32>,
    pub protein: Option<u32>,
    pub servings: Option<String>,
    pub meal_type: Option<String>,
    pub ingredients: Option<Vec<Ingredient>>,
    pub time: Option<String>,
}

/// Recipes are equal when their identities are.
impl PartialEq for Recipe {
    fn eq(&self, other: &Recipe) -> (r: bool) {
        self.id == other.id
    }
}

impl vstd::std_specs::cmp::PartialEqSpecImpl for Recipe {
    open spec fn obeys_eq_spec() -> bool {
        true
    }

    open spec fn eq_spec(&self, other: &Recipe) -> bool {
        self.id == other.id
    }
}

impl Eq for Recipe {
}

/// The identities of the recipes that a user reaches by a direct edge,
/// split by the kind of that edge.
#[derive(Clone, Debug)]
pub struct RecipeRelationships {
    pub owns: Vec<u128>,
    pub likes: Vec<u128>,
}

/// A list of recipes, with the user's direct relationships where a listing
/// reports them.
#[derive(Debug)]
pub struct RecipeVec {
    pub recipes: Vec<Recipe>,
    pub rels: Option<RecipeRelationships>,
}

/// A user account.
#[derive(Debug)]
pub struct User {
    pub id: Option<u128>,
    pub username: String,
    pub password: String,
    pub email: Option<String>,
    pub role: Option<String>,
}

/// A user name and password submitted to log in.
#[derive(Debug)]
pub struct LoginCredentials {
    pub username: String,
    pub password: String,
}

/// The identity of a user whose session was checked against the store.
#[derive(Debug)]
pub struct UserId(pub String);

/// Why a session did not resolve to a user.
#[derive(Debug, PartialEq, Eq, Structural)]
pub enum UsedIdError {
    /// No session token was presented.
    Missing,
    /// A token was presented but no user has that identity.
    Invalid,
}

/// Whether the user's weekly selection was found expired and deleted.
#[derive(Debug, PartialEq, Eq, Structural)]
pub struct ChosenDeleted(pub bool);

/// Why the weekly selection could not be checked.
#[derive(Debug, PartialEq, Eq, Structural)]
pub enum ChosenTimeError {
    Missing,
    Invalid,
}

/// The kind of a direct edge from a user to a recipe.
#[derive(Clone, Copy, Debug, PartialEq, Eq, Structural)]
pub enum RelKind {
    Owns,
    Likes,
}

/// The outcome of an operation, which the transport layer maps to a
/// protocol-level response.
#[derive(Clone, Copy, Debug, PartialEq, Eq, Structural)]
pub enum Status {
    Created,
    Accepted,
    NoContent,
    BadRequest,
    Unauthorized,
    Forbidden,
    NotFound,
    /// The store or a collaborator failed; nothing more was attempted.
    InternalError,
}

/// The sort key of a recipe: its identity, with a missing identity first.
pub open spec fn key(r: Recipe) -> int {
    match r.id {
        Some(v) => v as int,
        None => -1,
    }
}

/// No two recipes of `s` share an identity.
pub open spec fn distinct_keys(s: Seq<Recipe>) -> bool {
    forall|i: int, j: int| 0 <= i < j < s.len() ==> key(s[i]) != key(s[j])
}

/// Whether recipe `a` sorts before recipe `b`.
pub fn key_less(a: &Recipe, b: &Recipe) -> (r: bool)
    ensures
        r == (key(*a) < key(*b)),
{
    match (a.id, b.id) {
        (None, Some(_)) => true,
        (Some(x), Some(y)) => x < y,
        _ => false,
    }
}

/// Whether two recipes share an identity.
pub fn same_key(a: &Recipe, b: &Recipe) -> (r: bool)
    ensures
        r == (key(*a) == key(*b)),
{
    match (a.id, b.id) {
        (None, None) => true,
        (Some(x), Some(y)) => x == y,
        _ => false,
    }
}

} // verus!
