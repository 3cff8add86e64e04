//! The lifetime of a weekly selection: CHOSEN edges expire eight days after
//! they were made, and are deleted on the first request that finds them so.
use vstd::prelude::*;
use crate::model::{ChosenDeleted, Recipe, UserId};
use crate::query::{query_with, GraphQuery, ParamValue};

verus! {

/// One day, in milliseconds.
pub const DAY_MILLIS: i64 = 86_400_000;

/// How long a CHOSEN edge lives, in milliseconds: eight days.
pub const CHOSEN_TTL_MILLIS: i64 = 8 * DAY_MILLIS;

/// Fetches the user's CHOSEN edges, with their creation times.
pub const CHOSEN_EDGES: &'static str = "MATCH (u:User)-[c:CHOSEN]-() WHERE u.id = $id RETURN c";

/// Deletes every CHOSEN edge of the user; the recipes stay.
pub const DELETE_CHOSEN: &'static str = "MATCH (u:User)-[c:CHOSEN]-() WHERE u.id = $id DETACH DELETE c";

/// An edge made at `created` has outlived its time at `now`.
pub open spec fn expired(created: int, now: int) -> bool {
    created + CHOSEN_TTL_MILLIS < now
}

/// Some edge of the selection, made at the times `created`, has expired.
pub open spec fn selection_expired(created: Seq<i64>, now: i64) -> bool {
    exists|i: int| 0 <= i < created.len() && expired(#[trigger] created[i] as int, now as int)
}

/// The recipes of the chosen rows (each a recipe with the creation time of
/// its CHOSEN edge) whose edge has not expired, in row order.
pub open spec fn live_rows(rows: Seq<(Recipe, i64)>, now: i64) -> Seq<Recipe>
    decreases rows.len(),
{
    if rows.len() == 0 {
        seq![]
    } else {
        let prev = live_rows(rows.drop_last(), now);
        let row = rows.last();
        if expired(row.1 as int, now as int) {
            prev
        } else {
            prev.push(row.0)
        }
    }
}

/// What a listing of the weekly selection returns, given whether the
/// selection was just deleted and the chosen rows: nothing after a deletion,
/// else the recipes of the edges that have not expired.
pub open spec fn chosen_listing(deleted: bool, rows: Seq<(Recipe, i64)>, now: i64) -> Seq<Recipe> {
    if deleted {
        seq![]
    } else {
        live_rows(rows, now)
    }
}

/// Every recipe that the live rows give comes from a row whose edge has not
/// expired.
pub proof fn lemma_live_rows_not_expired(rows: Seq<(Recipe, i64)>, now: i64)
    ensures
        forall|x: Recipe| #[trigger]
            live_rows(rows, now).contains(x) ==> exists|i: int|
                0 <= i < rows.len() && rows[i].0 == x && !expired(rows[i].1 as int, now as int),
    decreases rows.len(),
{
    if rows.len() > 0 {
        let t = rows.drop_last();
        lemma_live_rows_not_expired(t, now);
        let prev = live_rows(t, now);
        assert forall|x: Recipe| #[trigger] live_rows(rows, now).contains(x) implies exists|i: int|
            0 <= i < rows.len() && rows[i].0 == x && !expired(rows[i].1 as int, now as int) by {
            if prev.contains(x) {
                let i = choose|i: int|
                    0 <= i < t.len() && t[i].0 == x && !expired(t[i].1 as int, now as int);
                assert(rows[i] == t[i]);
            } else {
                let k = choose|k: int| 0 <= k < live_rows(rows, now).len() && live_rows(rows, now)[k] == x;
                if !expired(rows.last().1 as int, now as int) {
                    if k < prev.len() {
                        assert(prev[k] == x);
                        assert(prev.contains(x));
                    }
                    assert(rows[rows.len() - 1].0 == x);
                }
            }
        }
    }
}

/// The state of a user's weekly selection once checked.
#[derive(Clone, Copy, Debug, PartialEq, Eq, Structural)]
pub enum ChosenState {
    /// No CHOSEN edge: nothing chosen yet.
    Absent,
    /// Every edge of the selection is within its lifetime.
    Valid,
    /// Some edge has outlived its lifetime: the selection must be deleted.
    Expired,
}

/// Whether an edge made at `created` has expired at `now`.
pub fn is_expired(created: i64, now: i64) -> (r: bool)
    ensures
        r == expired(created as int, now as int),
{
    (created as i128) + (CHOSEN_TTL_MILLIS as i128) < (now as i128)
}

/// The state of a selection whose edges were made at the times `created`.
pub fn chosen_state(created: &Vec<i64>, now: i64) -> (r: ChosenState)
    ensures
        r == if created@.len() == 0 {
            ChosenState::Absent
        } else if selection_expired(created@, now) {
            ChosenState::Expired
        } else {
            ChosenState::Valid
        },
{
    let mut i: usize = 0;
    while i < created.len()
        invariant
            i <= created@.len(),
            forall|j: int| 0 <= j < i ==> !expired(#[trigger] created@[j] as int, now as int),
        decreases created@.len() - i,
    {
        if is_expired(created[i], now) {
            return ChosenState::Expired;
        }
        i = i + 1;
    }
    if created.len() == 0 {
        ChosenState::Absent
    } else {
        ChosenState::Valid
    }
}

/// The query that reads the creation times of the user's CHOSEN edges.
pub fn chosen_lookup(user: &UserId) -> (q: GraphQuery)
    ensures
        q@ == (CHOSEN_EDGES@, seq![("id"@, ParamValue::Text(user.0@))]),
{
    query_with(CHOSEN_EDGES, "id", &user.0)
}

/// Decides on a user's selection from the creation times of all its edges:
/// when any edge has expired, the selection is reported deleted, with the one
/// query that deletes it; otherwise nothing is deleted.
pub fn check_chosen(user: &UserId, created: &Vec<i64>, now: i64) -> (r: (
    ChosenDeleted,
    Option<GraphQuery>,
))
    ensures
        r.0 == ChosenDeleted(selection_expired(created@, now)),
        r.1 is Some <==> selection_expired(created@, now),
        r.1 is Some ==> r.1->0@ == (DELETE_CHOSEN@, seq![("id"@, ParamValue::Text(user.0@))]),
{
    match chosen_state(created, now) {
        ChosenState::Expired => (ChosenDeleted(true), Some(query_with(DELETE_CHOSEN, "id", &user.0))),
        _ => (ChosenDeleted(false), None),
    }
}

/// An edge made nine days before now has expired: a selection holding it is
/// reported deleted, with exactly one delete, and no listing returns a
/// recipe through that edge; every recipe listed comes from an edge that has
/// not expired.
pub proof fn lemma_nine_day_edge_is_never_listed(
    created: Seq<i64>,
    rows: Seq<(Recipe, i64)>,
    i: int,
    now: i64,
    deleted: bool,
)
    requires
        0 <= i < created.len(),
        created[i] as int == now as int - 9 * DAY_MILLIS,
    ensures
        expired(created[i] as int, now as int),
        selection_expired(created, now),
        forall|x: Recipe| #[trigger]
            chosen_listing(deleted, rows, now).contains(x) ==> exists|j: int|
                0 <= j < rows.len() && rows[j].0 == x && !expired(rows[j].1 as int, now as int),
{
    lemma_live_rows_not_expired(rows, now);
}

/// Edges made seven days before now are still valid: a selection of such
/// edges is not deleted, and the listing returns the recipe of every row.
pub proof fn lemma_seven_day_selection_stays(created: Seq<i64>, rows: Seq<(Recipe, i64)>, now: i64)
    requires
        forall|i: int| 0 <= i < created.len() ==> #[trigger] created[i] as int == now as int - 7 * DAY_MILLIS,
        forall|i: int| 0 <= i < rows.len() ==> #[trigger] rows[i].1 as int == now as int - 7 * DAY_MILLIS,
    ensures
        !selection_expired(created, now),
        chosen_listing(selection_expired(created, now), rows, now) == rows.map_values(
            |p: (Recipe, i64)| p.0,
        ),
    decreases rows.len(),
{
    if rows.len() > 0 {
        let t = rows.drop_last();
        assert forall|i: int| 0 <= i < t.len() implies #[trigger] t[i].1 as int == now as int - 7
            * DAY_MILLIS by {
            assert(t[i] == rows[i]);
        }
        lemma_seven_day_selection_stays(seq![], t, now);
        assert(rows.last().1 as int == now as int - 7 * DAY_MILLIS);
        assert(rows.map_values(|p: (Recipe, i64)| p.0) =~= t.map_values(|p: (Recipe, i64)| p.0).push(
            rows.last().0,
        ));
    } else {
        assert(rows.map_values(|p: (Recipe, i64)| p.0) =~= Seq::<Recipe>::empty());
    }
}

} // verus!
