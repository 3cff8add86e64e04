use recipe_graph::access::recipe_list;
use recipe_graph::like::{like_recipe, LikeChange, CREATE_LIKE, DELETE_LIKE};
use recipe_graph::model::{RelKind, Status, UserId};
use recipe_graph::store::MemoryGraph;

fn listing(g: &MemoryGraph, user: &str) -> (Vec<u128>, Vec<u128>, Vec<u128>) {
    let user = user.to_string();
    let r = recipe_list(g.direct_rows(&user), g.public_of_others(&user));
    let rels = r.rels.unwrap();
    (r.recipes.iter().map(|x| x.id.unwrap()).collect(), rels.owns, rels.likes)
}

#[test]
fn end_to_end_visibility_and_likes() {
    let a = "user-a".to_string();
    let b = "user-b".to_string();
    let mut g = MemoryGraph::new();
    assert!(g.create_recipe(&a, 1, false));
    assert_eq!(listing(&g, "user-a"), (vec![1], vec![1], vec![]));
    assert_eq!(listing(&g, "user-b"), (vec![], vec![], vec![]));
    g.set_public(1, true);
    assert_eq!(listing(&g, "user-b"), (vec![1], vec![], vec![]));
    assert!(matches!(g.toggle_like(&b, 1), LikeChange::Like));
    assert_eq!(listing(&g, "user-b"), (vec![1], vec![], vec![1]));
}

#[test]
fn toggling_a_like_twice_restores_it() {
    let a = "user-a".to_string();
    let b = "user-b".to_string();
    let mut g = MemoryGraph::new();
    g.create_recipe(&a, 7, true);
    assert_eq!(g.like_edge(&b, 7), None);
    g.toggle_like(&b, 7);
    assert_eq!(g.like_edge(&b, 7), Some(RelKind::Likes));
    g.toggle_like(&b, 7);
    assert_eq!(g.like_edge(&b, 7), None);
}

#[test]
fn owners_cannot_like_their_own_recipe() {
    let a = "user-a".to_string();
    let mut g = MemoryGraph::new();
    g.create_recipe(&a, 3, true);
    assert!(matches!(g.toggle_like(&a, 3), LikeChange::Keep));
    assert_eq!(g.like_edge(&a, 3), Some(RelKind::Owns));
    assert!(!g.liked(&a, 3));
}

#[test]
fn liking_a_private_recipe_changes_nothing() {
    let a = "user-a".to_string();
    let b = "user-b".to_string();
    let mut g = MemoryGraph::new();
    g.create_recipe(&a, 4, false);
    g.toggle_like(&b, 4);
    assert_eq!(g.like_edge(&b, 4), None);
}

#[test]
fn removing_someone_elses_recipe_is_a_no_op() {
    let a = "user-a".to_string();
    let b = "user-b".to_string();
    let mut g = MemoryGraph::new();
    g.create_recipe(&a, 5, false);
    g.remove_recipe(&b, 5);
    assert!(g.has_recipe(5));
    assert_eq!(listing(&g, "user-a").0, vec![5]);
    g.remove_recipe(&b, 99);
    assert!(g.has_recipe(5));
}

#[test]
fn owners_remove_their_recipe_and_its_likes() {
    let a = "user-a".to_string();
    let b = "user-b".to_string();
    let mut g = MemoryGraph::new();
    g.create_recipe(&a, 6, true);
    g.create_recipe(&a, 8, true);
    g.toggle_like(&b, 6);
    g.toggle_like(&b, 8);
    g.remove_recipe(&a, 6);
    assert!(!g.has_recipe(6));
    assert!(!g.liked(&b, 6));
    assert!(g.liked(&b, 8));
    assert_eq!(listing(&g, "user-b"), (vec![8], vec![], vec![8]));
}

#[test]
fn taken_identities_are_refused() {
    let a = "user-a".to_string();
    let b = "user-b".to_string();
    let mut g = MemoryGraph::new();
    assert!(g.create_recipe(&a, 2, false));
    assert!(!g.create_recipe(&b, 2, true));
    assert!(g.owns(&a, 2));
    assert!(!g.owns(&b, 2));
    assert!(!g.is_public(2));
}

#[test]
fn like_recipe_statuses_and_queries() {
    let user = UserId("u".to_string());
    let rid = "r".to_string();
    let (s, q) = like_recipe(&user, &rid, None);
    assert_eq!(s, Status::Created);
    assert_eq!(q.unwrap().text, CREATE_LIKE);
    let (s, q) = like_recipe(&user, &rid, Some(RelKind::Likes));
    assert_eq!(s, Status::Accepted);
    assert_eq!(q.unwrap().text, DELETE_LIKE);
    let (s, q) = like_recipe(&user, &rid, Some(RelKind::Owns));
    assert_eq!(s, Status::NoContent);
    assert!(q.is_none());
}

#[test]
fn a_toggle_leaves_other_likes_alone() {
    let a = "user-a".to_string();
    let b = "user-b".to_string();
    let c = "user-c".to_string();
    let mut g = MemoryGraph::new();
    g.create_recipe(&a, 1, true);
    g.create_recipe(&a, 2, true);
    g.toggle_like(&c, 1);
    g.toggle_like(&b, 2);
    g.toggle_like(&b, 1);
    g.toggle_like(&b, 1);
    assert!(g.liked(&c, 1));
    assert!(g.liked(&b, 2));
    assert!(!g.liked(&b, 1));
    g.toggle_like(&a, 1);
    assert!(g.liked(&c, 1));
}
