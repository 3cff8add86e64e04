//! Recipe graph core: the verified logic behind a recipe-management backend
//! whose data lives in a property graph of users, recipes and ingredients.

pub mod access;
pub mod credentials;
pub mod expiry;
pub mod identity;
pub mod like;
pub mod model;
pub mod query;
pub mod reads;
pub mod recipes;
pub mod records;
pub mod steps;
pub mod store;
pub mod text;
pub mod users;
