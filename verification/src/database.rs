//! The link between a chat account and an osu! account, as it is stored.

use vstd::prelude::*;

verus! {

/// A chat user who has connected an osu! account.
#[derive(Debug)]
pub struct User {
    pub id: i64,
    pub name: String,
    pub osu_id: i64,
}

/// Why a user could not be looked up.
#[derive(Debug)]
pub enum UserError {
    DatabaseError(String),
    UserNotFound,
}

} // verus!
