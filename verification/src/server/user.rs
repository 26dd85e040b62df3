//! Account profiles and statistics.
use vstd::prelude::*;
use crate::server::state::{User, UserView};

verus! {

/// The query of a profile or statistics request.
#[derive(Debug)]
pub struct UserQuery {
    pub user_id: Option<String>,
}

/// The public part of an account.
#[derive(Debug)]
pub struct UserProfile {
    pub id: String,
    pub username: String,
    pub score: i32,
    pub wins: i32,
    pub losses: i32,
    pub created_at: i64,
}

impl UserQuery {
    /// The queried id, or the empty id when none is given.
    pub fn user_id_or_default(self) -> (id: String)
        ensures
            id@ == match self.user_id {
                Some(s) => s@,
                None => Seq::<char>::empty(),
            },
    {
        match self.user_id {
            Some(s) => s,
            None => String::new(),
        }
    }
}

impl UserProfile {
    /// The profile of an account: everything but the password hash.
    pub fn from_user(user: &User) -> (p: UserProfile)
        ensures
            p.id@ == user.id@,
            p.username@ == user.username@,
            p.score == user.score,
            p.wins == user.wins,
            p.losses == user.losses,
            p.created_at == user.created_at,
    {
        UserProfile {
            id: user.id.clone(),
            username: user.username.clone(),
            score: user.score,
            wins: user.wins,
            losses: user.losses,
            created_at: user.created_at,
        }
    }
}

/// Renames the account, unless the new name is empty.
pub fn update_profile(user: &mut User, new_username: &String)
    ensures
        new_username@.len() == 0 ==> final(user)@ == old(user)@,
        new_username@.len() > 0 ==> final(user)@ == (UserView { username: new_username@, ..old(user)@ }),
{
    if !new_username.as_str().is_empty() {
        user.username = new_username.clone();
        assert(user@ =~= UserView { username: new_username@, ..old(user)@ });
    }
}

/// The number of games the account has played: wins plus losses.
pub fn total_games(user: &User) -> (n: i32)
    requires
        i32::MIN <= user.wins + user.losses <= i32::MAX,
    ensures
        n == user.wins + user.losses,
{
    user.wins + user.losses
}

} // verus!
