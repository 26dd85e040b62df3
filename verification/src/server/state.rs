use vstd::prelude::*;

verus! {

/// A registered account.
#[derive(Clone, Debug)]
pub struct User {
    pub id: String,
    pub username: String,
    pub password_hash: String,
    pub score: i32,
    pub wins: i32,
    pub losses: i32,
    pub created_at: i64,
}

/// A lobby room.
#[derive(Clone, Debug)]
pub struct Room {
    pub id: String,
    pub owner_id: String,
    pub players: Vec<RoomPlayer>,
    pub status: RoomStatus,
    pub created_at: i64,
}

/// A member of a lobby room.
#[derive(Clone, Debug)]
pub struct RoomPlayer {
    pub user_id: String,
    pub username: String,
    pub is_ready: bool,
    pub is_robot: bool,
}

/// Where a lobby room stands.
#[derive(Clone, Copy, Debug, PartialEq, Eq, Structural)]
pub enum RoomStatus {
    Waiting,
    Full,
    Playing,
    Closed,
}

/// A room member as plain values.
#[verifier::ext_equal]
pub struct RoomPlayerView {
    pub user_id: Seq<char>,
    pub username: Seq<char>,
    pub is_ready: bool,
    pub is_robot: bool,
}

impl View for RoomPlayer {
    type V = RoomPlayerView;

    open spec fn view(&self) -> RoomPlayerView {
        RoomPlayerView {
            user_id: self.user_id@,
            username: self.username@,
            is_ready: self.is_ready,
            is_robot: self.is_robot,
        }
    }
}

/// The views of a row of members.
pub open spec fn member_views(ps: Seq<RoomPlayer>) -> Seq<RoomPlayerView> {
    ps.map_values(|p: RoomPlayer| p@)
}

/// A lobby room as plain values.
#[verifier::ext_equal]
pub struct RoomView {
    pub id: Seq<char>,
    pub owner_id: Seq<char>,
    pub players: Seq<RoomPlayerView>,
    pub status: RoomStatus,
    pub created_at: i64,
}

impl View for Room {
    type V = RoomView;

    open spec fn view(&self) -> RoomView {
        RoomView {
            id: self.id@,
            owner_id: self.owner_id@,
            players: member_views(self.players@),
            status: self.status,
            created_at: self.created_at,
        }
    }
}

/// An account as plain values.
#[verifier::ext_equal]
pub struct UserView {
    pub id: Seq<char>,
    pub username: Seq<char>,
    pub password_hash: Seq<char>,
    pub score: i32,
    pub wins: i32,
    pub losses: i32,
    pub created_at: i64,
}

impl View for User {
    type V = UserView;

    open spec fn view(&self) -> UserView {
        UserView {
            id: self.id@,
            username: self.username@,
            password_hash: self.password_hash@,
            score: self.score,
            wins: self.wins,
            losses: self.losses,
            created_at: self.created_at,
        }
    }
}

/// Copies a member, field by field.
pub fn copy_member(p: &RoomPlayer) -> (q: RoomPlayer)
    ensures
        q@ == p@,
{
    RoomPlayer {
        user_id: p.user_id.clone(),
        username: p.username.clone(),
        is_ready: p.is_ready,
        is_robot: p.is_robot,
    }
}

/// Copies a row of members.
pub fn copy_members(ps: &Vec<RoomPlayer>) -> (qs: Vec<RoomPlayer>)
    ensures
        member_views(qs@) == member_views(ps@),
{
    let mut qs: Vec<RoomPlayer> = Vec::with_capacity(ps.len());
    let mut i: usize = 0;
    while i < ps.len()
        invariant
            i <= ps@.len(),
            qs@.len() == i,
            forall|k: int| 0 <= k < i ==> #[trigger] qs@[k]@ == ps@[k]@,
        decreases ps@.len() - i,
    {
        qs.push(copy_member(&ps[i]));
        i = i + 1;
    }
    assert(member_views(qs@) =~= member_views(ps@));
    qs
}

/// Copies a room, field by field.
pub fn copy_room(r: &Room) -> (q: Room)
    ensures
        q@ == r@,
{
    Room {
        id: r.id.clone(),
        owner_id: r.owner_id.clone(),
        players: copy_members(&r.players),
        status: r.status,
        created_at: r.created_at,
    }
}

} // verus!
