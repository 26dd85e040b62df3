//! Lobby rooms: opening, joining, leaving, starting and matching.
use vstd::prelude::*;
use crate::server::state::{
    Room, RoomPlayer, RoomPlayerView, RoomStatus, RoomView, copy_room, member_views,
};
use crate::server::text::{decimal, prefixed_number};
use crate::server::stamps::{new_id, now_timestamp};

verus! {

broadcast use vstd::string::group_string_axioms;

/// A request to open a room.
#[derive(Debug)]
pub struct CreateRoomRequest {
    pub user_id: String,
    pub username: String,
}

/// A request to join a room.
#[derive(Debug)]
pub struct JoinRoomRequest {
    pub room_id: String,
    pub user_id: String,
    pub username: String,
}

/// A request to be matched into a room with bots.
#[derive(Debug)]
pub struct MatchRequest {
    pub user_id: String,
    pub username: String,
    pub mode: String,
}

/// A room as shown to clients, its status spelled out.
#[derive(Debug)]
pub struct RoomResponse {
    pub id: String,
    pub owner_id: String,
    pub players: Vec<RoomPlayer>,
    pub status: String,
    pub created_at: i64,
}

/// Why a room request is refused.
#[derive(Debug, Clone, Copy, PartialEq, Eq, Structural)]
pub enum RoomError {
    NotFound,
    Full,
    AlreadyStarted,
    AlreadyInRoom,
    NotInRoom,
    NeedFourPlayers,
}

/// The name of a status, as `{:?}` writes it.
pub open spec fn status_name(s: RoomStatus) -> Seq<char> {
    match s {
        RoomStatus::Waiting => "Waiting"@,
        RoomStatus::Full => "Full"@,
        RoomStatus::Playing => "Playing"@,
        RoomStatus::Closed => "Closed"@,
    }
}

/// The HTTP status code of a refusal.
pub open spec fn error_code(e: RoomError) -> u16 {
    match e {
        RoomError::NotFound => 404,
        RoomError::Full => 400,
        RoomError::AlreadyStarted => 400,
        RoomError::AlreadyInRoom => 409,
        RoomError::NotInRoom => 404,
        RoomError::NeedFourPlayers => 400,
    }
}

/// The message of a refusal.
pub open spec fn error_text(e: RoomError) -> Seq<char> {
    match e {
        RoomError::NotFound => "房间不存在"@,
        RoomError::Full => "房间已满"@,
        RoomError::AlreadyStarted => "房间已开始游戏"@,
        RoomError::AlreadyInRoom => "已在房间中"@,
        RoomError::NotInRoom => "不在房间中"@,
        RoomError::NeedFourPlayers => "需要4人才能开始"@,
    }
}

impl RoomError {
    pub fn status_code(&self) -> (c: u16)
        ensures
            c == error_code(*self),
    {
        match self {
            RoomError::NotFound => 404,
            RoomError::Full => 400,
            RoomError::AlreadyStarted => 400,
            RoomError::AlreadyInRoom => 409,
            RoomError::NotInRoom => 404,
            RoomError::NeedFourPlayers => 400,
        }
    }

    pub fn message(&self) -> (m: String)
        ensures
            m@ == error_text(*self),
    {
        match self {
            RoomError::NotFound => "房间不存在".to_string(),
            RoomError::Full => "房间已满".to_string(),
            RoomError::AlreadyStarted => "房间已开始游戏".to_string(),
            RoomError::AlreadyInRoom => "已在房间中".to_string(),
            RoomError::NotInRoom => "不在房间中".to_string(),
            RoomError::NeedFourPlayers => "需要4人才能开始".to_string(),
        }
    }
}

impl RoomResponse {
    /// The room as shown to clients.
    pub fn from(room: Room) -> (r: RoomResponse)
        ensures
            r.id@ == room.id@,
            r.owner_id@ == room.owner_id@,
            member_views(r.players@) == member_views(room.players@),
            r.status@ == status_name(room.status),
            r.created_at == room.created_at,
    {
        let status = match room.status {
            RoomStatus::Waiting => "Waiting".to_string(),
            RoomStatus::Full => "Full".to_string(),
            RoomStatus::Playing => "Playing".to_string(),
            RoomStatus::Closed => "Closed".to_string(),
        };
        RoomResponse {
            id: room.id,
            owner_id: room.owner_id,
            players: room.players,
            status,
            created_at: room.created_at,
        }
    }
}

// ---------------------------------------------------------------------------
// The model of the room operations.
// ---------------------------------------------------------------------------

/// The room member `user_id` at position `i` is the first one with that id.
pub open spec fn is_first_member(r: RoomView, user_id: Seq<char>, i: int) -> bool {
    &&& 0 <= i < r.players.len()
    &&& r.players[i].user_id == user_id
    &&& forall|j: int| 0 <= j < i ==> (#[trigger] r.players[j]).user_id != user_id
}

/// Someone with this id is in the room.
pub open spec fn has_member(r: RoomView, user_id: Seq<char>) -> bool {
    exists|i: int| 0 <= i < r.players.len() && (#[trigger] r.players[i]).user_id == user_id
}

/// Why a join is refused, in the order the checks run: a full room, a room
/// that is no longer waiting, a member already inside.
pub open spec fn join_refusal(r: RoomView, user_id: Seq<char>) -> Option<RoomError> {
    if r.players.len() >= 4 {
        Some(RoomError::Full)
    } else if r.status != RoomStatus::Waiting {
        Some(RoomError::AlreadyStarted)
    } else if has_member(r, user_id) {
        Some(RoomError::AlreadyInRoom)
    } else {
        None
    }
}

/// The room after a join: the newcomer sits last, not ready; the fourth
/// member makes the room full.
pub open spec fn joined(r: RoomView, user_id: Seq<char>, username: Seq<char>) -> RoomView {
    let ps = r.players.push(RoomPlayerView { user_id, username, is_ready: false, is_robot: false });
    RoomView { players: ps, status: if ps.len() == 4 { RoomStatus::Full } else { r.status }, ..r }
}

/// The room after member `i` leaves: when the owner leaves a room that still
/// has members, the first remaining member becomes owner.
pub open spec fn left(r: RoomView, i: int) -> RoomView {
    let ps = r.players.remove(i);
    RoomView {
        players: ps,
        owner_id: if r.owner_id == r.players[i].user_id && ps.len() > 0 {
            ps[0].user_id
        } else {
            r.owner_id
        },
        ..r
    }
}

/// A room opened by `user_id`: the opener is owner and its only member, ready;
/// the room waits for players.
pub open spec fn room_opened(id: Seq<char>, user_id: Seq<char>, username: Seq<char>, created_at: i64) -> RoomView {
    RoomView {
        id,
        owner_id: user_id,
        players: seq![RoomPlayerView { user_id, username, is_ready: true, is_robot: false }],
        status: RoomStatus::Waiting,
        created_at,
    }
}

/// How many bots a match mode brings: three in every mode, so that a matched
/// table always seats four (a single player with three others, a player with
/// a teammate and two opponents, or a player with three bots).
pub open spec fn bots_for(mode: Seq<char>) -> nat {
    3
}

/// Bot `i` of a match: id `bot_i`, name `机器人` and `i + 1`, ready.
pub open spec fn bot_member(i: nat) -> RoomPlayerView {
    RoomPlayerView {
        user_id: "bot_"@ + decimal(i),
        username: "机器人"@ + decimal(i + 1),
        is_ready: true,
        is_robot: true,
    }
}

/// A matched room: the player, ready, followed by the bots of the mode; the
/// game is already playing.
pub open spec fn room_matched(id: Seq<char>, user_id: Seq<char>, username: Seq<char>, mode: Seq<char>, created_at: i64) -> RoomView {
    RoomView {
        id,
        owner_id: user_id,
        players: seq![RoomPlayerView { user_id, username, is_ready: true, is_robot: false }] + Seq::new(
            bots_for(mode),
            |i: int| bot_member(i as nat),
        ),
        status: RoomStatus::Playing,
        created_at,
    }
}

} // verus!

verus! {

/// Opens a room for the requester, under a fresh id and the current time (0
/// where the clock cannot be read).
pub fn create_room(payload: CreateRoomRequest) -> (room: Room)
    ensures
        room@ == room_opened(room@.id, payload.user_id@, payload.username@, room@.created_at),
        room@.id.len() == 36,
{
    let room_id = new_id();
    let created_at: i64 = match now_timestamp() {
        Some(t) => t,
        None => 0,
    };
    room_for_owner(room_id, payload.user_id, payload.username, created_at)
}

/// A room with the given id and time, opened by `user_id`: see `room_opened`.
pub fn room_for_owner(room_id: String, user_id: String, username: String, created_at: i64) -> (room: Room)
    ensures
        room@ == room_opened(room_id@, user_id@, username@, created_at),
{
    let owner_id = user_id.clone();
    let mut players: Vec<RoomPlayer> = Vec::with_capacity(1);
    players.push(RoomPlayer { user_id, username, is_ready: true, is_robot: false });
    let room = Room { id: room_id, owner_id, players, status: RoomStatus::Waiting, created_at };
    assert(room@ =~= room_opened(room_id@, user_id@, username@, created_at));
    room
}

/// Adds the requester to the room, refusing a full room, a room no longer
/// waiting, or a member already inside; returns the room as shown to clients.
pub fn join_room(room: &mut Room, payload: JoinRoomRequest) -> (r: Result<RoomResponse, RoomError>)
    ensures
        join_refusal(old(room)@, payload.user_id@) matches Some(e) ==> r == Err::<RoomResponse, RoomError>(e)
            && final(room)@ == old(room)@,
        join_refusal(old(room)@, payload.user_id@) is None ==> final(room)@ == joined(
            old(room)@,
            payload.user_id@,
            payload.username@,
        ) && (r matches Ok(resp) && resp.id@ == final(room)@.id && resp.owner_id@ == final(room)@.owner_id
            && member_views(resp.players@) == final(room)@.players && resp.status@ == status_name(
            final(room)@.status,
        ) && resp.created_at == final(room)@.created_at),
{
    if room.players.len() >= 4 {
        return Err(RoomError::Full);
    }
    if room.status != RoomStatus::Waiting {
        return Err(RoomError::AlreadyStarted);
    }
    let mut i: usize = 0;
    while i < room.players.len()
        invariant
            i <= room@.players.len(),
            room@ == old(room)@,
            old(room)@.players.len() < 4,
            old(room)@.status == RoomStatus::Waiting,
            forall|j: int| 0 <= j < i ==> (#[trigger] room@.players[j]).user_id != payload.user_id@,
        decreases room@.players.len() - i,
    {
        if room.players[i].user_id == payload.user_id {
            assert(room@.players[i as int].user_id == payload.user_id@);
            return Err(RoomError::AlreadyInRoom);
        }
        i = i + 1;
    }
    let ghost uid = payload.user_id@;
    let ghost uname = payload.username@;
    room.players.push(RoomPlayer {
        user_id: payload.user_id,
        username: payload.username,
        is_ready: false,
        is_robot: false,
    });
    if room.players.len() == 4 {
        room.status = RoomStatus::Full;
    }
    assert(room@ =~= joined(old(room)@, uid, uname));
    Ok(RoomResponse::from(copy_room(room)))
}

/// Takes `user_id` out of the room (see `left`); the result says whether the
/// room is now empty. Refused when no member has that id.
pub fn leave_room(room: &mut Room, user_id: &String) -> (r: Result<bool, RoomError>)
    ensures
        !has_member(old(room)@, user_id@) ==> r == Err::<bool, RoomError>(RoomError::NotInRoom)
            && final(room)@ == old(room)@,
        forall|i: int|
            is_first_member(old(room)@, user_id@, i) ==> #[trigger] left(old(room)@, i) == final(room)@
                && r == Ok::<bool, RoomError>(final(room)@.players.len() == 0),
{
    let mut i: usize = 0;
    while i < room.players.len()
        invariant
            i <= room@.players.len(),
            forall|j: int| 0 <= j < i ==> (#[trigger] room@.players[j]).user_id != user_id@,
            room@ == old(room)@,
        decreases room@.players.len() - i,
    {
        if room.players[i].user_id == *user_id {
            assert(is_first_member(old(room)@, user_id@, i as int));
            let ghost prev = room@;
            let _gone = room.players.remove(i);
            assert(room@.players =~= prev.players.remove(i as int));
            if room.owner_id == *user_id && !room.players.is_empty() {
                room.owner_id = room.players[0].user_id.clone();
            }
            assert(room@ =~= left(prev, i as int));
            proof {
                assert forall|k: int| is_first_member(old(room)@, user_id@, k) implies k == i by {
                    if k < i {
                        assert(old(room)@.players[k].user_id != user_id@);
                    } else if k > i {
                        assert(old(room)@.players[i as int].user_id == user_id@);
                    }
                }
            }
            return Ok(room.players.is_empty());
        }
        i = i + 1;
    }
    Err(RoomError::NotInRoom)
}

} // verus!

verus! {

/// Starts the game of a room with exactly four members; refused otherwise.
pub fn start_game(room: &mut Room) -> (r: Result<(), RoomError>)
    ensures
        old(room)@.players.len() != 4 ==> r == Err::<(), RoomError>(RoomError::NeedFourPlayers)
            && final(room)@ == old(room)@,
        old(room)@.players.len() == 4 ==> r is Ok && final(room)@ == (RoomView {
            status: RoomStatus::Playing,
            ..old(room)@
        }),
{
    if room.players.len() != 4 {
        return Err(RoomError::NeedFourPlayers);
    }
    room.status = RoomStatus::Playing;
    Ok(())
}

/// How many bots a match mode brings: see `bots_for`.
pub fn bot_count(mode: &String) -> (n: usize)
    ensures
        n == bots_for(mode@),
{
    3
}

/// A matched room under the given id and time: see `room_matched`.
pub fn matched_room(room_id: String, payload: MatchRequest, created_at: i64) -> (room: Room)
    ensures
        room@ == room_matched(room_id@, payload.user_id@, payload.username@, payload.mode@, created_at),
{
    let bots = bot_count(&payload.mode);
    let ghost uid = payload.user_id@;
    let ghost uname = payload.username@;
    let mut players: Vec<RoomPlayer> = Vec::with_capacity(bots + 1);
    players.push(RoomPlayer {
        user_id: payload.user_id.clone(),
        username: payload.username.clone(),
        is_ready: true,
        is_robot: false,
    });
    let ghost first = RoomPlayerView { user_id: uid, username: uname, is_ready: true, is_robot: false };
    let mut i: usize = 0;
    while i < bots
        invariant
            bots <= 3,
            i <= bots,
            member_views(players@) == seq![first] + Seq::new(i as nat, |k: int| bot_member(k as nat)),
        decreases bots - i,
    {
        let bot = RoomPlayer {
            user_id: prefixed_number("bot_", i),
            username: prefixed_number("机器人", i + 1),
            is_ready: true,
            is_robot: true,
        };
        proof {
            reveal_strlit("bot_");
            reveal_strlit("机器人");
        }
        assert(bot@ == bot_member(i as nat));
        let ghost before = players@;
        players.push(bot);
        assert(member_views(players@) =~= member_views(before).push(bot@));
        assert(seq![first] + Seq::new((i + 1) as nat, |k: int| bot_member(k as nat)) =~= (seq![first]
            + Seq::new(i as nat, |k: int| bot_member(k as nat))).push(bot_member(i as nat)));
        i = i + 1;
    }
    let room = Room {
        id: room_id,
        owner_id: payload.user_id,
        players,
        status: RoomStatus::Playing,
        created_at,
    };
    assert(room@ =~= room_matched(room_id@, uid, uname, payload.mode@, created_at));
    room
}

/// Matches the requester into a new room with bots, under a fresh id and the
/// current time (0 where the clock cannot be read).
pub fn start_match(payload: MatchRequest) -> (room: Room)
    ensures
        room@ == room_matched(room@.id, payload.user_id@, payload.username@, payload.mode@, room@.created_at),
        room@.id.len() == 36,
{
    let room_id = new_id();
    let created_at: i64 = match now_timestamp() {
        Some(t) => t,
        None => 0,
    };
    matched_room(room_id, payload, created_at)
}

} // verus!

verus! {

/// A room never holds more than four members: a join is refused at four, and
/// the fourth member to join marks the room full.
pub proof fn law_room_capacity(r: RoomView, user_id: Seq<char>, username: Seq<char>)
    requires
        r.players.len() <= 4,
    ensures
        join_refusal(r, user_id) is None ==> joined(r, user_id, username).players.len() <= 4,
        join_refusal(r, user_id) is None ==> (joined(r, user_id, username).status == RoomStatus::Full
            <==> joined(r, user_id, username).players.len() == 4),
        r.players.len() == 4 ==> join_refusal(r, user_id) == Some(RoomError::Full),
{
}

/// Nobody is in a room twice: a join by someone already inside is refused, so
/// rooms whose members are distinct stay so.
pub proof fn law_members_distinct(r: RoomView, user_id: Seq<char>, username: Seq<char>)
    requires
        forall|i: int, j: int|
            0 <= i < j < r.players.len() ==> (#[trigger] r.players[i]).user_id != (
            #[trigger] r.players[j]).user_id,
        join_refusal(r, user_id) is None,
    ensures
        ({
            let ps = joined(r, user_id, username).players;
            forall|i: int, j: int| 0 <= i < j < ps.len() ==> (#[trigger] ps[i]).user_id != (#[trigger] ps[j]).user_id
        }),
{
    let ps = joined(r, user_id, username).players;
    assert forall|i: int, j: int| 0 <= i < j < ps.len() implies (#[trigger] ps[i]).user_id != (
    #[trigger] ps[j]).user_id by {
        if j == r.players.len() {
            assert(ps[i] == r.players[i]);
        } else {
            assert(ps[i] == r.players[i] && ps[j] == r.players[j]);
        }
    }
}

/// When the owner leaves a room that keeps members, the first remaining member
/// becomes owner; when someone else leaves, the owner stays.
pub proof fn law_owner_after_leave(r: RoomView, i: int)
    requires
        0 <= i < r.players.len(),
    ensures
        r.owner_id == r.players[i].user_id && r.players.len() > 1 ==> left(r, i).owner_id
            == left(r, i).players[0].user_id,
        r.owner_id != r.players[i].user_id ==> left(r, i).owner_id == r.owner_id,
        left(r, i).players.len() == r.players.len() - 1,
{
}

/// A matched room seats four: the player first and then three bots, and is
/// already playing.
pub proof fn law_matched_room(id: Seq<char>, user_id: Seq<char>, username: Seq<char>, mode: Seq<char>, t: i64)
    ensures
        ({
            let m = room_matched(id, user_id, username, mode, t);
            &&& m.players.len() == 1 + bots_for(mode)
            &&& m.players.len() == 4
            &&& m.players[0].user_id == user_id
            &&& forall|k: int| 1 <= k < m.players.len() ==> (#[trigger] m.players[k]).is_robot
            &&& m.status == RoomStatus::Playing
        }),
{
}

} // verus!

verus! {

/// Join rules, checked in this order: a room of four or more is full; a room
/// not waiting has started; someone already inside cannot join again; anyone
/// else joins, seated last and not ready.
pub proof fn law_join_rules(r: RoomView, user_id: Seq<char>, username: Seq<char>)
    ensures
        r.players.len() >= 4 ==> join_refusal(r, user_id) == Some(RoomError::Full),
        r.players.len() < 4 && r.status != RoomStatus::Waiting ==> join_refusal(r, user_id) == Some(
            RoomError::AlreadyStarted,
        ),
        r.players.len() < 4 && r.status == RoomStatus::Waiting && (exists|i: int|
            0 <= i < r.players.len() && (#[trigger] r.players[i]).user_id == user_id) ==> join_refusal(r, user_id)
            == Some(RoomError::AlreadyInRoom),
        r.players.len() < 4 && r.status == RoomStatus::Waiting && (forall|i: int|
            0 <= i < r.players.len() ==> (#[trigger] r.players[i]).user_id != user_id) ==> {
            &&& join_refusal(r, user_id) is None
            &&& joined(r, user_id, username).players.len() == r.players.len() + 1
            &&& joined(r, user_id, username).players.last() == (RoomPlayerView {
                user_id,
                username,
                is_ready: false,
                is_robot: false,
            })
        },
{
}

} // verus!
