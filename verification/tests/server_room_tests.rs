use ace::server::auth::{
    account, find_by_username, new_account, user_info, validate_registration, AuthError, RegisterRequest,
};
use ace::server::room::{
    bot_count, create_room, join_room, leave_room, matched_room, room_for_owner, start_game, start_match,
    CreateRoomRequest, JoinRoomRequest, MatchRequest, RoomError, RoomResponse,
};
use ace::server::state::{Room, RoomStatus, User};
use ace::server::text::decimal_string;
use ace::server::user::{total_games, update_profile, UserProfile, UserQuery};
use ace::server::ws::{notice, read_table_message, TableNotice};

fn join(room: &mut Room, id: &str) -> Result<RoomResponse, RoomError> {
    join_room(
        room,
        JoinRoomRequest { room_id: room.id.clone(), user_id: id.to_string(), username: format!("name-{}", id) },
    )
}

#[test]
fn rooms_open_with_the_owner_ready() {
    let room = create_room(CreateRoomRequest { user_id: "u1".to_string(), username: "Ann".to_string() });
    assert_eq!(room.id.len(), 36);
    assert_eq!(room.owner_id, "u1");
    assert_eq!(room.players.len(), 1);
    assert!(room.players[0].is_ready);
    assert!(!room.players[0].is_robot);
    assert_eq!(room.status, RoomStatus::Waiting);
    let other = create_room(CreateRoomRequest { user_id: "u1".to_string(), username: "Ann".to_string() });
    assert_ne!(room.id, other.id);
}

#[test]
fn joining_fills_the_room() {
    let mut room = room_for_owner("r".to_string(), "u1".to_string(), "Ann".to_string(), 7);
    assert_eq!(join(&mut room, "u1").unwrap_err(), RoomError::AlreadyInRoom);
    let resp = join(&mut room, "u2").unwrap();
    assert_eq!(resp.status, "Waiting");
    assert_eq!(resp.players.len(), 2);
    assert!(!resp.players[1].is_ready);
    join(&mut room, "u3").unwrap();
    let resp = join(&mut room, "u4").unwrap();
    assert_eq!(resp.status, "Full");
    assert_eq!(room.status, RoomStatus::Full);
    assert_eq!(join(&mut room, "u5").unwrap_err(), RoomError::Full);
    assert_eq!(room.players.len(), 4);
    assert_eq!(RoomError::Full.status_code(), 400);
    assert_eq!(RoomError::Full.message(), "房间已满");
    assert_eq!(RoomError::AlreadyInRoom.status_code(), 409);
}

#[test]
fn joining_a_started_room_is_refused() {
    let mut room = room_for_owner("r".to_string(), "u1".to_string(), "Ann".to_string(), 7);
    assert_eq!(start_game(&mut room), Err(RoomError::NeedFourPlayers));
    assert_eq!(RoomError::NeedFourPlayers.message(), "需要4人才能开始");
    room.status = RoomStatus::Playing;
    assert_eq!(join(&mut room, "u2").unwrap_err(), RoomError::AlreadyStarted);
    assert_eq!(RoomError::AlreadyStarted.message(), "房间已开始游戏");
}

#[test]
fn starting_needs_four() {
    let mut room = room_for_owner("r".to_string(), "u1".to_string(), "Ann".to_string(), 7);
    join(&mut room, "u2").unwrap();
    join(&mut room, "u3").unwrap();
    join(&mut room, "u4").unwrap();
    assert_eq!(start_game(&mut room), Ok(()));
    assert_eq!(room.status, RoomStatus::Playing);
}

#[test]
fn leaving_hands_over_ownership() {
    let mut room = room_for_owner("r".to_string(), "u1".to_string(), "Ann".to_string(), 7);
    join(&mut room, "u2").unwrap();
    join(&mut room, "u3").unwrap();
    assert_eq!(leave_room(&mut room, &"u9".to_string()), Err(RoomError::NotInRoom));
    assert_eq!(RoomError::NotInRoom.status_code(), 404);
    assert_eq!(leave_room(&mut room, &"u2".to_string()), Ok(false));
    assert_eq!(room.owner_id, "u1");
    assert_eq!(leave_room(&mut room, &"u1".to_string()), Ok(false));
    assert_eq!(room.owner_id, "u3");
    assert_eq!(leave_room(&mut room, &"u3".to_string()), Ok(true));
    assert!(room.players.is_empty());
    assert_eq!(room.owner_id, "u3");
}

#[test]
fn matching_adds_bots() {
    let req = |mode: &str| MatchRequest { user_id: "u1".to_string(), username: "Ann".to_string(), mode: mode.to_string() };
    let room = matched_room("m".to_string(), req("double"), 5);
    assert_eq!(room.players.len(), 4);
    assert_eq!(room.players[1].user_id, "bot_0");
    assert_eq!(room.players[1].username, "机器人1");
    assert_eq!(room.players[2].user_id, "bot_1");
    assert_eq!(room.players[2].username, "机器人2");
    assert!(room.players[2].is_robot && room.players[2].is_ready);
    assert_eq!(room.players[3].user_id, "bot_2");
    assert_eq!(room.status, RoomStatus::Playing);
    assert_eq!(room.owner_id, "u1");
    assert_eq!(matched_room("m".to_string(), req("single"), 5).players.len(), 4);
    assert_eq!(matched_room("m".to_string(), req("bot"), 5).players.len(), 4);
    assert_eq!(matched_room("m".to_string(), req("other"), 5).players[3].username, "机器人3");
    assert_eq!(bot_count(&"double".to_string()), 3);
    assert_eq!(bot_count(&"single".to_string()), 3);
    let live = start_match(req("bot"));
    assert_eq!(live.id.len(), 36);
    assert_eq!(live.players.len(), 4);
}

#[test]
fn room_response_spells_the_status() {
    let mut room = room_for_owner("r".to_string(), "u1".to_string(), "Ann".to_string(), 7);
    room.status = RoomStatus::Closed;
    let resp = RoomResponse::from(room);
    assert_eq!(resp.status, "Closed");
    assert_eq!(resp.id, "r");
    assert_eq!(resp.owner_id, "u1");
    assert_eq!(resp.created_at, 7);
}

#[test]
fn decimal_numerals() {
    assert_eq!(decimal_string(0), "0");
    assert_eq!(decimal_string(7), "7");
    assert_eq!(decimal_string(1234), "1234");
    assert_eq!(decimal_string(usize::MAX), format!("{}", usize::MAX));
}

fn user() -> User {
    account("id1".to_string(), "Ann".to_string(), "h".to_string(), 3)
}

#[test]
fn profiles_and_stats() {
    let mut u = user();
    assert_eq!(u.score, 1000);
    let p = UserProfile::from_user(&u);
    assert_eq!(p.username, "Ann");
    assert_eq!(p.created_at, 3);
    update_profile(&mut u, &String::new());
    assert_eq!(u.username, "Ann");
    update_profile(&mut u, &"Bea".to_string());
    assert_eq!(u.username, "Bea");
    u.wins = 3;
    u.losses = 4;
    assert_eq!(total_games(&u), 7);
    assert_eq!(UserQuery { user_id: None }.user_id_or_default(), "");
    assert_eq!(UserQuery { user_id: Some("x".to_string()) }.user_id_or_default(), "x");
}

#[test]
fn registration_rules() {
    let taken = vec!["Ann".to_string()];
    let req = |u: &str, p: &str| RegisterRequest { username: u.to_string(), password: p.to_string() };
    assert_eq!(validate_registration(&req("", "secret1"), &taken), Err(AuthError::BadFormat));
    assert_eq!(validate_registration(&req("Bob", "12345"), &taken), Err(AuthError::BadFormat));
    assert_eq!(validate_registration(&req("Bob", "密码"), &taken), Ok(()));
    assert_eq!(validate_registration(&req("Ann", "secret1"), &taken), Err(AuthError::UsernameTaken));
    assert_eq!(validate_registration(&req("Bob", "123456"), &taken), Ok(()));
    assert_eq!(AuthError::UsernameTaken.status_code(), 409);
    assert_eq!(AuthError::BadFormat.message(), "用户名或密码格式错误");
    assert_eq!(AuthError::WrongCredentials.status_code(), 401);
}

#[test]
fn accounts_and_lookup() {
    let u = new_account("Ann".to_string(), "hash".to_string());
    assert_eq!(u.id.len(), 36);
    assert_eq!((u.score, u.wins, u.losses), (1000, 0, 0));
    let info = user_info(&u);
    assert_eq!(info.username, "Ann");
    let users = vec![user(), account("id2".to_string(), "Bob".to_string(), "h".to_string(), 4)];
    assert_eq!(find_by_username(&users, &"Bob".to_string()), Some(1));
    assert_eq!(find_by_username(&users, &"Cy".to_string()), None);
}

#[test]
fn table_notices() {
    match notice(&"bid".to_string(), Some("u1".to_string()), None, None) {
        Some(TableNotice::BidPlaced { user_id, bid }) => {
            assert_eq!(user_id, "u1");
            assert_eq!(bid, 75);
        }
        _ => panic!("expected a bid"),
    }
    match notice(&"bid".to_string(), None, None, Some((1u64 << 32) + 5)) {
        Some(TableNotice::BidPlaced { user_id, bid }) => {
            assert_eq!(user_id, "");
            assert_eq!(bid, 5);
        }
        _ => panic!("expected a bid"),
    }
    match notice(&"play_card".to_string(), Some("u2".to_string()), Some(3), None) {
        Some(TableNotice::CardPlayed { user_id, card_index }) => {
            assert_eq!(user_id, "u2");
            assert_eq!(card_index, 3);
        }
        _ => panic!("expected a card"),
    }
    assert!(matches!(
        notice(&"ready".to_string(), Some("u3".to_string()), None, None),
        Some(TableNotice::PlayerReady { .. })
    ));
    assert!(notice(&"chat".to_string(), None, None, None).is_none());
}

#[test]
fn table_messages_read_from_json() {
    match read_table_message(r#"{"type":"bid","user_id":"u7"}"#) {
        Ok(Some(TableNotice::BidPlaced { user_id, bid })) => {
            assert_eq!(user_id, "u7");
            assert_eq!(bid, 75);
        }
        other => panic!("unexpected {:?}", other),
    }
    match read_table_message(r#"{"type":"play_card","user_id":"u8","card_index":4}"#) {
        Ok(Some(TableNotice::CardPlayed { user_id, card_index })) => {
            assert_eq!(user_id, "u8");
            assert_eq!(card_index, 4);
        }
        other => panic!("unexpected {:?}", other),
    }
    match read_table_message(r#"{"type":"ready"}"#) {
        Ok(Some(TableNotice::PlayerReady { user_id })) => assert_eq!(user_id, ""),
        other => panic!("unexpected {:?}", other),
    }
    assert!(matches!(read_table_message(r#"{"user_id":"u9"}"#), Ok(None)));
    assert!(matches!(read_table_message("[1, 2]"), Ok(None)));
    match read_table_message("not json") {
        Err(m) => assert!(m.starts_with("JSON解析错误: ") && m.len() > "JSON解析错误: ".len()),
        other => panic!("unexpected {:?}", other),
    }
}
