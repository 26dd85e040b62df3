use ace::server::auth::{login_user, register_account, AuthError, RegisterRequest};
use ace::server::credentials::{
    create_token, hash_password, token_expiry, token_for, verify_password, verify_token,
};
use ace::server::ws::TableNotice;

fn req(u: &str, p: &str) -> RegisterRequest {
    RegisterRequest { username: u.to_string(), password: p.to_string() }
}

#[test]
fn hashed_passwords_verify() {
    let h = hash_password("secret1").unwrap();
    assert!(h.starts_with("$2"));
    assert_ne!(h, "secret1");
    assert!(verify_password("secret1", &h));
    assert!(!verify_password("secret2", &h));
    assert!(!verify_password("secret1", "not a hash"));
}

#[test]
fn registration_refusals_and_a_new_account() {
    let taken = vec!["Ann".to_string()];
    assert_eq!(register_account(&taken, req("", "secret1")).unwrap_err(), AuthError::BadFormat);
    assert_eq!(register_account(&taken, req("Ann", "secret1")).unwrap_err(), AuthError::UsernameTaken);
    let u = register_account(&taken, req("Bob", "secret1")).unwrap();
    assert_eq!(u.username, "Bob");
    assert_eq!((u.score, u.wins, u.losses), (1000, 0, 0));
    assert_eq!(u.id.len(), 36);
    assert_ne!(u.password_hash, "secret1");
    assert!(verify_password("secret1", &u.password_hash));
    assert_eq!(AuthError::HashFailed.status_code(), 500);
}

#[test]
fn login_checks_the_password_of_the_first_account_with_the_name() {
    let bob = register_account(&Vec::new(), req("Bob", "secret1")).unwrap();
    let users = vec![bob.clone()];
    assert_eq!(login_user(&users, &"Bob".to_string(), &"secret1".to_string()), Some(0));
    assert_eq!(login_user(&users, &"Bob".to_string(), &"wrong!!".to_string()), None);
    assert_eq!(login_user(&users, &"Cy".to_string(), &"secret1".to_string()), None);
}

#[test]
fn tokens_carry_the_account_for_a_day() {
    assert_eq!(token_expiry(1000), 87400);
    assert_eq!(token_expiry(i64::MAX - 10), i64::MAX);
    let a = token_for("id1", "Ann", 1_000).unwrap();
    let b = token_for("id1", "Ann", 1_000).unwrap();
    assert_eq!(a, b);
    assert_eq!(a.split('.').count(), 3);
    assert_ne!(a, token_for("id1", "Ann", 2_000).unwrap());
    // made long ago, so it has expired
    assert_eq!(verify_token(&a), None);
    let fresh = create_token("id1", "Ann").unwrap();
    assert_eq!(verify_token(&fresh), Some(("id1".to_string(), "Ann".to_string())));
    assert_eq!(verify_token("garbage"), None);
}

#[test]
fn token_payload_lists_sub_username_exp() {
    let t = token_for("id1", "Ann", 1_000).unwrap();
    let parts: Vec<&str> = t.split('.').collect();
    assert_eq!(parts[0], "eyJ0eXAiOiJKV1QiLCJhbGciOiJIUzI1NiJ9");
    // {"sub":"id1","username":"Ann","exp":87400}
    assert_eq!(parts[1], "eyJzdWIiOiJpZDEiLCJ1c2VybmFtZSI6IkFubiIsImV4cCI6ODc0MDB9");
}

#[test]
fn a_fresh_token_gives_back_its_account() {
    let t = create_token("u-42", "Bob").unwrap();
    assert_eq!(verify_token(&t), Some(("u-42".to_string(), "Bob".to_string())));
    // another signature is refused
    let mut forged = t.clone();
    forged.push('x');
    assert_eq!(verify_token(&forged), None);
}

#[test]
fn reply_types() {
    let n = TableNotice::BidPlaced { user_id: "u".to_string(), bid: 80 };
    assert_eq!(n.kind_name(), "bid_placed");
    let n = TableNotice::CardPlayed { user_id: "u".to_string(), card_index: 1 };
    assert_eq!(n.kind_name(), "card_played");
    let n = TableNotice::PlayerReady { user_id: "u".to_string() };
    assert_eq!(n.kind_name(), "player_ready");
}
