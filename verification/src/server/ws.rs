//! Replies to table messages.
use vstd::prelude::*;

verus! {

broadcast use vstd::string::group_string_axioms;

/// A message from a client at the table.
#[derive(Debug)]
pub enum ClientMessage {
    PlayCard { user_id: String, card_index: usize },
    Bid { user_id: String, bid: u32 },
    Ready { user_id: String },
}

/// What the table hears after a client message.
#[derive(Debug)]
pub enum TableNotice {
    CardPlayed { user_id: String, card_index: usize },
    BidPlaced { user_id: String, bid: u32 },
    PlayerReady { user_id: String },
}

/// The reply to a message of the given type with the given fields: a played
/// card (index 0 when missing), a placed bid (75 when missing), a ready player;
/// a missing user id reads as empty; other types get no reply. Numbers are cut
/// to the width of their field.
pub open spec fn notice_for(
    msg_type: Seq<char>,
    user_id: Option<Seq<char>>,
    card_index: Option<u64>,
    bid: Option<u64>,
) -> Option<(int, Seq<char>, int)> {
    let uid = match user_id {
        Some(u) => u,
        None => Seq::empty(),
    };
    if msg_type == "play_card"@ {
        Some((0int, uid, (match card_index { Some(c) => c, None => 0u64 }) as usize as int))
    } else if msg_type == "bid"@ {
        Some((1int, uid, (match bid { Some(b) => b, None => 75u64 }) as u32 as int))
    } else if msg_type == "ready"@ {
        Some((2int, uid, 0int))
    } else {
        None
    }
}

/// The type a reply to the table is sent under.
pub open spec fn kind_text(n: TableNotice) -> Seq<char> {
    match n {
        TableNotice::CardPlayed { .. } => "card_played"@,
        TableNotice::BidPlaced { .. } => "bid_placed"@,
        TableNotice::PlayerReady { .. } => "player_ready"@,
    }
}

impl TableNotice {
    /// The type the reply is sent under: see `kind_text`.
    pub fn kind_name(&self) -> (s: String)
        ensures
            s@ == kind_text(*self),
    {
        match self {
            TableNotice::CardPlayed { .. } => "card_played".to_string(),
            TableNotice::BidPlaced { .. } => "bid_placed".to_string(),
            TableNotice::PlayerReady { .. } => "player_ready".to_string(),
        }
    }

    /// The notice as (kind, user id, number): 0 for a played card with its
    /// index, 1 for a bid with its amount, 2 for a ready player.
    pub open spec fn parts(self) -> (int, Seq<char>, int) {
        match self {
            TableNotice::CardPlayed { user_id, card_index } => (0int, user_id@, card_index as int),
            TableNotice::BidPlaced { user_id, bid } => (1int, user_id@, bid as int),
            TableNotice::PlayerReady { user_id } => (2int, user_id@, 0int),
        }
    }
}

/// The notice for a table message: see `notice_for`.
pub fn notice(msg_type: &String, user_id: Option<String>, card_index: Option<u64>, bid: Option<u64>) -> (r: Option<TableNotice>)
    ensures
        match notice_for(msg_type@, text_view(user_id), card_index, bid) {
            Some(p) => r matches Some(n) && n.parts() == p,
            None => r is None,
        },
{
    let uid = match user_id {
        Some(u) => u,
        None => String::new(),
    };
    let play = String::from_str("play_card");
    let bid_type = String::from_str("bid");
    let ready = String::from_str("ready");
    proof {
        reveal_strlit("play_card");
        reveal_strlit("bid");
        reveal_strlit("ready");
    }
    if *msg_type == play {
        let idx = match card_index {
            Some(c) => c,
            None => 0,
        };
        Some(TableNotice::CardPlayed { user_id: uid, card_index: idx as usize })
    } else if *msg_type == bid_type {
        let amount = match bid {
            Some(b) => b,
            None => 75,
        };
        Some(TableNotice::BidPlaced { user_id: uid, bid: amount as u32 })
    } else if *msg_type == ready {
        Some(TableNotice::PlayerReady { user_id: uid })
    } else {
        None
    }
}

/// What `serde_json` reads from a table message: the error's text where the
/// message is no JSON document; else its fields "type" and "user_id" where
/// they hold strings, and "card_index" and "bid" where they hold unsigned
/// integers that fit in 64 bits.
pub uninterp spec fn json_message(text: Seq<char>) -> Result<
    (Option<Seq<char>>, Option<Seq<char>>, Option<u64>, Option<u64>),
    Seq<char>,
>;

/// An optional text by its view.
pub open spec fn text_view(o: Option<String>) -> Option<Seq<char>> {
    match o {
        Some(s) => Some(s@),
        None => None,
    }
}

/// The fields of a read message by their views.
pub open spec fn fields_view(
    r: Result<(Option<String>, Option<String>, Option<u64>, Option<u64>), String>,
) -> Result<(Option<Seq<char>>, Option<Seq<char>>, Option<u64>, Option<u64>), Seq<char>> {
    match r {
        Ok((t, u, c, b)) => Ok((text_view(t), text_view(u), c, b)),
        Err(e) => Err(e@),
    }
}

/// Reads a table message with `serde_json::from_str` into a JSON value and
/// picks its fields "type" and "user_id" with `as_str` and "card_index" and
/// "bid" with `as_u64`; a parse error comes back as its text. Claimed: the
/// result is a function of the message alone, named `json_message`.
#[verifier::external_body]
fn read_json_fields(text: &str) -> (r: Result<(Option<String>, Option<String>, Option<u64>, Option<u64>), String>)
    ensures
        fields_view(r) == json_message(text@),
{
    match serde_json::from_str::<serde_json::Value>(text) {
        Ok(msg) => Ok((
            msg["type"].as_str().map(String::from),
            msg["user_id"].as_str().map(String::from),
            msg["card_index"].as_u64(),
            msg["bid"].as_u64(),
        )),
        Err(e) => Err(e.to_string()),
    }
}

/// Reads a table message and gives the notice it calls for (see `notice`);
/// a missing "type" reads as empty. A message that is no JSON is refused
/// with "JSON解析错误: " and the parser's error.
pub fn read_table_message(text: &str) -> (r: Result<Option<TableNotice>, String>)
    ensures
        match json_message(text@) {
            Err(detail) => r matches Err(m) && m@ == "JSON解析错误: "@ + detail,
            Ok((t, u, c, b)) => r matches Ok(n) && match notice_for(
                match t { Some(s) => s, None => Seq::empty() }, u, c, b,
            ) {
                Some(p) => n matches Some(x) && x.parts() == p,
                None => n is None,
            },
        },
{
    match read_json_fields(text) {
        Err(detail) => {
            let mut m = String::from_str("JSON解析错误: ");
            m.append(&detail);
            Err(m)
        },
        Ok((t, u, c, b)) => {
            let msg_type = match t {
                Some(s) => s,
                None => String::new(),
            };
            Ok(notice(&msg_type, u, c, b))
        },
    }
}

} // verus!

verus! {

/// Every notice names its sender: the notice for a message carries the
/// message's user id, or the empty id where the message has none; in
/// particular a ready message is answered by a ready notice for that user.
pub proof fn law_notices_name_the_sender(
    msg_type: Seq<char>,
    user_id: Option<Seq<char>>,
    card_index: Option<u64>,
    bid: Option<u64>,
)
    ensures
        notice_for(msg_type, user_id, card_index, bid) matches Some((k, id, n)) ==> id == match user_id {
            Some(u) => u,
            None => Seq::<char>::empty(),
        },
        notice_for("ready"@, Some(msg_type), card_index, bid) == Some((2int, msg_type, 0int)),
{
    reveal_strlit("ready");
    reveal_strlit("play_card");
    reveal_strlit("bid");
    assert("ready"@.len() == 5 && "play_card"@.len() == 9 && "bid"@.len() == 3);
    assert("ready"@ != "play_card"@ && "ready"@ != "bid"@);
}

} // verus!

verus! {

/// What each message type is answered with: a played card under its index (0
/// when the message gives none), a bid under its amount (75 when the message
/// gives none, cut to 32 bits), a ready player; every other type gets no
/// answer.
pub proof fn law_notice_kinds(user_id: Seq<char>, card_index: u64, bid: u64, other: Seq<char>)
    ensures
        notice_for("play_card"@, Some(user_id), Some(card_index), None) == Some(
            (0int, user_id, card_index as usize as int),
        ),
        notice_for("play_card"@, Some(user_id), None, None) == Some((0int, user_id, 0int)),
        bid <= u32::MAX ==> notice_for("bid"@, Some(user_id), None, Some(bid)) == Some((1int, user_id, bid as int)),
        notice_for("bid"@, Some(user_id), None, None) == Some((1int, user_id, 75int)),
        other != "play_card"@ && other != "bid"@ && other != "ready"@ ==> notice_for(other, Some(user_id), None, None)
            is None,
{
    reveal_strlit("ready");
    reveal_strlit("play_card");
    reveal_strlit("bid");
    assert("bid"@ != "play_card"@) by {
        assert("bid"@.len() == 3 && "play_card"@.len() == 9);
    }
}

} // verus!
