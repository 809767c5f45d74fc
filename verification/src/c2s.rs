//! What a guest sends to the host: a request to connect, or a move.
use crate::message::{
    lemma_front_of_concat, lemma_move_bytes_injective, move_bytes, Malformed, Move, KEY_MSG_MOVE,
};
use crate::wire::{
    bool_field, lemma_bool_field_unique, lemma_len_field_head, lemma_len_field_unique,
    lemma_u32_field_unique, len_field, read_bool_field, read_len_field, read_u32_field, u32_field,
    write_bool_field, write_len_field, write_u32_field,
};
use vstd::prelude::*;
use vstd::slice::slice_subrange;

verus! {

/// Key of `C2sConnectRequest::game_id`.
pub const KEY_REQUEST_GAME_ID: u8 = 0x08;

/// Key of `C2sConnectRequest::spectate`.
pub const KEY_REQUEST_SPECTATE: u8 = 0x10;

/// Key under which a `C2sConnectRequest` travels inside a message.
pub const KEY_MSG_CONNECT_REQUEST: u8 = 0x12;

/// The guest asks to join a game.
#[derive(Clone, Copy, Debug, PartialEq, Eq)]
pub struct C2sConnectRequest {
    pub game_id: u32,
    pub spectate: bool,
}

/// The bytes of a request to connect.
pub open spec fn connect_request_bytes(r: C2sConnectRequest) -> Seq<u8> {
    u32_field(KEY_REQUEST_GAME_ID, r.game_id) + bool_field(KEY_REQUEST_SPECTATE, r.spectate)
}

/// Different requests have different bytes.
pub proof fn lemma_connect_request_bytes_injective(a: C2sConnectRequest, b: C2sConnectRequest)
    requires
        connect_request_bytes(a) == connect_request_bytes(b),
    ensures
        a == b,
{
    let s = connect_request_bytes(a);
    let ga = u32_field(KEY_REQUEST_GAME_ID, a.game_id);
    let gb = u32_field(KEY_REQUEST_GAME_ID, b.game_id);
    let sa = bool_field(KEY_REQUEST_SPECTATE, a.spectate);
    let sb = bool_field(KEY_REQUEST_SPECTATE, b.spectate);
    lemma_front_of_concat(ga, sa);
    lemma_front_of_concat(gb, sb);
    lemma_u32_field_unique(KEY_REQUEST_GAME_ID, a.game_id, b.game_id, s);
    assert(sa.is_prefix_of(sa));
    lemma_bool_field_unique(KEY_REQUEST_SPECTATE, a.spectate, b.spectate, sa);
}

impl C2sConnectRequest {
    /// The bytes of the request.
    pub fn encode(&self) -> (r: Vec<u8>)
        ensures
            r@ == connect_request_bytes(*self),
    {
        let mut buf: Vec<u8> = Vec::new();
        write_u32_field(&mut buf, KEY_REQUEST_GAME_ID, self.game_id);
        write_bool_field(&mut buf, KEY_REQUEST_SPECTATE, self.spectate);
        assert(buf@ =~= connect_request_bytes(*self));
        buf
    }

    /// The request that `buf` holds, from its first byte to its last.
    pub fn decode(buf: &[u8]) -> (r: Result<C2sConnectRequest, Malformed>)
        ensures
            match r {
                Ok(m) => buf@ == connect_request_bytes(m),
                Err(_) => forall|m: C2sConnectRequest| #[trigger] connect_request_bytes(m) != buf@,
            },
    {
        let ghost s = buf@;
        let (game_id, n1) = match read_u32_field(buf, KEY_REQUEST_GAME_ID) {
            Some(found) => found,
            None => {
                proof {
                    assert forall|m: C2sConnectRequest| #[trigger]
                        connect_request_bytes(m) != s by {
                        lemma_front_of_concat(
                            u32_field(KEY_REQUEST_GAME_ID, m.game_id),
                            bool_field(KEY_REQUEST_SPECTATE, m.spectate),
                        );
                    }
                }
                return Err(Malformed);
            },
        };
        let rest = slice_subrange(buf, n1, buf.len());
        proof {
            assert(s =~= u32_field(KEY_REQUEST_GAME_ID, game_id) + rest@);
            assert forall|m: C2sConnectRequest| connect_request_bytes(m) == s implies m.game_id
                == game_id && bool_field(KEY_REQUEST_SPECTATE, m.spectate) == rest@ by {
                lemma_front_of_concat(
                    u32_field(KEY_REQUEST_GAME_ID, m.game_id),
                    bool_field(KEY_REQUEST_SPECTATE, m.spectate),
                );
                lemma_u32_field_unique(KEY_REQUEST_GAME_ID, m.game_id, game_id, s);
            }
        }
        match read_bool_field(rest, KEY_REQUEST_SPECTATE) {
            Some((spectate, n2)) => {
                if n2 != rest.len() {
                    proof {
                        assert forall|m: C2sConnectRequest| #[trigger]
                            connect_request_bytes(m) != s by {
                            if connect_request_bytes(m) == s {
                                assert(bool_field(KEY_REQUEST_SPECTATE, m.spectate).len() == 2);
                                assert(rest@.take(n2 as int).len() == n2);
                            }
                        }
                    }
                    return Err(Malformed);
                }
                let m = C2sConnectRequest { game_id, spectate };
                assert(rest@.take(n2 as int) =~= rest@);
                assert(s =~= connect_request_bytes(m));
                Ok(m)
            },
            None => {
                proof {
                    assert forall|m: C2sConnectRequest| #[trigger]
                        connect_request_bytes(m) != s by {
                        if connect_request_bytes(m) == s {
                            let field = bool_field(KEY_REQUEST_SPECTATE, m.spectate);
                            assert(field.is_prefix_of(field));
                        }
                    }
                }
                Err(Malformed)
            },
        }
    }
}

/// One message from the guest: nothing at all, a move, or a request to
/// connect.
#[derive(Clone, Copy, Debug, PartialEq, Eq)]
pub enum C2sMessage {
    Empty,
    Move(Move),
    ConnectRequest(C2sConnectRequest),
}

/// The bytes of a message from the guest: none for the empty message, else the
/// one field that holds what the message carries.
pub open spec fn c2s_bytes(m: C2sMessage) -> Seq<u8> {
    match m {
        C2sMessage::Empty => Seq::empty(),
        C2sMessage::Move(mv) => len_field(KEY_MSG_MOVE, move_bytes(mv)),
        C2sMessage::ConnectRequest(r) => len_field(
            KEY_MSG_CONNECT_REQUEST,
            connect_request_bytes(r),
        ),
    }
}

/// The message from the guest that a sequence of bytes stands for, if it
/// stands for one.
pub open spec fn c2s_decoding(bytes: Seq<u8>) -> Option<C2sMessage> {
    if exists|m: C2sMessage| m.valid() && #[trigger] c2s_bytes(m) == bytes {
        Some(choose|m: C2sMessage| m.valid() && #[trigger] c2s_bytes(m) == bytes)
    } else {
        None
    }
}

/// Different messages from the guest have different bytes.
pub proof fn lemma_c2s_bytes_injective(a: C2sMessage, b: C2sMessage)
    requires
        c2s_bytes(a) == c2s_bytes(b),
    ensures
        a == b,
{
    let s = c2s_bytes(a);
    assert(s.is_prefix_of(s));
    match (a, b) {
        (C2sMessage::Empty, C2sMessage::Empty) => {},
        (C2sMessage::Move(x), C2sMessage::Move(y)) => {
            lemma_len_field_unique(KEY_MSG_MOVE, move_bytes(x), move_bytes(y), s);
            lemma_move_bytes_injective(x, y);
        },
        (C2sMessage::ConnectRequest(x), C2sMessage::ConnectRequest(y)) => {
            lemma_len_field_unique(
                KEY_MSG_CONNECT_REQUEST,
                connect_request_bytes(x),
                connect_request_bytes(y),
                s,
            );
            lemma_connect_request_bytes_injective(x, y);
        },
        _ => {
            lemma_c2s_bytes_head(a);
            lemma_c2s_bytes_head(b);
        },
    }
}

/// The bytes of a message from the guest start with the key of what it
/// carries; only the empty message has no bytes.
pub proof fn lemma_c2s_bytes_head(m: C2sMessage)
    ensures
        match m {
            C2sMessage::Empty => c2s_bytes(m).len() == 0,
            C2sMessage::Move(_) => c2s_bytes(m).len() >= 2 && c2s_bytes(m)[0] == KEY_MSG_MOVE,
            C2sMessage::ConnectRequest(_) => c2s_bytes(m).len() >= 2 && c2s_bytes(m)[0]
                == KEY_MSG_CONNECT_REQUEST,
        },
{
    match m {
        C2sMessage::Empty => {},
        C2sMessage::Move(mv) => {
            lemma_len_field_head(KEY_MSG_MOVE, move_bytes(mv));
        },
        C2sMessage::ConnectRequest(r) => {
            lemma_len_field_head(KEY_MSG_CONNECT_REQUEST, connect_request_bytes(r));
        },
    }
}

/// Decoding the bytes of a message from the guest gives the message back.
pub proof fn lemma_c2s_round_trip(m: C2sMessage)
    requires
        m.valid(),
    ensures
        c2s_decoding(c2s_bytes(m)) == Some(m),
{
    let bytes = c2s_bytes(m);
    let found = choose|x: C2sMessage| x.valid() && #[trigger] c2s_bytes(x) == bytes;
    lemma_c2s_bytes_injective(found, m);
}

impl C2sMessage {
    /// A move it carries has both squares on the board.
    pub open spec fn valid(self) -> bool {
        self matches C2sMessage::Move(mv) ==> mv.valid()
    }

    /// The bytes of the message.
    pub fn encode(&self) -> (r: Vec<u8>)
        ensures
            r@ == c2s_bytes(*self),
    {
        let mut buf: Vec<u8> = Vec::new();
        match self {
            C2sMessage::Empty => {},
            C2sMessage::Move(mv) => {
                let inner = mv.encode();
                write_len_field(&mut buf, KEY_MSG_MOVE, inner.as_slice());
            },
            C2sMessage::ConnectRequest(request) => {
                let inner = request.encode();
                write_len_field(&mut buf, KEY_MSG_CONNECT_REQUEST, inner.as_slice());
            },
        }
        assert(buf@ =~= c2s_bytes(*self));
        buf
    }

    /// The message that `buf` holds, from its first byte to its last. An
    /// empty `buf` is the empty message.
    pub fn decode(buf: &[u8]) -> (r: Result<C2sMessage, Malformed>)
        ensures
            match r {
                Ok(m) => m.valid() && buf@ == c2s_bytes(m),
                Err(_) => forall|m: C2sMessage| m.valid() ==> #[trigger] c2s_bytes(m) != buf@,
            },
            r.ok() == c2s_decoding(buf@),
    {
        let r = C2sMessage::decode_field(buf);
        proof {
            match r {
                Ok(m) => {
                    let found = choose|x: C2sMessage| x.valid() && #[trigger] c2s_bytes(x) == buf@;
                    lemma_c2s_bytes_injective(found, m);
                },
                Err(_) => {},
            }
        }
        r
    }

    fn decode_field(buf: &[u8]) -> (r: Result<C2sMessage, Malformed>)
        ensures
            match r {
                Ok(m) => m.valid() && buf@ == c2s_bytes(m),
                Err(_) => forall|m: C2sMessage| m.valid() ==> #[trigger] c2s_bytes(m) != buf@,
            },
    {
        let ghost s = buf@;
        if buf.len() == 0 {
            assert(s =~= c2s_bytes(C2sMessage::Empty));
            return Ok(C2sMessage::Empty);
        }
        let key = buf[0];
        if key != KEY_MSG_MOVE && key != KEY_MSG_CONNECT_REQUEST {
            proof {
                assert forall|m: C2sMessage| m.valid() implies #[trigger] c2s_bytes(m) != s by {
                    if c2s_bytes(m) == s {
                        lemma_c2s_bytes_head(m);
                    }
                }
            }
            return Err(Malformed);
        }
        let (start, end) = match read_len_field(buf, key) {
            Some(found) => found,
            None => {
                proof {
                    assert forall|m: C2sMessage| m.valid() implies #[trigger] c2s_bytes(m)
                        != s by {
                        if c2s_bytes(m) == s {
                            lemma_c2s_bytes_head(m);
                            assert(s.is_prefix_of(s));
                        }
                    }
                }
                return Err(Malformed);
            },
        };
        let inner = slice_subrange(buf, start, end);
        proof {
            assert forall|m: C2sMessage| c2s_bytes(m) == s implies end == s.len() && match m {
                C2sMessage::Empty => false,
                C2sMessage::Move(mv) => key == KEY_MSG_MOVE && move_bytes(mv) == inner@,
                C2sMessage::ConnectRequest(request) => key == KEY_MSG_CONNECT_REQUEST
                    && connect_request_bytes(request) == inner@,
            } by {
                lemma_c2s_bytes_head(m);
                assert(s.is_prefix_of(s));
                match m {
                    C2sMessage::Empty => {},
                    C2sMessage::Move(mv) => {
                        lemma_len_field_unique(key, move_bytes(mv), inner@, s);
                    },
                    C2sMessage::ConnectRequest(request) => {
                        lemma_len_field_unique(key, connect_request_bytes(request), inner@, s);
                    },
                }
            }
        }
        if end != buf.len() {
            return Err(Malformed);
        }
        assert(s.take(end as int) =~= s);
        if key == KEY_MSG_MOVE {
            match Move::decode(inner) {
                Ok(mv) => Ok(C2sMessage::Move(mv)),
                Err(_) => Err(Malformed),
            }
        } else {
            match C2sConnectRequest::decode(inner) {
                Ok(request) => Ok(C2sMessage::ConnectRequest(request)),
                Err(_) => Err(Malformed),
            }
        }
    }
}

} // verus!
