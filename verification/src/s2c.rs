//! What the host sends to a guest: its answer to a request to connect, its
//! verdict on a move, or a move of its own.
use crate::message::{
    lemma_front_of_concat, lemma_move_bytes_injective, move_bytes, Malformed, Move, KEY_MSG_MOVE,
};
use crate::wire::{
    bool_field, lemma_bool_field_unique, lemma_len_field_head, lemma_len_field_unique,
    lemma_opt_bool_front, lemma_opt_u32_front, lemma_text_field_unique, lemma_u32_field_unique,
    len_field, opt_bool_field, opt_text_field, opt_u32_field, read_bool_field, read_len_field,
    read_text_field, read_u32_field, starts_with_key, text_field, write_bool_field,
    write_len_field, write_text_field, write_u32_field,
};
use vstd::prelude::*;
use vstd::slice::slice_subrange;

verus! {

/// Key of `BoardState::fen_string`.
pub const KEY_BOARD_FEN: u8 = 0x0a;

/// Key of `S2cConnectAck::success`.
pub const KEY_ACK_SUCCESS: u8 = 0x08;

/// Key of `S2cConnectAck::client_is_white`.
pub const KEY_ACK_CLIENT_IS_WHITE: u8 = 0x10;

/// Key of `S2cConnectAck::game_id`.
pub const KEY_ACK_GAME_ID: u8 = 0x18;

/// Key of `S2cConnectAck::starting_position`.
pub const KEY_ACK_STARTING_POSITION: u8 = 0x22;

/// Key of `S2cMoveAck::legal`.
pub const KEY_VERDICT_LEGAL: u8 = 0x08;

/// Key of `S2cMoveAck::board_result`.
pub const KEY_VERDICT_BOARD_RESULT: u8 = 0x12;

/// Key under which an `S2cConnectAck` travels inside a message.
pub const KEY_MSG_CONNECT_ACK: u8 = 0x12;

/// Key under which an `S2cMoveAck` travels inside a message.
pub const KEY_MSG_MOVE_ACK: u8 = 0x1a;

/// A position of the board, as text in Forsyth-Edwards notation. The text is
/// carried, never read: what it means is the rule engine's business.
#[derive(Clone, Debug, PartialEq, Eq)]
pub struct BoardState {
    pub fen_string: String,
}

impl View for BoardState {
    type V = Seq<char>;

    open spec fn view(&self) -> Seq<char> {
        self.fen_string@
    }
}

/// The bytes of a position with the text `fen`.
pub open spec fn board_state_bytes(fen: Seq<char>) -> Seq<u8> {
    text_field(KEY_BOARD_FEN, fen)
}

/// Different positions have different bytes.
pub proof fn lemma_board_state_bytes_injective(a: Seq<char>, b: Seq<char>)
    requires
        board_state_bytes(a) == board_state_bytes(b),
    ensures
        a == b,
{
    let s = board_state_bytes(a);
    assert(s.is_prefix_of(s));
    lemma_text_field_unique(KEY_BOARD_FEN, a, b, s);
}

impl BoardState {
    /// The bytes of the position.
    pub fn encode(&self) -> (r: Vec<u8>)
        ensures
            r@ == board_state_bytes(self@),
    {
        let mut buf: Vec<u8> = Vec::new();
        write_text_field(&mut buf, KEY_BOARD_FEN, self.fen_string.as_str());
        assert(buf@ =~= board_state_bytes(self@));
        buf
    }

    /// The position that `buf` holds, from its first byte to its last.
    pub fn decode(buf: &[u8]) -> (r: Result<BoardState, Malformed>)
        ensures
            match r {
                Ok(m) => buf@ == board_state_bytes(m@),
                Err(_) => forall|fen: Seq<char>| #[trigger] board_state_bytes(fen) != buf@,
            },
    {
        let len = buf.len();
        let ghost s = buf@;
        match read_text_field(buf, KEY_BOARD_FEN) {
            Some((fen_string, used)) => {
                if used != len {
                    proof {
                        assert forall|fen: Seq<char>| #[trigger] board_state_bytes(fen) != s by {
                            if board_state_bytes(fen) == s {
                                assert(s.is_prefix_of(s));
                                assert(s.take(used as int).is_prefix_of(s));
                                lemma_text_field_unique(KEY_BOARD_FEN, fen, fen_string@, s);
                            }
                        }
                    }
                    return Err(Malformed);
                }
                assert(s.take(used as int) =~= s);
                Ok(BoardState { fen_string })
            },
            None => {
                proof {
                    assert forall|fen: Seq<char>| #[trigger] board_state_bytes(fen) != s by {
                        if board_state_bytes(fen) == s {
                            assert(s.is_prefix_of(s));
                        }
                    }
                }
                Err(Malformed)
            },
        }
    }
}

/// The host's answer to a request to connect.
#[derive(Clone, Debug, PartialEq, Eq)]
pub struct S2cConnectAck {
    pub success: bool,
    pub client_is_white: Option<bool>,
    pub game_id: Option<u32>,
    pub starting_position: Option<BoardState>,
}

/// What an `S2cConnectAck` holds, with the position as plain text.
pub struct ConnectAckView {
    pub success: bool,
    pub client_is_white: Option<bool>,
    pub game_id: Option<u32>,
    pub starting_position: Option<Seq<char>>,
}

impl View for S2cConnectAck {
    type V = ConnectAckView;

    open spec fn view(&self) -> ConnectAckView {
        ConnectAckView {
            success: self.success,
            client_is_white: self.client_is_white,
            game_id: self.game_id,
            starting_position: match self.starting_position {
                Some(p) => Some(p@),
                None => None,
            },
        }
    }
}

/// The text of an optional position.
pub open spec fn position_text(position: Option<BoardState>) -> Option<Seq<char>> {
    match position {
        Some(p) => Some(p@),
        None => None,
    }
}

/// The field of an optional starting position: its bytes as a run, or nothing.
pub open spec fn position_field(position: Option<Seq<char>>) -> Seq<u8> {
    match position {
        Some(fen) => len_field(KEY_ACK_STARTING_POSITION, board_state_bytes(fen)),
        None => Seq::empty(),
    }
}

/// The last two fields of an answer.
pub open spec fn ack_from_game_id(game_id: Option<u32>, position: Option<Seq<char>>) -> Seq<u8> {
    opt_u32_field(KEY_ACK_GAME_ID, game_id) + position_field(position)
}

/// The last three fields of an answer.
pub open spec fn ack_from_colour(
    client_is_white: Option<bool>,
    game_id: Option<u32>,
    position: Option<Seq<char>>,
) -> Seq<u8> {
    opt_bool_field(KEY_ACK_CLIENT_IS_WHITE, client_is_white) + ack_from_game_id(game_id, position)
}

/// The bytes of an answer to a request to connect: whether it succeeded, then
/// those of the guest's colour, the game's number and the starting position
/// that are there.
pub open spec fn connect_ack_bytes(a: ConnectAckView) -> Seq<u8> {
    bool_field(KEY_ACK_SUCCESS, a.success) + ack_from_colour(
        a.client_is_white,
        a.game_id,
        a.starting_position,
    )
}

/// The field of a starting position has bytes exactly if the position is
/// there, and begins with its own key.
pub proof fn lemma_position_field_shape(position: Option<Seq<char>>)
    ensures
        position is Some <==> position_field(position).len() > 0,
        !starts_with_key(position_field(position), KEY_ACK_GAME_ID),
        !starts_with_key(position_field(position), KEY_ACK_CLIENT_IS_WHITE),
{
    match position {
        Some(fen) => {
            lemma_len_field_head(KEY_ACK_STARTING_POSITION, board_state_bytes(fen));
        },
        None => {},
    }
}

/// The last two fields of an answer do not begin with the key of the guest's
/// colour.
pub proof fn lemma_ack_from_game_id_shape(game_id: Option<u32>, position: Option<Seq<char>>)
    ensures
        !starts_with_key(ack_from_game_id(game_id, position), KEY_ACK_CLIENT_IS_WHITE),
{
    lemma_position_field_shape(position);
    if game_id is None {
        assert(ack_from_game_id(game_id, position) =~= position_field(position));
    }
}

/// Different optional positions have different fields.
pub proof fn lemma_position_field_injective(a: Option<Seq<char>>, b: Option<Seq<char>>)
    requires
        position_field(a) == position_field(b),
    ensures
        a == b,
{
    lemma_position_field_shape(a);
    lemma_position_field_shape(b);
    let s = position_field(a);
    if a is Some {
        assert(s.is_prefix_of(s));
        lemma_len_field_unique(
            KEY_ACK_STARTING_POSITION,
            board_state_bytes(a.unwrap()),
            board_state_bytes(b.unwrap()),
            s,
        );
        lemma_board_state_bytes_injective(a.unwrap(), b.unwrap());
    }
}

/// The last two fields of an answer tell the game's number and the position.
pub proof fn lemma_ack_from_game_id_injective(
    ga: Option<u32>,
    pa: Option<Seq<char>>,
    gb: Option<u32>,
    pb: Option<Seq<char>>,
)
    requires
        ack_from_game_id(ga, pa) == ack_from_game_id(gb, pb),
    ensures
        ga == gb,
        pa == pb,
{
    let s = ack_from_game_id(ga, pa);
    lemma_position_field_shape(pa);
    lemma_position_field_shape(pb);
    lemma_opt_u32_front(KEY_ACK_GAME_ID, ga, position_field(pa));
    lemma_opt_u32_front(KEY_ACK_GAME_ID, gb, position_field(pb));
    if ga is Some {
        lemma_u32_field_unique(KEY_ACK_GAME_ID, ga.unwrap(), gb.unwrap(), s);
    }
    lemma_position_field_injective(pa, pb);
}

/// The last three fields of an answer tell the guest's colour, the game's
/// number and the position.
pub proof fn lemma_ack_from_colour_injective(
    wa: Option<bool>,
    ga: Option<u32>,
    pa: Option<Seq<char>>,
    wb: Option<bool>,
    gb: Option<u32>,
    pb: Option<Seq<char>>,
)
    requires
        ack_from_colour(wa, ga, pa) == ack_from_colour(wb, gb, pb),
    ensures
        wa == wb,
        ga == gb,
        pa == pb,
{
    let s = ack_from_colour(wa, ga, pa);
    lemma_ack_from_game_id_shape(ga, pa);
    lemma_ack_from_game_id_shape(gb, pb);
    lemma_opt_bool_front(KEY_ACK_CLIENT_IS_WHITE, wa, ack_from_game_id(ga, pa));
    lemma_opt_bool_front(KEY_ACK_CLIENT_IS_WHITE, wb, ack_from_game_id(gb, pb));
    if wa is Some {
        lemma_bool_field_unique(KEY_ACK_CLIENT_IS_WHITE, wa.unwrap(), wb.unwrap(), s);
    }
    lemma_ack_from_game_id_injective(ga, pa, gb, pb);
}

/// Different answers have different bytes.
pub proof fn lemma_connect_ack_bytes_injective(a: ConnectAckView, b: ConnectAckView)
    requires
        connect_ack_bytes(a) == connect_ack_bytes(b),
    ensures
        a == b,
{
    let s = connect_ack_bytes(a);
    let ta = ack_from_colour(a.client_is_white, a.game_id, a.starting_position);
    let tb = ack_from_colour(b.client_is_white, b.game_id, b.starting_position);
    lemma_front_of_concat(bool_field(KEY_ACK_SUCCESS, a.success), ta);
    lemma_front_of_concat(bool_field(KEY_ACK_SUCCESS, b.success), tb);
    lemma_bool_field_unique(KEY_ACK_SUCCESS, a.success, b.success, s);
    lemma_ack_from_colour_injective(
        a.client_is_white,
        a.game_id,
        a.starting_position,
        b.client_is_white,
        b.game_id,
        b.starting_position,
    );
}

/// Reads an optional starting position that fills `buf`.
fn decode_position(buf: &[u8]) -> (r: Result<Option<BoardState>, Malformed>)
    ensures
        match r {
            Ok(p) => buf@ == position_field(position_text(p)),
            Err(_) => forall|t: Option<Seq<char>>| #[trigger] position_field(t) != buf@,
        },
{
    let len = buf.len();
    let ghost s = buf@;
    if len == 0 {
        assert(s =~= position_field(None));
        return Ok(None);
    }
    let (start, end) = match read_len_field(buf, KEY_ACK_STARTING_POSITION) {
        Some(found) => found,
        None => {
            proof {
                assert forall|t: Option<Seq<char>>| #[trigger] position_field(t) != s by {
                    if position_field(t) == s {
                        lemma_position_field_shape(t);
                        assert(s.is_prefix_of(s));
                    }
                }
            }
            return Err(Malformed);
        },
    };
    let inner = slice_subrange(buf, start, end);
    proof {
        assert forall|t: Option<Seq<char>>| position_field(t) == s implies end == len && t is Some
            && board_state_bytes(t.unwrap()) == inner@ by {
            lemma_position_field_shape(t);
            assert(s.is_prefix_of(s));
            assert(s.take(end as int).is_prefix_of(s));
            lemma_len_field_unique(
                KEY_ACK_STARTING_POSITION,
                board_state_bytes(t.unwrap()),
                inner@,
                s,
            );
        }
    }
    if end != len {
        return Err(Malformed);
    }
    assert(s.take(end as int) =~= s);
    match BoardState::decode(inner) {
        Ok(position) => Ok(Some(position)),
        Err(_) => Err(Malformed),
    }
}

/// Reads the last two fields of an answer, which fill `buf`.
fn decode_from_game_id(buf: &[u8]) -> (r: Result<(Option<u32>, Option<BoardState>), Malformed>)
    ensures
        match r {
            Ok((g, p)) => buf@ == ack_from_game_id(g, position_text(p)),
            Err(_) => forall|g: Option<u32>, t: Option<Seq<char>>| #[trigger]
                ack_from_game_id(g, t) != buf@,
        },
{
    let len = buf.len();
    let ghost s = buf@;
    let (game_id, used) = if len > 0 && buf[0] == KEY_ACK_GAME_ID {
        match read_u32_field(buf, KEY_ACK_GAME_ID) {
            Some((id, used)) => (Some(id), used),
            None => {
                proof {
                    assert forall|g: Option<u32>, t: Option<Seq<char>>| #[trigger]
                        ack_from_game_id(g, t) != s by {
                        lemma_position_field_shape(t);
                        lemma_opt_u32_front(KEY_ACK_GAME_ID, g, position_field(t));
                    }
                }
                return Err(Malformed);
            },
        }
    } else {
        (None, 0)
    };
    let rest = slice_subrange(buf, used, len);
    proof {
        assert(s =~= opt_u32_field(KEY_ACK_GAME_ID, game_id) + rest@);
        assert forall|g: Option<u32>, t: Option<Seq<char>>| #[trigger]
            ack_from_game_id(g, t) == s implies g == game_id && position_field(t) == rest@ by {
            lemma_position_field_shape(t);
            lemma_opt_u32_front(KEY_ACK_GAME_ID, g, position_field(t));
            if g is Some {
                lemma_u32_field_unique(KEY_ACK_GAME_ID, g.unwrap(), game_id.unwrap(), s);
            }
        }
    }
    match decode_position(rest) {
        Ok(position) => Ok((game_id, position)),
        Err(_) => Err(Malformed),
    }
}

/// Reads the last three fields of an answer, which fill `buf`.
fn decode_from_colour(buf: &[u8]) -> (r: Result<
    (Option<bool>, Option<u32>, Option<BoardState>),
    Malformed,
>)
    ensures
        match r {
            Ok((w, g, p)) => buf@ == ack_from_colour(w, g, position_text(p)),
            Err(_) => forall|w: Option<bool>, g: Option<u32>, t: Option<Seq<char>>| #[trigger]
                ack_from_colour(w, g, t) != buf@,
        },
{
    let len = buf.len();
    let ghost s = buf@;
    let (client_is_white, used) = if len > 0 && buf[0] == KEY_ACK_CLIENT_IS_WHITE {
        match read_bool_field(buf, KEY_ACK_CLIENT_IS_WHITE) {
            Some((white, used)) => (Some(white), used),
            None => {
                proof {
                    assert forall|w: Option<bool>, g: Option<u32>, t: Option<Seq<char>>|
                        #[trigger] ack_from_colour(w, g, t) != s by {
                        lemma_ack_from_game_id_shape(g, t);
                        lemma_opt_bool_front(KEY_ACK_CLIENT_IS_WHITE, w, ack_from_game_id(g, t));
                    }
                }
                return Err(Malformed);
            },
        }
    } else {
        (None, 0)
    };
    let rest = slice_subrange(buf, used, len);
    proof {
        assert(s =~= opt_bool_field(KEY_ACK_CLIENT_IS_WHITE, client_is_white) + rest@);
        assert forall|w: Option<bool>, g: Option<u32>, t: Option<Seq<char>>| #[trigger]
            ack_from_colour(w, g, t) == s implies w == client_is_white && ack_from_game_id(g, t)
            == rest@ by {
            lemma_ack_from_game_id_shape(g, t);
            lemma_opt_bool_front(KEY_ACK_CLIENT_IS_WHITE, w, ack_from_game_id(g, t));
            if w is Some {
                lemma_bool_field_unique(
                    KEY_ACK_CLIENT_IS_WHITE,
                    w.unwrap(),
                    client_is_white.unwrap(),
                    s,
                );
            }
        }
    }
    match decode_from_game_id(rest) {
        Ok((game_id, position)) => Ok((client_is_white, game_id, position)),
        Err(_) => Err(Malformed),
    }
}

impl S2cConnectAck {
    /// The bytes of the answer.
    pub fn encode(&self) -> (r: Vec<u8>)
        ensures
            r@ == connect_ack_bytes(self@),
    {
        let mut buf: Vec<u8> = Vec::new();
        write_bool_field(&mut buf, KEY_ACK_SUCCESS, self.success);
        match self.client_is_white {
            Some(white) => {
                write_bool_field(&mut buf, KEY_ACK_CLIENT_IS_WHITE, white);
            },
            None => {},
        }
        match self.game_id {
            Some(id) => {
                write_u32_field(&mut buf, KEY_ACK_GAME_ID, id);
            },
            None => {},
        }
        match &self.starting_position {
            Some(position) => {
                let inner = position.encode();
                write_len_field(&mut buf, KEY_ACK_STARTING_POSITION, inner.as_slice());
            },
            None => {},
        }
        assert(buf@ =~= connect_ack_bytes(self@));
        buf
    }

    /// The answer that `buf` holds, from its first byte to its last.
    pub fn decode(buf: &[u8]) -> (r: Result<S2cConnectAck, Malformed>)
        ensures
            match r {
                Ok(m) => buf@ == connect_ack_bytes(m@),
                Err(_) => forall|a: ConnectAckView| #[trigger] connect_ack_bytes(a) != buf@,
            },
    {
        let len = buf.len();
        let ghost s = buf@;
        let (success, used) = match read_bool_field(buf, KEY_ACK_SUCCESS) {
            Some(found) => found,
            None => {
                proof {
                    assert forall|a: ConnectAckView| #[trigger] connect_ack_bytes(a) != s by {
                        lemma_front_of_concat(
                            bool_field(KEY_ACK_SUCCESS, a.success),
                            ack_from_colour(a.client_is_white, a.game_id, a.starting_position),
                        );
                    }
                }
                return Err(Malformed);
            },
        };
        let rest = slice_subrange(buf, used, len);
        proof {
            assert(s =~= bool_field(KEY_ACK_SUCCESS, success) + rest@);
            assert forall|a: ConnectAckView| connect_ack_bytes(a) == s implies a.success
                == success && ack_from_colour(a.client_is_white, a.game_id, a.starting_position)
                == rest@ by {
                lemma_front_of_concat(
                    bool_field(KEY_ACK_SUCCESS, a.success),
                    ack_from_colour(a.client_is_white, a.game_id, a.starting_position),
                );
                lemma_bool_field_unique(KEY_ACK_SUCCESS, a.success, success, s);
            }
        }
        match decode_from_colour(rest) {
            Ok((client_is_white, game_id, starting_position)) => {
                let m = S2cConnectAck { success, client_is_white, game_id, starting_position };
                assert(m@.starting_position == position_text(starting_position));
                Ok(m)
            },
            Err(_) => Err(Malformed),
        }
    }
}

/// The host's verdict on a move the guest asked for.
#[derive(Clone, Debug, PartialEq, Eq)]
pub struct S2cMoveAck {
    pub legal: bool,
    pub board_result: Option<String>,
}

/// What an `S2cMoveAck` holds, with the board as plain text.
pub struct MoveAckView {
    pub legal: bool,
    pub board_result: Option<Seq<char>>,
}

impl View for S2cMoveAck {
    type V = MoveAckView;

    open spec fn view(&self) -> MoveAckView {
        MoveAckView {
            legal: self.legal,
            board_result: match self.board_result {
                Some(text) => Some(text@),
                None => None,
            },
        }
    }
}

/// A verdict's bytes say whether the move was legal, then give the board
/// after it where there is one.
pub open spec fn move_ack_bytes(a: MoveAckView) -> Seq<u8> {
    bool_field(KEY_VERDICT_LEGAL, a.legal) + opt_text_field(
        KEY_VERDICT_BOARD_RESULT,
        a.board_result,
    )
}

/// Different verdicts have different bytes.
pub proof fn lemma_move_ack_bytes_injective(a: MoveAckView, b: MoveAckView)
    requires
        move_ack_bytes(a) == move_ack_bytes(b),
    ensures
        a == b,
{
    let s = move_ack_bytes(a);
    let ta = opt_text_field(KEY_VERDICT_BOARD_RESULT, a.board_result);
    let tb = opt_text_field(KEY_VERDICT_BOARD_RESULT, b.board_result);
    lemma_front_of_concat(bool_field(KEY_VERDICT_LEGAL, a.legal), ta);
    lemma_front_of_concat(bool_field(KEY_VERDICT_LEGAL, b.legal), tb);
    lemma_bool_field_unique(KEY_VERDICT_LEGAL, a.legal, b.legal, s);
    lemma_board_result_shape(a.board_result);
    lemma_board_result_shape(b.board_result);
    if a.board_result is Some {
        assert(ta.is_prefix_of(ta));
        lemma_text_field_unique(
            KEY_VERDICT_BOARD_RESULT,
            a.board_result.unwrap(),
            b.board_result.unwrap(),
            ta,
        );
    }
}

/// The field of a board result has bytes exactly if the result is there.
pub proof fn lemma_board_result_shape(text: Option<Seq<char>>)
    ensures
        text is Some <==> opt_text_field(KEY_VERDICT_BOARD_RESULT, text).len() > 0,
{
    match text {
        Some(t) => {
            lemma_len_field_head(KEY_VERDICT_BOARD_RESULT, vstd::utf8::encode_utf8(t));
        },
        None => {},
    }
}

impl S2cMoveAck {
    /// The bytes of the verdict.
    pub fn encode(&self) -> (r: Vec<u8>)
        ensures
            r@ == move_ack_bytes(self@),
    {
        let mut buf: Vec<u8> = Vec::new();
        write_bool_field(&mut buf, KEY_VERDICT_LEGAL, self.legal);
        match &self.board_result {
            Some(text) => {
                write_text_field(&mut buf, KEY_VERDICT_BOARD_RESULT, text.as_str());
            },
            None => {},
        }
        assert(buf@ =~= move_ack_bytes(self@));
        buf
    }

    /// The verdict that `buf` holds, from its first byte to its last.
    pub fn decode(buf: &[u8]) -> (r: Result<S2cMoveAck, Malformed>)
        ensures
            match r {
                Ok(m) => buf@ == move_ack_bytes(m@),
                Err(_) => forall|a: MoveAckView| #[trigger] move_ack_bytes(a) != buf@,
            },
    {
        let len = buf.len();
        let ghost s = buf@;
        let (legal, n0) = match read_bool_field(buf, KEY_VERDICT_LEGAL) {
            Some(found) => found,
            None => {
                proof {
                    assert forall|a: MoveAckView| #[trigger] move_ack_bytes(a) != s by {
                        lemma_front_of_concat(
                            bool_field(KEY_VERDICT_LEGAL, a.legal),
                            opt_text_field(KEY_VERDICT_BOARD_RESULT, a.board_result),
                        );
                    }
                }
                return Err(Malformed);
            },
        };
        let rest = slice_subrange(buf, n0, len);
        proof {
            assert(s =~= bool_field(KEY_VERDICT_LEGAL, legal) + rest@);
            assert forall|a: MoveAckView| move_ack_bytes(a) == s implies a.legal == legal
                && opt_text_field(KEY_VERDICT_BOARD_RESULT, a.board_result) == rest@ by {
                lemma_front_of_concat(
                    bool_field(KEY_VERDICT_LEGAL, a.legal),
                    opt_text_field(KEY_VERDICT_BOARD_RESULT, a.board_result),
                );
                lemma_bool_field_unique(KEY_VERDICT_LEGAL, a.legal, legal, s);
            }
        }
        let rest_len = rest.len();
        let board_result = if rest_len == 0 {
            proof {
                assert forall|a: MoveAckView| move_ack_bytes(a)
                    == s implies a.board_result is None by {
                    lemma_board_result_shape(a.board_result);
                }
            }
            None
        } else {
            match read_text_field(rest, KEY_VERDICT_BOARD_RESULT) {
                Some((text, used)) => {
                    proof {
                        assert forall|a: MoveAckView| move_ack_bytes(a) == s implies used
                            == rest_len by {
                            lemma_board_result_shape(a.board_result);
                            assert(rest@.is_prefix_of(rest@));
                            assert(rest@.take(used as int).is_prefix_of(rest@));
                            lemma_text_field_unique(
                                KEY_VERDICT_BOARD_RESULT,
                                a.board_result.unwrap(),
                                text@,
                                rest@,
                            );
                        }
                    }
                    if used != rest_len {
                        return Err(Malformed);
                    }
                    assert(rest@.take(used as int) =~= rest@);
                    Some(text)
                },
                None => {
                    proof {
                        assert forall|a: MoveAckView| #[trigger] move_ack_bytes(a) != s by {
                            if move_ack_bytes(a) == s {
                                lemma_board_result_shape(a.board_result);
                                assert(rest@.is_prefix_of(rest@));
                            }
                        }
                    }
                    return Err(Malformed);
                },
            }
        };
        let m = S2cMoveAck { legal, board_result };
        assert(s =~= move_ack_bytes(m@));
        Ok(m)
    }
}

/// One message from the host: nothing at all, a move, an answer to a request
/// to connect, or a verdict on a move.
#[derive(Clone, Debug, PartialEq, Eq)]
pub enum S2cMessage {
    Empty,
    Move(Move),
    ConnectAck(S2cConnectAck),
    MoveAck(S2cMoveAck),
}

/// What an `S2cMessage` holds, with every text as plain text.
pub enum S2cView {
    Empty,
    Move(Move),
    ConnectAck(ConnectAckView),
    MoveAck(MoveAckView),
}

impl View for S2cMessage {
    type V = S2cView;

    open spec fn view(&self) -> S2cView {
        match self {
            S2cMessage::Empty => S2cView::Empty,
            S2cMessage::Move(mv) => S2cView::Move(*mv),
            S2cMessage::ConnectAck(ack) => S2cView::ConnectAck(ack@),
            S2cMessage::MoveAck(ack) => S2cView::MoveAck(ack@),
        }
    }
}

impl S2cView {
    /// A move it carries has both squares on the board.
    pub open spec fn valid(self) -> bool {
        self matches S2cView::Move(mv) ==> mv.valid()
    }
}

/// The bytes of a message from the host: none for the empty message, else the
/// one field that holds what the message carries.
pub open spec fn s2c_bytes(m: S2cView) -> Seq<u8> {
    match m {
        S2cView::Empty => Seq::empty(),
        S2cView::Move(mv) => len_field(KEY_MSG_MOVE, move_bytes(mv)),
        S2cView::ConnectAck(ack) => len_field(KEY_MSG_CONNECT_ACK, connect_ack_bytes(ack)),
        S2cView::MoveAck(ack) => len_field(KEY_MSG_MOVE_ACK, move_ack_bytes(ack)),
    }
}

/// The message from the host that a sequence of bytes stands for, if it stands
/// for one.
pub open spec fn s2c_decoding(bytes: Seq<u8>) -> Option<S2cView> {
    if exists|m: S2cView| m.valid() && #[trigger] s2c_bytes(m) == bytes {
        Some(choose|m: S2cView| m.valid() && #[trigger] s2c_bytes(m) == bytes)
    } else {
        None
    }
}

/// The bytes of a message from the host start with the key of what it carries;
/// only the empty message has no bytes.
pub proof fn lemma_s2c_bytes_head(m: S2cView)
    ensures
        match m {
            S2cView::Empty => s2c_bytes(m).len() == 0,
            S2cView::Move(_) => s2c_bytes(m).len() >= 2 && s2c_bytes(m)[0] == KEY_MSG_MOVE,
            S2cView::ConnectAck(_) => s2c_bytes(m).len() >= 2 && s2c_bytes(m)[0]
                == KEY_MSG_CONNECT_ACK,
            S2cView::MoveAck(_) => s2c_bytes(m).len() >= 2 && s2c_bytes(m)[0] == KEY_MSG_MOVE_ACK,
        },
{
    match m {
        S2cView::Empty => {},
        S2cView::Move(mv) => {
            lemma_len_field_head(KEY_MSG_MOVE, move_bytes(mv));
        },
        S2cView::ConnectAck(ack) => {
            lemma_len_field_head(KEY_MSG_CONNECT_ACK, connect_ack_bytes(ack));
        },
        S2cView::MoveAck(ack) => {
            lemma_len_field_head(KEY_MSG_MOVE_ACK, move_ack_bytes(ack));
        },
    }
}

/// Different messages from the host have different bytes.
pub proof fn lemma_s2c_bytes_injective(a: S2cView, b: S2cView)
    requires
        s2c_bytes(a) == s2c_bytes(b),
    ensures
        a == b,
{
    let s = s2c_bytes(a);
    assert(s.is_prefix_of(s));
    lemma_s2c_bytes_head(a);
    lemma_s2c_bytes_head(b);
    match (a, b) {
        (S2cView::Move(x), S2cView::Move(y)) => {
            lemma_len_field_unique(KEY_MSG_MOVE, move_bytes(x), move_bytes(y), s);
            lemma_move_bytes_injective(x, y);
        },
        (S2cView::ConnectAck(x), S2cView::ConnectAck(y)) => {
            lemma_len_field_unique(
                KEY_MSG_CONNECT_ACK,
                connect_ack_bytes(x),
                connect_ack_bytes(y),
                s,
            );
            lemma_connect_ack_bytes_injective(x, y);
        },
        (S2cView::MoveAck(x), S2cView::MoveAck(y)) => {
            lemma_len_field_unique(KEY_MSG_MOVE_ACK, move_ack_bytes(x), move_ack_bytes(y), s);
            lemma_move_ack_bytes_injective(x, y);
        },
        _ => {},
    }
}

/// Decoding the bytes of a message from the host gives the message back.
pub proof fn lemma_s2c_round_trip(m: S2cView)
    requires
        m.valid(),
    ensures
        s2c_decoding(s2c_bytes(m)) == Some(m),
{
    let bytes = s2c_bytes(m);
    let found = choose|x: S2cView| x.valid() && #[trigger] s2c_bytes(x) == bytes;
    lemma_s2c_bytes_injective(found, m);
}

impl S2cMessage {
    /// The bytes of the message.
    pub fn encode(&self) -> (r: Vec<u8>)
        ensures
            r@ == s2c_bytes(self@),
    {
        let mut buf: Vec<u8> = Vec::new();
        match self {
            S2cMessage::Empty => {},
            S2cMessage::Move(mv) => {
                let inner = mv.encode();
                write_len_field(&mut buf, KEY_MSG_MOVE, inner.as_slice());
            },
            S2cMessage::ConnectAck(ack) => {
                let inner = ack.encode();
                write_len_field(&mut buf, KEY_MSG_CONNECT_ACK, inner.as_slice());
            },
            S2cMessage::MoveAck(ack) => {
                let inner = ack.encode();
                write_len_field(&mut buf, KEY_MSG_MOVE_ACK, inner.as_slice());
            },
        }
        assert(buf@ =~= s2c_bytes(self@));
        buf
    }

    /// The message that `buf` holds, from its first byte to its last. An
    /// empty `buf` is the empty message.
    pub fn decode(buf: &[u8]) -> (r: Result<S2cMessage, Malformed>)
        ensures
            match r {
                Ok(m) => m@.valid() && buf@ == s2c_bytes(m@) && s2c_decoding(buf@) == Some(m@),
                Err(_) => s2c_decoding(buf@) is None && forall|m: S2cView|
                    m.valid() ==> #[trigger] s2c_bytes(m) != buf@,
            },
    {
        let r = S2cMessage::decode_field(buf);
        proof {
            if r is Ok {
                let found = choose|x: S2cView| x.valid() && #[trigger] s2c_bytes(x) == buf@;
                lemma_s2c_bytes_injective(found, r.unwrap()@);
            }
        }
        r
    }

    fn decode_field(buf: &[u8]) -> (r: Result<S2cMessage, Malformed>)
        ensures
            match r {
                Ok(m) => m@.valid() && buf@ == s2c_bytes(m@),
                Err(_) => forall|m: S2cView| m.valid() ==> #[trigger] s2c_bytes(m) != buf@,
            },
    {
        let len = buf.len();
        let ghost s = buf@;
        if len == 0 {
            assert(s =~= s2c_bytes(S2cView::Empty));
            return Ok(S2cMessage::Empty);
        }
        let key = buf[0];
        if key != KEY_MSG_MOVE && key != KEY_MSG_CONNECT_ACK && key != KEY_MSG_MOVE_ACK {
            proof {
                assert forall|m: S2cView| m.valid() implies #[trigger] s2c_bytes(m) != s by {
                    lemma_s2c_bytes_head(m);
                }
            }
            return Err(Malformed);
        }
        let (start, end) = match read_len_field(buf, key) {
            Some(found) => found,
            None => {
                proof {
                    assert forall|m: S2cView| m.valid() implies #[trigger] s2c_bytes(m) != s by {
                        lemma_s2c_bytes_head(m);
                        assert(s.is_prefix_of(s));
                    }
                }
                return Err(Malformed);
            },
        };
        let inner = slice_subrange(buf, start, end);
        proof {
            assert forall|m: S2cView| s2c_bytes(m) == s implies end == len && match m {
                S2cView::Empty => false,
                S2cView::Move(mv) => key == KEY_MSG_MOVE && move_bytes(mv) == inner@,
                S2cView::ConnectAck(ack) => key == KEY_MSG_CONNECT_ACK && connect_ack_bytes(ack)
                    == inner@,
                S2cView::MoveAck(ack) => key == KEY_MSG_MOVE_ACK && move_ack_bytes(ack) == inner@,
            } by {
                lemma_s2c_bytes_head(m);
                assert(s.is_prefix_of(s));
                match m {
                    S2cView::Empty => {},
                    S2cView::Move(mv) => {
                        lemma_len_field_unique(key, move_bytes(mv), inner@, s);
                    },
                    S2cView::ConnectAck(ack) => {
                        lemma_len_field_unique(key, connect_ack_bytes(ack), inner@, s);
                    },
                    S2cView::MoveAck(ack) => {
                        lemma_len_field_unique(key, move_ack_bytes(ack), inner@, s);
                    },
                }
            }
        }
        if end != len {
            return Err(Malformed);
        }
        assert(s.take(end as int) =~= s);
        if key == KEY_MSG_MOVE {
            match Move::decode(inner) {
                Ok(mv) => Ok(S2cMessage::Move(mv)),
                Err(_) => Err(Malformed),
            }
        } else if key == KEY_MSG_CONNECT_ACK {
            match S2cConnectAck::decode(inner) {
                Ok(ack) => Ok(S2cMessage::ConnectAck(ack)),
                Err(_) => Err(Malformed),
            }
        } else {
            match S2cMoveAck::decode(inner) {
                Ok(ack) => Ok(S2cMessage::MoveAck(ack)),
                Err(_) => Err(Malformed),
            }
        }
    }
}

} // verus!
