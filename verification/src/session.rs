//! One peer's side of a game: whose turn it is, and what each event does.
//!
//! The host is the authority. It applies its own moves at once, judges the
//! guest's moves and answers them. The guest proposes: it sends a move, holds
//! it back, and applies it only when the host has called it legal.
//!
//! The session does no input or output and knows no rules of the game. Its
//! caller reads bytes from the connection, asks the rule engine about the move
//! they carry, and hands both over; it gets back the move to apply to the
//! local board, if any, and the bytes to send, if any. A step that fails for
//! good leaves a fault in the session, and from then on every step fails with
//! that fault and changes nothing.
use crate::c2s::{c2s_bytes, c2s_decoding, C2sConnectRequest, C2sMessage};
use crate::message::Move;
use crate::s2c::{
    s2c_bytes, s2c_decoding, BoardState, ConnectAckView, MoveAckView, S2cConnectAck, S2cMessage,
    S2cMoveAck, S2cView,
};
use crate::square::{cell_at, cell_of, on_board, square_at, square_of, Move_channel};
use vstd::prelude::*;

verus! {

/// Where a session stands in the game.
#[derive(Clone, Copy, Debug, PartialEq, Eq, Structural)]
pub enum NET_STATE {
    /// The other side is to act: the local player must wait.
    WAITING,
    /// The local player may submit a move.
    MY_TURN,
    /// A guest that the host has not let in yet.
    NOT_ESTABLISHED,
}

/// Which side of the game a session is.
#[derive(Clone, Copy, Debug, PartialEq, Eq, Structural)]
pub enum NET_TYPE {
    /// The guest: proposes moves and waits for the host's verdict.
    CLIENT,
    /// The host: the authority on what is legal.
    SERVER,
}

/// Why a step did nothing.
#[derive(Clone, Copy, Debug, PartialEq, Eq, Structural)]
pub enum NetError {
    /// The bytes received are not a message.
    Decode,
    /// A message that this side does not expect now.
    Protocol,
    /// The other side made a move that the local rule engine rejects: the two
    /// boards no longer agree.
    Desync,
    /// The host refused the request to connect.
    Refused,
    /// The connection broke.
    Transport,
    /// A local submission that cannot be taken now. The only error that
    /// leaves the session fit for use.
    Rejected,
}

/// What the caller has to do after a step.
#[derive(Clone, Debug, PartialEq, Eq)]
pub struct Reaction {
    /// The move to apply to the local board, if any.
    pub applied: Option<Move_channel>,
    /// The bytes to send to the other side; none where nothing is to be sent.
    pub sent: Vec<u8>,
}

/// What a `Reaction` holds, with the bytes as a sequence.
pub struct Effects {
    pub applied: Option<Move_channel>,
    pub sent: Seq<u8>,
}

impl View for Reaction {
    type V = Effects;

    open spec fn view(&self) -> Effects {
        Effects { applied: self.applied, sent: self.sent@ }
    }
}

/// The state of a session, as the contracts speak of it.
pub struct SessionView {
    /// Host or guest. Fixed when the session is made.
    pub typ: NET_TYPE,
    /// Whose turn it is.
    pub state: NET_STATE,
    /// The move a guest has sent and the host has not answered yet.
    pub mv_cache: Option<Move_channel>,
    /// For a host: a guest has been let in. For a guest: the host let it in.
    pub established_connection: bool,
    /// The local player has the white pieces.
    pub white: bool,
    /// Why the session has failed for good, if it has.
    pub fault: Option<NetError>,
}

/// A step's result: the session after it, and what it hands to the caller.
pub type Step = (SessionView, Result<Effects, NetError>);

/// The session of one peer.
pub struct Net_app {
    typ: NET_TYPE,
    state: NET_STATE,
    mv_cache: Option<Move_channel>,
    established_connection: bool,
    white: bool,
    fault: Option<NetError>,
}

impl View for Net_app {
    type V = SessionView;

    closed spec fn view(&self) -> SessionView {
        SessionView {
            typ: self.typ,
            state: self.state,
            mv_cache: self.mv_cache,
            established_connection: self.established_connection,
            white: self.white,
            fault: self.fault,
        }
    }
}

/// The position every game starts from, in Forsyth-Edwards notation.
pub const STARTING_FEN: &'static str = "rnbqkbnr/pppppppp/8/8/8/8/PPPPPPPP/RNBQKBNR w KQkq - 0 1";

/// The text of the position every game starts from.
pub open spec fn starting_fen() -> Seq<char> {
    STARTING_FEN@
}

/// The move as the wire carries it: each cell as its square, no promotion.
pub open spec fn wire_move(mv: Move_channel) -> Move {
    Move {
        from_square: square_at(mv.from) as u32,
        to_square: square_at(mv.to) as u32,
        promotion: None,
    }
}

/// The move as the board takes it: each square as its cell.
pub open spec fn board_move(mv: Move) -> Move_channel {
    Move_channel { from: cell_at(mv.from_square as int), to: cell_at(mv.to_square as int) }
}

/// Nothing to apply and nothing to send.
pub open spec fn no_effects() -> Effects {
    Effects { applied: None, sent: Seq::empty() }
}

/// What a step hands to the caller, with the bytes as a sequence.
pub open spec fn outcome(r: Result<Reaction, NetError>) -> Result<Effects, NetError> {
    match r {
        Ok(reaction) => Ok(reaction@),
        Err(e) => Err(e),
    }
}

/// The board after a step, when `play` is what the rule engine does to a
/// board with a move: the move of the step's effects applied, if there is
/// one, else the board as it was.
pub open spec fn board_after<B>(
    board: B,
    play: spec_fn(B, Move_channel) -> B,
    result: Result<Effects, NetError>,
) -> B {
    match result {
        Ok(effects) => match effects.applied {
            Some(mv) => play(board, mv),
            None => board,
        },
        Err(_) => board,
    }
}

impl SessionView {
    /// A session as it is made. A host starts on its turn if it has the white
    /// pieces and waiting if not; a guest starts outside, its colour unknown.
    pub open spec fn fresh(typ: NET_TYPE, white: bool) -> SessionView {
        SessionView {
            typ,
            state: if typ == NET_TYPE::CLIENT {
                NET_STATE::NOT_ESTABLISHED
            } else if white {
                NET_STATE::MY_TURN
            } else {
                NET_STATE::WAITING
            },
            mv_cache: None,
            established_connection: false,
            white: typ == NET_TYPE::SERVER && white,
            fault: None,
        }
    }

    /// What holds of every session that was made by `Net_app::new` and changed
    /// by steps only: a host is never outside and holds no move back; a guest
    /// is outside exactly until the host lets it in; a move is held back only
    /// by a guest that is in, and lies on the board.
    pub open spec fn wf(self) -> bool {
        &&& self.typ == NET_TYPE::SERVER ==> self.state != NET_STATE::NOT_ESTABLISHED
            && self.mv_cache is None
        &&& self.typ == NET_TYPE::CLIENT ==> (self.established_connection <==> self.state
            != NET_STATE::NOT_ESTABLISHED)
        &&& self.mv_cache matches Some(mv) ==> self.state != NET_STATE::NOT_ESTABLISHED
            && on_board(mv.from) && on_board(mv.to)
    }

    /// A step on a session that has failed: the fault again, and no change.
    pub open spec fn halted(self) -> Step {
        (self, Err(self.fault.unwrap()))
    }

    /// The session fails for good with `e`: nothing else changes, nothing is
    /// applied, nothing is sent.
    pub open spec fn fail(self, e: NetError) -> Step {
        (SessionView { fault: Some(e), ..self }, Err(e))
    }

    /// Whether the caller should wait for bytes from the other side: the
    /// session has not failed, and the other side is to act or is not
    /// connected yet.
    pub open spec fn listens(self) -> bool {
        self.fault is None && (self.state == NET_STATE::WAITING || !self.established_connection)
    }

    /// The answer a host gives to a request to connect: success for the first
    /// request only, the colour that the host does not have, game 0, and the
    /// starting position.
    pub open spec fn connect_answer(self) -> ConnectAckView {
        ConnectAckView {
            success: !self.established_connection,
            client_is_white: Some(!self.white),
            game_id: Some(0u32),
            starting_position: Some(starting_fen()),
        }
    }

    /// A guest asks to be let in. Only a guest that is still outside may; the
    /// session does not change.
    pub open spec fn connect_request_step(self) -> Step {
        if self.fault is Some {
            self.halted()
        } else if self.typ == NET_TYPE::CLIENT && self.state == NET_STATE::NOT_ESTABLISHED {
            (
                self,
                Ok(
                    Effects {
                        applied: None,
                        sent: c2s_bytes(
                            C2sMessage::ConnectRequest(
                                C2sConnectRequest { game_id: 0, spectate: false },
                            ),
                        ),
                    },
                ),
            )
        } else {
            (self, Err(NetError::Rejected))
        }
    }

    /// A guest gets the host's answer to its request. Expected only while
    /// outside. Success lets the guest in: on its turn if it was given white,
    /// waiting if not. A refusal is fatal.
    pub open spec fn connect_ack_step(self, ack: ConnectAckView) -> Step {
        if self.fault is Some {
            self.halted()
        } else if self.typ == NET_TYPE::CLIENT && self.state == NET_STATE::NOT_ESTABLISHED {
            if ack.success {
                let white = ack.client_is_white == Some(true);
                (
                    SessionView {
                        established_connection: true,
                        white,
                        state: if white {
                            NET_STATE::MY_TURN
                        } else {
                            NET_STATE::WAITING
                        },
                        ..self
                    },
                    Ok(no_effects()),
                )
            } else {
                self.fail(NetError::Refused)
            }
        } else {
            self.fail(NetError::Protocol)
        }
    }

    /// A guest gets the host's verdict on a move. Expected only while the
    /// guest waits. Legal: the move held back is applied and the guest goes on
    /// waiting, now for the host's move; with no move held back the verdict
    /// is a breach. Not legal: the guest is on its turn again. Either way
    /// nothing is held back afterwards.
    pub open spec fn move_ack_step(self, legal: bool) -> Step {
        if self.fault is Some {
            self.halted()
        } else if self.typ == NET_TYPE::CLIENT && self.state == NET_STATE::WAITING {
            if !legal {
                (
                    SessionView { mv_cache: None, state: NET_STATE::MY_TURN, ..self },
                    Ok(no_effects()),
                )
            } else if self.mv_cache is Some {
                (
                    SessionView { mv_cache: None, ..self },
                    Ok(Effects { applied: self.mv_cache, sent: Seq::empty() }),
                )
            } else {
                self.fail(NetError::Protocol)
            }
        } else {
            self.fail(NetError::Protocol)
        }
    }

    /// A guest gets a move of the host, and `legal` is what the local rule
    /// engine says of it. Expected only while the guest waits, and only with
    /// squares on the board. Legal: the move is applied and the guest is on
    /// its turn. Not legal: the boards disagree, which is fatal, and the move
    /// is not applied.
    pub open spec fn move_s2c_step(self, mv: Move, legal: bool) -> Step {
        if self.fault is Some {
            self.halted()
        } else if self.typ == NET_TYPE::CLIENT && self.state == NET_STATE::WAITING && mv.valid() {
            if legal {
                (
                    SessionView { state: NET_STATE::MY_TURN, ..self },
                    Ok(Effects { applied: Some(board_move(mv)), sent: Seq::empty() }),
                )
            } else {
                self.fail(NetError::Desync)
            }
        } else {
            self.fail(NetError::Protocol)
        }
    }

    /// A host gets a request to connect. It answers every one, and changes
    /// only in that it has let a guest in.
    pub open spec fn connect_response_step(self) -> Step {
        if self.fault is Some {
            self.halted()
        } else if self.typ == NET_TYPE::SERVER {
            (
                SessionView { established_connection: true, ..self },
                Ok(
                    Effects {
                        applied: None,
                        sent: s2c_bytes(S2cView::ConnectAck(self.connect_answer())),
                    },
                ),
            )
        } else {
            self.fail(NetError::Protocol)
        }
    }

    /// A host gets a move of the guest, and `legal` is what the rule engine
    /// says of it. Expected only while the host waits, and only with squares
    /// on the board. Legal: the move is applied, the host is on its turn, and
    /// the verdict goes out. Not legal: fatal, nothing applied, nothing sent.
    pub open spec fn move_c2s_step(self, mv: Move, legal: bool) -> Step {
        if self.fault is Some {
            self.halted()
        } else if self.typ == NET_TYPE::SERVER && self.state == NET_STATE::WAITING && mv.valid() {
            if legal {
                (
                    SessionView { state: NET_STATE::MY_TURN, ..self },
                    Ok(Effects { applied: Some(board_move(mv)), sent: verdict_bytes(true) }),
                )
            } else {
                self.fail(NetError::Desync)
            }
        } else {
            self.fail(NetError::Protocol)
        }
    }

    /// The guest's player submits a move. Taken only on the guest's turn,
    /// with nothing held back and both cells on the board: the move is held
    /// back and sent, not applied, and the guest waits. Else rejected, with
    /// no change and nothing sent.
    pub open spec fn client_request_step(self, mv: Move_channel) -> Step {
        if self.fault is Some {
            self.halted()
        } else if self.typ == NET_TYPE::CLIENT && self.state == NET_STATE::MY_TURN
            && self.mv_cache is None && on_board(mv.from) && on_board(mv.to) {
            (
                SessionView { mv_cache: Some(mv), state: NET_STATE::WAITING, ..self },
                Ok(Effects { applied: None, sent: c2s_bytes(C2sMessage::Move(wire_move(mv))) }),
            )
        } else {
            (self, Err(NetError::Rejected))
        }
    }

    /// The host's player submits a move. Taken only on the host's turn, with
    /// both cells on the board: the move is applied at once and sent, and the
    /// host waits. Else rejected, with no change and nothing sent.
    pub open spec fn server_request_step(self, mv: Move_channel) -> Step {
        if self.fault is Some {
            self.halted()
        } else if self.typ == NET_TYPE::SERVER && self.state == NET_STATE::MY_TURN && on_board(
            mv.from,
        ) && on_board(mv.to) {
            (
                SessionView { state: NET_STATE::WAITING, ..self },
                Ok(Effects { applied: Some(mv), sent: s2c_bytes(S2cView::Move(wire_move(mv))) }),
            )
        } else {
            (self, Err(NetError::Rejected))
        }
    }

    /// The local player submits a move: the host's step for a host, the
    /// guest's for a guest.
    pub open spec fn submit_step(self, mv: Move_channel) -> Step {
        if self.typ == NET_TYPE::SERVER {
            self.server_request_step(mv)
        } else {
            self.client_request_step(mv)
        }
    }

    /// A host gets bytes from the guest, and `legal` is what the rule engine
    /// says of the move they carry (of no account where they carry none).
    /// Bytes that are no message are fatal; the empty message does nothing.
    pub open spec fn receive_c2s_step(self, bytes: Seq<u8>, legal: bool) -> Step {
        if self.fault is Some {
            self.halted()
        } else if self.typ != NET_TYPE::SERVER {
            self.fail(NetError::Protocol)
        } else {
            match c2s_decoding(bytes) {
                None => self.fail(NetError::Decode),
                Some(C2sMessage::Empty) => (self, Ok(no_effects())),
                Some(C2sMessage::Move(mv)) => self.move_c2s_step(mv, legal),
                Some(C2sMessage::ConnectRequest(_)) => self.connect_response_step(),
            }
        }
    }

    /// A guest gets bytes from the host, and `legal` is what the rule engine
    /// says of the move they carry (of no account where they carry none).
    /// Bytes that are no message are fatal; the empty message does nothing.
    pub open spec fn receive_s2c_step(self, bytes: Seq<u8>, legal: bool) -> Step {
        if self.fault is Some {
            self.halted()
        } else if self.typ != NET_TYPE::CLIENT {
            self.fail(NetError::Protocol)
        } else {
            match s2c_decoding(bytes) {
                None => self.fail(NetError::Decode),
                Some(S2cView::Empty) => (self, Ok(no_effects())),
                Some(S2cView::Move(mv)) => self.move_s2c_step(mv, legal),
                Some(S2cView::ConnectAck(ack)) => self.connect_ack_step(ack),
                Some(S2cView::MoveAck(ack)) => self.move_ack_step(ack.legal),
            }
        }
    }

    /// The connection broke: fatal, unless the session has failed already.
    pub open spec fn transport_error_step(self) -> Step {
        if self.fault is Some {
            self.halted()
        } else {
            self.fail(NetError::Transport)
        }
    }
}

/// The bytes of the host's verdict on a move, with no board attached.
pub open spec fn verdict_bytes(legal: bool) -> Seq<u8> {
    s2c_bytes(S2cView::MoveAck(MoveAckView { legal, board_result: None }))
}

/// The move that bytes from the guest carry, as the board takes it.
pub open spec fn move_asked_c2s(bytes: Seq<u8>) -> Option<Move_channel> {
    match c2s_decoding(bytes) {
        Some(C2sMessage::Move(mv)) => Some(board_move(mv)),
        _ => None,
    }
}

/// The move that bytes from the host carry, as the board takes it.
pub open spec fn move_asked_s2c(bytes: Seq<u8>) -> Option<Move_channel> {
    match s2c_decoding(bytes) {
        Some(S2cView::Move(mv)) => Some(board_move(mv)),
        _ => None,
    }
}

/// An event in the life of a session.
pub enum Event {
    /// A guest is about to ask to be let in.
    ConnectRequest,
    /// A guest got the host's answer to its request.
    ConnectAck(ConnectAckView),
    /// A guest got the host's verdict, legal or not, on the move it holds back.
    MoveAck(bool),
    /// A guest got a move of the host, which the rule engine calls legal or not.
    MoveFromHost(Move, bool),
    /// A host got a request to connect.
    ConnectRequestReceived,
    /// A host got a move of the guest, which the rule engine calls legal or not.
    MoveFromGuest(Move, bool),
    /// The local player submits a move.
    Submit(Move_channel),
    /// A host got bytes, and the rule engine's word on the move they carry.
    BytesFromGuest(Seq<u8>, bool),
    /// A guest got bytes, and the rule engine's word on the move they carry.
    BytesFromHost(Seq<u8>, bool),
    /// The connection broke.
    TransportError,
}

impl SessionView {
    /// What an event does to a session.
    pub open spec fn step(self, event: Event) -> Step {
        match event {
            Event::ConnectRequest => self.connect_request_step(),
            Event::ConnectAck(ack) => self.connect_ack_step(ack),
            Event::MoveAck(legal) => self.move_ack_step(legal),
            Event::MoveFromHost(mv, legal) => self.move_s2c_step(mv, legal),
            Event::ConnectRequestReceived => self.connect_response_step(),
            Event::MoveFromGuest(mv, legal) => self.move_c2s_step(mv, legal),
            Event::Submit(mv) => self.submit_step(mv),
            Event::BytesFromGuest(bytes, legal) => self.receive_c2s_step(bytes, legal),
            Event::BytesFromHost(bytes, legal) => self.receive_s2c_step(bytes, legal),
            Event::TransportError => self.transport_error_step(),
        }
    }
}

/// The move as the wire carries it, or `None` for a move with a cell off the
/// board.
pub fn to_wire(mv: &Move_channel) -> (r: Option<Move>)
    ensures
        on_board(mv.from) && on_board(mv.to) ==> r == Some(wire_move(*mv)),
        !(on_board(mv.from) && on_board(mv.to)) ==> r is None,
{
    match (square_of(mv.from), square_of(mv.to)) {
        (Some(from_square), Some(to_square)) => Some(
            Move { from_square, to_square, promotion: None },
        ),
        _ => None,
    }
}

/// The move as the board takes it, or `None` for a move with a square past
/// the board.
pub fn to_board(mv: &Move) -> (r: Option<Move_channel>)
    ensures
        mv.valid() ==> r == Some(board_move(*mv)),
        !mv.valid() ==> r is None,
{
    match (cell_of(mv.from_square), cell_of(mv.to_square)) {
        (Some(from), Some(to)) => Some(Move_channel { from, to }),
        _ => None,
    }
}

/// The move that bytes from the guest carry, for the caller to put to the
/// rule engine before it hands the bytes to the session.
pub fn asked_move_c2s(buffer: &[u8]) -> (r: Option<Move_channel>)
    ensures
        r == move_asked_c2s(buffer@),
{
    match C2sMessage::decode(buffer) {
        Ok(C2sMessage::Move(mv)) => to_board(&mv),
        _ => None,
    }
}

/// The move that bytes from the host carry, for the caller to put to the rule
/// engine before it hands the bytes to the session.
pub fn asked_move_s2c(buffer: &[u8]) -> (r: Option<Move_channel>)
    ensures
        r == move_asked_s2c(buffer@),
{
    match S2cMessage::decode(buffer) {
        Ok(S2cMessage::Move(mv)) => to_board(&mv),
        _ => None,
    }
}

impl Net_app {
    /// A new session. A host says whether it plays white; a guest learns its
    /// colour from the host, and `white` is of no account.
    pub fn new(typ: NET_TYPE, white: bool) -> (r: Net_app)
        ensures
            r@ == SessionView::fresh(typ, white),
            r@.wf(),
    {
        let state = match typ {
            NET_TYPE::CLIENT => NET_STATE::NOT_ESTABLISHED,
            NET_TYPE::SERVER => if white {
                NET_STATE::MY_TURN
            } else {
                NET_STATE::WAITING
            },
        };
        let white = match typ {
            NET_TYPE::CLIENT => false,
            NET_TYPE::SERVER => white,
        };
        Net_app {
            typ,
            state,
            mv_cache: None,
            established_connection: false,
            white,
            fault: None,
        }
    }

    /// Host or guest.
    pub fn get_net_type(&self) -> (r: NET_TYPE)
        ensures
            r == self@.typ,
    {
        self.typ
    }

    /// Whose turn it is.
    pub fn get_net_state(&self) -> (r: NET_STATE)
        ensures
            r == self@.state,
    {
        self.state
    }

    /// The move held back until the host's verdict, if any.
    pub fn mv_cache(&self) -> (r: Option<Move_channel>)
        ensures
            r == self@.mv_cache,
    {
        self.mv_cache
    }

    /// Whether the two sides are connected.
    pub fn is_established(&self) -> (r: bool)
        ensures
            r == self@.established_connection,
    {
        self.established_connection
    }

    /// Whether the local player has the white pieces.
    pub fn is_white(&self) -> (r: bool)
        ensures
            r == self@.white,
    {
        self.white
    }

    /// Why the session has failed for good, if it has.
    pub fn fault(&self) -> (r: Option<NetError>)
        ensures
            r == self@.fault,
    {
        self.fault
    }

    /// Whether the caller should now wait for bytes from the other side.
    pub fn listens(&self) -> (r: bool)
        ensures
            r == self@.listens(),
    {
        self.fault.is_none() && (self.state == NET_STATE::WAITING || !self.established_connection)
    }

    fn halt(&mut self, e: NetError) -> (r: Result<Reaction, NetError>)
        ensures
            (final(self)@, outcome(r)) == old(self)@.fail(e),
    {
        self.fault = Some(e);
        Err(e)
    }

    /// The bytes with which a guest asks to be let in.
    pub fn ConnectRequest(&mut self) -> (r: Result<Reaction, NetError>)
        ensures
            (final(self)@, outcome(r)) == old(self)@.connect_request_step(),
    {
        if let Some(e) = self.fault {
            return Err(e);
        }
        if self.typ == NET_TYPE::CLIENT && self.state == NET_STATE::NOT_ESTABLISHED {
            let request = C2sMessage::ConnectRequest(
                C2sConnectRequest { game_id: 0, spectate: false },
            );
            Ok(Reaction { applied: None, sent: request.encode() })
        } else {
            Err(NetError::Rejected)
        }
    }

    /// A guest takes the host's answer to its request.
    pub fn on_ConnectAck(&mut self, packet: S2cConnectAck) -> (r: Result<Reaction, NetError>)
        ensures
            (final(self)@, outcome(r)) == old(self)@.connect_ack_step(packet@),
    {
        if let Some(e) = self.fault {
            return Err(e);
        }
        if self.typ == NET_TYPE::CLIENT && self.state == NET_STATE::NOT_ESTABLISHED {
            if packet.success {
                let white = match packet.client_is_white {
                    Some(w) => w,
                    None => false,
                };
                self.established_connection = true;
                self.white = white;
                self.state = if white {
                    NET_STATE::MY_TURN
                } else {
                    NET_STATE::WAITING
                };
                Ok(Reaction { applied: None, sent: Vec::new() })
            } else {
                self.halt(NetError::Refused)
            }
        } else {
            self.halt(NetError::Protocol)
        }
    }

    /// A guest takes the host's verdict on a move.
    pub fn on_MoveAck(&mut self, packet: S2cMoveAck) -> (r: Result<Reaction, NetError>)
        ensures
            (final(self)@, outcome(r)) == old(self)@.move_ack_step(packet.legal),
    {
        if let Some(e) = self.fault {
            return Err(e);
        }
        if self.typ == NET_TYPE::CLIENT && self.state == NET_STATE::WAITING {
            if !packet.legal {
                self.mv_cache = None;
                self.state = NET_STATE::MY_TURN;
                Ok(Reaction { applied: None, sent: Vec::new() })
            } else if self.mv_cache.is_some() {
                let held = self.mv_cache;
                self.mv_cache = None;
                Ok(Reaction { applied: held, sent: Vec::new() })
            } else {
                self.halt(NetError::Protocol)
            }
        } else {
            self.halt(NetError::Protocol)
        }
    }

    /// A guest takes a move of the host; `legal` is the local rule engine's
    /// word on it.
    pub fn on_Move_s2c(&mut self, mv: Move, legal: bool) -> (r: Result<Reaction, NetError>)
        ensures
            (final(self)@, outcome(r)) == old(self)@.move_s2c_step(mv, legal),
    {
        if let Some(e) = self.fault {
            return Err(e);
        }
        if self.typ == NET_TYPE::CLIENT && self.state == NET_STATE::WAITING {
            match to_board(&mv) {
                Some(on_board_move) => {
                    if legal {
                        self.state = NET_STATE::MY_TURN;
                        Ok(Reaction { applied: Some(on_board_move), sent: Vec::new() })
                    } else {
                        self.halt(NetError::Desync)
                    }
                },
                None => self.halt(NetError::Protocol),
            }
        } else {
            self.halt(NetError::Protocol)
        }
    }

    /// A host takes a request to connect. What the request holds is of no
    /// account: every request gets the same answer.
    pub fn on_ConnectRequest(&mut self, cnct_req: C2sConnectRequest) -> (r: Result<
        Reaction,
        NetError,
    >)
        ensures
            (final(self)@, outcome(r)) == old(self)@.connect_response_step(),
    {
        self.response_ConnectRequest()
    }

    /// A host's answer to a request to connect.
    pub fn response_ConnectRequest(&mut self) -> (r: Result<Reaction, NetError>)
        ensures
            (final(self)@, outcome(r)) == old(self)@.connect_response_step(),
    {
        if let Some(e) = self.fault {
            return Err(e);
        }
        if self.typ == NET_TYPE::SERVER {
            let answer = S2cMessage::ConnectAck(
                S2cConnectAck {
                    success: !self.established_connection,
                    client_is_white: Some(!self.white),
                    game_id: Some(0),
                    starting_position: Some(
                        BoardState { fen_string: STARTING_FEN.to_owned() },
                    ),
                },
            );
            assert(answer@ == S2cView::ConnectAck(self@.connect_answer()));
            self.established_connection = true;
            Ok(Reaction { applied: None, sent: answer.encode() })
        } else {
            self.halt(NetError::Protocol)
        }
    }

    /// A host takes a move of the guest; `legal` is the rule engine's word on
    /// it.
    pub fn on_Move_c2s(&mut self, mv: Move, legal: bool) -> (r: Result<Reaction, NetError>)
        ensures
            (final(self)@, outcome(r)) == old(self)@.move_c2s_step(mv, legal),
    {
        if let Some(e) = self.fault {
            return Err(e);
        }
        if self.typ == NET_TYPE::SERVER && self.state == NET_STATE::WAITING {
            match to_board(&mv) {
                Some(on_board_move) => {
                    if legal {
                        self.state = NET_STATE::MY_TURN;
                        Ok(
                            Reaction {
                                applied: Some(on_board_move),
                                sent: Net_app::on_Move_c2s_response(true),
                            },
                        )
                    } else {
                        self.halt(NetError::Desync)
                    }
                },
                None => self.halt(NetError::Protocol),
            }
        } else {
            self.halt(NetError::Protocol)
        }
    }

    /// The bytes of a host's verdict on a move.
    pub fn on_Move_c2s_response(legal: bool) -> (r: Vec<u8>)
        ensures
            r@ == verdict_bytes(legal),
    {
        let verdict = S2cMessage::MoveAck(S2cMoveAck { legal, board_result: None });
        verdict.encode()
    }

    /// The guest's player submits a move.
    pub fn Move_client_request(&mut self, mv: &Move_channel) -> (r: Result<Reaction, NetError>)
        ensures
            (final(self)@, outcome(r)) == old(self)@.client_request_step(*mv),
    {
        if let Some(e) = self.fault {
            return Err(e);
        }
        if self.typ == NET_TYPE::CLIENT && self.state == NET_STATE::MY_TURN
            && self.mv_cache.is_none() {
            match to_wire(mv) {
                Some(on_wire) => {
                    self.mv_cache = Some(*mv);
                    self.state = NET_STATE::WAITING;
                    Ok(Reaction { applied: None, sent: C2sMessage::Move(on_wire).encode() })
                },
                None => Err(NetError::Rejected),
            }
        } else {
            Err(NetError::Rejected)
        }
    }

    /// The host's player submits a move.
    pub fn Move_server_request(&mut self, mv: &Move_channel) -> (r: Result<Reaction, NetError>)
        ensures
            (final(self)@, outcome(r)) == old(self)@.server_request_step(*mv),
    {
        if let Some(e) = self.fault {
            return Err(e);
        }
        if self.typ == NET_TYPE::SERVER && self.state == NET_STATE::MY_TURN {
            match to_wire(mv) {
                Some(on_wire) => {
                    self.state = NET_STATE::WAITING;
                    Ok(Reaction { applied: Some(*mv), sent: S2cMessage::Move(on_wire).encode() })
                },
                None => Err(NetError::Rejected),
            }
        } else {
            Err(NetError::Rejected)
        }
    }

    /// The local player submits a move.
    pub fn submit(&mut self, mv: &Move_channel) -> (r: Result<Reaction, NetError>)
        ensures
            (final(self)@, outcome(r)) == old(self)@.submit_step(*mv),
    {
        if self.typ == NET_TYPE::SERVER {
            self.Move_server_request(mv)
        } else {
            self.Move_client_request(mv)
        }
    }

    /// A host takes what it read from the connection; `legal` is the rule
    /// engine's word on the move the bytes carry, if they carry one.
    pub fn check_connection_server(&mut self, buffer: &[u8], legal: bool) -> (r: Result<
        Reaction,
        NetError,
    >)
        ensures
            (final(self)@, outcome(r)) == old(self)@.receive_c2s_step(buffer@, legal),
    {
        if let Some(e) = self.fault {
            return Err(e);
        }
        if self.typ != NET_TYPE::SERVER {
            return self.halt(NetError::Protocol);
        }
        match C2sMessage::decode(buffer) {
            Err(_) => self.halt(NetError::Decode),
            Ok(C2sMessage::Empty) => Ok(Reaction { applied: None, sent: Vec::new() }),
            Ok(C2sMessage::Move(mv)) => self.on_Move_c2s(mv, legal),
            Ok(C2sMessage::ConnectRequest(request)) => self.on_ConnectRequest(request),
        }
    }

    /// A guest takes what it read from the connection; `legal` is the rule
    /// engine's word on the move the bytes carry, if they carry one.
    pub fn check_connection_client(&mut self, buffer: &[u8], legal: bool) -> (r: Result<
        Reaction,
        NetError,
    >)
        ensures
            (final(self)@, outcome(r)) == old(self)@.receive_s2c_step(buffer@, legal),
    {
        if let Some(e) = self.fault {
            return Err(e);
        }
        if self.typ != NET_TYPE::CLIENT {
            return self.halt(NetError::Protocol);
        }
        match S2cMessage::decode(buffer) {
            Err(_) => self.halt(NetError::Decode),
            Ok(S2cMessage::Empty) => Ok(Reaction { applied: None, sent: Vec::new() }),
            Ok(S2cMessage::Move(mv)) => self.on_Move_s2c(mv, legal),
            Ok(S2cMessage::ConnectAck(ack)) => self.on_ConnectAck(ack),
            Ok(S2cMessage::MoveAck(ack)) => self.on_MoveAck(ack),
        }
    }

    /// The caller reports that the connection broke. Returns the fault the
    /// session now has: this one, or the earlier one if it had failed before.
    pub fn transport_error(&mut self) -> (r: NetError)
        ensures
            (final(self)@, Err::<Effects, NetError>(r)) == old(self)@.transport_error_step(),
    {
        match self.fault {
            Some(e) => e,
            None => {
                self.fault = Some(NetError::Transport);
                NetError::Transport
            },
        }
    }
}

} // verus!
