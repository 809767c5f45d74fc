//! A host, a guest and the connection between them, taken together.
//!
//! The sessions are made to keep two boards the same. This module says so:
//! it puts a host's session, a guest's session, their two boards and the
//! messages under way into one state, lets that state move as the two
//! programs move it, and proves that no session ever fails and that the two
//! boards are the same whenever no message is under way.
//!
//! Three things are taken for granted, as they are things the sessions cannot
//! see to: both sides ask the same rule engine, a player submits only moves
//! that are legal on the player's own board, and the host's player submits
//! nothing before the host has let a guest in.
use crate::c2s::{
    c2s_bytes, c2s_decoding, lemma_c2s_bytes_head, lemma_c2s_round_trip, C2sConnectRequest,
    C2sMessage,
};
use crate::laws::lemma_wire_and_board_moves;
use crate::s2c::{
    lemma_s2c_bytes_head, lemma_s2c_round_trip, s2c_bytes, s2c_decoding, ConnectAckView,
    MoveAckView, S2cView,
};
use crate::session::{
    board_after, move_asked_c2s, move_asked_s2c, starting_fen, verdict_bytes, wire_move, Effects,
    Event, NetError, SessionView, NET_STATE, NET_TYPE,
};
use crate::square::{on_board, Move_channel};
use vstd::prelude::*;

verus! {

/// Two sessions, their boards, and what is under way between them.
pub struct Pair<B> {
    pub host: SessionView,
    pub guest: SessionView,
    /// The guest has asked to be let in.
    pub asked: bool,
    /// What the guest has sent and the host has not read yet, oldest first.
    pub to_host: Seq<Seq<u8>>,
    /// What the host has sent and the guest has not read yet, oldest first.
    pub to_guest: Seq<Seq<u8>>,
    pub host_board: B,
    pub guest_board: B,
}

/// What one of the two programs does next.
pub enum Act {
    /// The guest asks to be let in.
    GuestAsks,
    /// The host reads the oldest message sent to it.
    HostReads,
    /// The guest reads the oldest message sent to it.
    GuestReads,
    /// The guest's player submits a move.
    GuestSubmits(Move_channel),
    /// The host's player submits a move.
    HostSubmits(Move_channel),
}

/// What a step sends, if anything.
pub open spec fn sent_by(result: Result<Effects, NetError>) -> Seq<u8> {
    match result {
        Ok(effects) => effects.sent,
        Err(_) => Seq::empty(),
    }
}

/// The messages under way after one more was sent; sending no bytes sends
/// nothing.
pub open spec fn posted(queue: Seq<Seq<u8>>, sent: Seq<u8>) -> Seq<Seq<u8>> {
    if sent.len() == 0 {
        queue
    } else {
        queue.push(sent)
    }
}

/// The bytes with which a guest asks to be let in.
pub open spec fn request_bytes() -> Seq<u8> {
    c2s_bytes(C2sMessage::ConnectRequest(C2sConnectRequest { game_id: 0, spectate: false }))
}

/// The host's answer to the first request, as a message.
pub open spec fn welcome(host_white: bool) -> ConnectAckView {
    ConnectAckView {
        success: true,
        client_is_white: Some(!host_white),
        game_id: Some(0u32),
        starting_position: Some(starting_fen()),
    }
}

/// The bytes of a move sent by the guest.
pub open spec fn proposal_bytes(mv: Move_channel) -> Seq<u8> {
    c2s_bytes(C2sMessage::Move(wire_move(mv)))
}

/// The bytes of a move sent by the host.
pub open spec fn broadcast_bytes(mv: Move_channel) -> Seq<u8> {
    s2c_bytes(S2cView::Move(wire_move(mv)))
}

impl<B> Pair<B> {
    /// The two sessions as they are made, nothing under way, and the same
    /// board on both sides.
    pub open spec fn start(host_white: bool, board: B) -> Pair<B> {
        Pair {
            host: SessionView::fresh(NET_TYPE::SERVER, host_white),
            guest: SessionView::fresh(NET_TYPE::CLIENT, false),
            asked: false,
            to_host: Seq::empty(),
            to_guest: Seq::empty(),
            host_board: board,
            guest_board: board,
        }
    }

    /// Whether an act can happen now, under what is taken for granted.
    pub open spec fn allows(self, act: Act, legal: spec_fn(B, Move_channel) -> bool) -> bool {
        match act {
            Act::GuestAsks => !self.asked,
            Act::HostReads => self.to_host.len() > 0,
            Act::GuestReads => self.to_guest.len() > 0,
            Act::GuestSubmits(mv) => legal(self.guest_board, mv),
            Act::HostSubmits(mv) => self.host.established_connection && legal(self.host_board, mv),
        }
    }

    /// The state after an act. A side that reads asks its rule engine about
    /// the move the bytes carry, hands bytes and answer to its session,
    /// applies to its board what the session says and sends what it says.
    pub open spec fn after(
        self,
        act: Act,
        legal: spec_fn(B, Move_channel) -> bool,
        play: spec_fn(B, Move_channel) -> B,
    ) -> Pair<B> {
        match act {
            Act::GuestAsks => {
                let (guest, result) = self.guest.step(Event::ConnectRequest);
                Pair { guest, asked: true, to_host: posted(self.to_host, sent_by(result)), ..self }
            },
            Act::HostReads => {
                let bytes = self.to_host[0];
                let word = match move_asked_c2s(bytes) {
                    Some(mv) => legal(self.host_board, mv),
                    None => false,
                };
                let (host, result) = self.host.step(Event::BytesFromGuest(bytes, word));
                Pair {
                    host,
                    host_board: board_after(self.host_board, play, result),
                    to_host: self.to_host.skip(1),
                    to_guest: posted(self.to_guest, sent_by(result)),
                    ..self
                }
            },
            Act::GuestReads => {
                let bytes = self.to_guest[0];
                let word = match move_asked_s2c(bytes) {
                    Some(mv) => legal(self.guest_board, mv),
                    None => false,
                };
                let (guest, result) = self.guest.step(Event::BytesFromHost(bytes, word));
                Pair {
                    guest,
                    guest_board: board_after(self.guest_board, play, result),
                    to_guest: self.to_guest.skip(1),
                    to_host: posted(self.to_host, sent_by(result)),
                    ..self
                }
            },
            Act::GuestSubmits(mv) => {
                let (guest, result) = self.guest.step(Event::Submit(mv));
                Pair {
                    guest,
                    guest_board: board_after(self.guest_board, play, result),
                    to_host: posted(self.to_host, sent_by(result)),
                    ..self
                }
            },
            Act::HostSubmits(mv) => {
                let (host, result) = self.host.step(Event::Submit(mv));
                Pair {
                    host,
                    host_board: board_after(self.host_board, play, result),
                    to_guest: posted(self.to_guest, sent_by(result)),
                    ..self
                }
            },
        }
    }

    /// Host and guest are what they are, neither has failed, and the host
    /// holds no move back.
    pub open spec fn sound(self) -> bool {
        &&& self.host.typ == NET_TYPE::SERVER
        &&& self.guest.typ == NET_TYPE::CLIENT
        &&& self.host.fault is None
        &&& self.guest.fault is None
        &&& self.host.mv_cache is None
        &&& self.host.state != NET_STATE::NOT_ESTABLISHED
        &&& self.guest.established_connection <==> self.guest.state != NET_STATE::NOT_ESTABLISHED
    }

    /// The guest is still outside and holds nothing back.
    pub open spec fn guest_outside(self) -> bool {
        self.guest.state == NET_STATE::NOT_ESTABLISHED && self.guest.mv_cache is None
    }

    /// Both sides are connected, and the guest has the colour the host has
    /// not.
    pub open spec fn playing(self) -> bool {
        &&& self.asked
        &&& self.host.established_connection
        &&& self.guest.established_connection
        &&& self.guest.white == !self.host.white
    }

    /// The host stands where it started: on its turn if it plays white,
    /// waiting if not.
    pub open spec fn host_at_start(self) -> bool {
        self.host.state == if self.host.white {
            NET_STATE::MY_TURN
        } else {
            NET_STATE::WAITING
        }
    }

    /// The guest has not asked yet.
    pub open spec fn before_request(self) -> bool {
        &&& !self.asked
        &&& self.guest_outside()
        &&& self.host_at_start()
        &&& !self.host.established_connection
        &&& self.to_host.len() == 0
        &&& self.to_guest.len() == 0
        &&& self.host_board == self.guest_board
    }

    /// The guest's request is under way.
    pub open spec fn request_under_way(self) -> bool {
        &&& self.asked
        &&& self.guest_outside()
        &&& self.host_at_start()
        &&& !self.host.established_connection
        &&& self.to_host == seq![request_bytes()]
        &&& self.to_guest.len() == 0
        &&& self.host_board == self.guest_board
    }

    /// The host's answer is under way.
    pub open spec fn answer_under_way(self) -> bool {
        &&& self.asked
        &&& self.guest_outside()
        &&& self.host.established_connection
        &&& self.host_at_start()
        &&& self.to_host.len() == 0
        &&& self.to_guest == seq![s2c_bytes(S2cView::ConnectAck(welcome(self.host.white)))]
        &&& self.host_board == self.guest_board
    }

    /// The host's answer is under way, and behind it the first move of a host
    /// that plays white.
    pub open spec fn answer_and_move_under_way(
        self,
        legal: spec_fn(B, Move_channel) -> bool,
        play: spec_fn(B, Move_channel) -> B,
    ) -> bool {
        &&& self.asked
        &&& self.guest_outside()
        &&& self.host.established_connection
        &&& self.host.white
        &&& self.host.state == NET_STATE::WAITING
        &&& self.to_host.len() == 0
        &&& self.to_guest.len() == 2
        &&& self.to_guest[0] == s2c_bytes(S2cView::ConnectAck(welcome(self.host.white)))
        &&& move_asked_s2c(self.to_guest[1]) matches Some(mv)
        &&& self.to_guest[1] == broadcast_bytes(mv)
        &&& on_board(mv.from) && on_board(mv.to)
        &&& legal(self.guest_board, mv)
        &&& self.host_board == play(self.guest_board, mv)
    }

    /// It is the host's turn and nothing is under way.
    pub open spec fn hosts_turn(self) -> bool {
        &&& self.playing()
        &&& self.host.state == NET_STATE::MY_TURN
        &&& self.guest.state == NET_STATE::WAITING
        &&& self.guest.mv_cache is None
        &&& self.to_host.len() == 0
        &&& self.to_guest.len() == 0
        &&& self.host_board == self.guest_board
    }

    /// It is the guest's turn and nothing is under way.
    pub open spec fn guests_turn(self) -> bool {
        &&& self.playing()
        &&& self.host.state == NET_STATE::WAITING
        &&& self.guest.state == NET_STATE::MY_TURN
        &&& self.guest.mv_cache is None
        &&& self.to_host.len() == 0
        &&& self.to_guest.len() == 0
        &&& self.host_board == self.guest_board
    }

    /// A move of the guest is under way to the host.
    pub open spec fn proposal_under_way(self, legal: spec_fn(B, Move_channel) -> bool) -> bool {
        &&& self.playing()
        &&& self.host.state == NET_STATE::WAITING
        &&& self.guest.state == NET_STATE::WAITING
        &&& self.guest.mv_cache matches Some(mv)
        &&& on_board(mv.from) && on_board(mv.to)
        &&& legal(self.guest_board, mv)
        &&& self.to_host == seq![proposal_bytes(mv)]
        &&& self.to_guest.len() == 0
        &&& self.host_board == self.guest_board
    }

    /// The host has applied the guest's move, and its verdict is under way.
    pub open spec fn verdict_under_way(self, play: spec_fn(B, Move_channel) -> B) -> bool {
        &&& self.playing()
        &&& self.host.state == NET_STATE::MY_TURN
        &&& self.guest.state == NET_STATE::WAITING
        &&& self.guest.mv_cache matches Some(mv)
        &&& on_board(mv.from) && on_board(mv.to)
        &&& self.to_host.len() == 0
        &&& self.to_guest == seq![verdict_bytes(true)]
        &&& self.host_board == play(self.guest_board, mv)
    }

    /// The host's verdict is under way, and behind it the host's next move.
    pub open spec fn verdict_and_move_under_way(
        self,
        legal: spec_fn(B, Move_channel) -> bool,
        play: spec_fn(B, Move_channel) -> B,
    ) -> bool {
        &&& self.playing()
        &&& self.host.state == NET_STATE::WAITING
        &&& self.guest.state == NET_STATE::WAITING
        &&& self.guest.mv_cache matches Some(held)
        &&& on_board(held.from) && on_board(held.to)
        &&& self.to_host.len() == 0
        &&& self.to_guest.len() == 2
        &&& self.to_guest[0] == verdict_bytes(true)
        &&& move_asked_s2c(self.to_guest[1]) matches Some(mv)
        &&& self.to_guest[1] == broadcast_bytes(mv)
        &&& on_board(mv.from) && on_board(mv.to)
        &&& legal(play(self.guest_board, held), mv)
        &&& self.host_board == play(play(self.guest_board, held), mv)
    }

    /// A move of the host is under way to the guest.
    pub open spec fn move_under_way(
        self,
        legal: spec_fn(B, Move_channel) -> bool,
        play: spec_fn(B, Move_channel) -> B,
    ) -> bool {
        &&& self.playing()
        &&& self.host.state == NET_STATE::WAITING
        &&& self.guest.state == NET_STATE::WAITING
        &&& self.guest.mv_cache is None
        &&& self.to_host.len() == 0
        &&& self.to_guest.len() == 1
        &&& move_asked_s2c(self.to_guest[0]) matches Some(mv)
        &&& self.to_guest[0] == broadcast_bytes(mv)
        &&& on_board(mv.from) && on_board(mv.to)
        &&& legal(self.guest_board, mv)
        &&& self.host_board == play(self.guest_board, mv)
    }

    /// The pair is in step: it is sound and stands at one of the places that
    /// an exchange passes through.
    pub open spec fn in_step(
        self,
        legal: spec_fn(B, Move_channel) -> bool,
        play: spec_fn(B, Move_channel) -> B,
    ) -> bool {
        &&& self.sound()
        &&& {
            ||| self.before_request()
            ||| self.request_under_way()
            ||| self.answer_under_way()
            ||| self.answer_and_move_under_way(legal, play)
            ||| self.hosts_turn()
            ||| self.guests_turn()
            ||| self.proposal_under_way(legal)
            ||| self.verdict_under_way(play)
            ||| self.verdict_and_move_under_way(legal, play)
            ||| self.move_under_way(legal, play)
        }
    }
}

/// The host reads a guest's request as a request, with no move to ask the
/// rule engine about.
pub proof fn lemma_request_read()
    ensures
        request_bytes().len() > 0,
        c2s_decoding(request_bytes()) == Some(
            C2sMessage::ConnectRequest(C2sConnectRequest { game_id: 0, spectate: false }),
        ),
        move_asked_c2s(request_bytes()) is None,
{
    let m = C2sMessage::ConnectRequest(C2sConnectRequest { game_id: 0, spectate: false });
    lemma_c2s_round_trip(m);
    lemma_c2s_bytes_head(m);
}

/// The host reads a guest's move as that move.
pub proof fn lemma_proposal_read(mv: Move_channel)
    requires
        on_board(mv.from),
        on_board(mv.to),
    ensures
        proposal_bytes(mv).len() > 0,
        c2s_decoding(proposal_bytes(mv)) == Some(C2sMessage::Move(wire_move(mv))),
        move_asked_c2s(proposal_bytes(mv)) == Some(mv),
        wire_move(mv).valid(),
{
    let m = C2sMessage::Move(wire_move(mv));
    lemma_c2s_round_trip(m);
    lemma_c2s_bytes_head(m);
    lemma_wire_and_board_moves(mv, wire_move(mv));
}

/// The guest reads a host's move as that move.
pub proof fn lemma_broadcast_read(mv: Move_channel)
    requires
        on_board(mv.from),
        on_board(mv.to),
    ensures
        broadcast_bytes(mv).len() > 0,
        s2c_decoding(broadcast_bytes(mv)) == Some(S2cView::Move(wire_move(mv))),
        move_asked_s2c(broadcast_bytes(mv)) == Some(mv),
        wire_move(mv).valid(),
{
    let m = S2cView::Move(wire_move(mv));
    lemma_s2c_round_trip(m);
    lemma_s2c_bytes_head(m);
    lemma_wire_and_board_moves(mv, wire_move(mv));
}

/// The guest reads the host's answer as that answer, with no move to ask the
/// rule engine about.
pub proof fn lemma_welcome_read(host_white: bool)
    ensures
        s2c_bytes(S2cView::ConnectAck(welcome(host_white))).len() > 0,
        s2c_decoding(s2c_bytes(S2cView::ConnectAck(welcome(host_white)))) == Some(
            S2cView::ConnectAck(welcome(host_white)),
        ),
        move_asked_s2c(s2c_bytes(S2cView::ConnectAck(welcome(host_white)))) is None,
{
    let m = S2cView::ConnectAck(welcome(host_white));
    lemma_s2c_round_trip(m);
    lemma_s2c_bytes_head(m);
}

/// The guest reads the host's verdict as that verdict, with no move to ask
/// the rule engine about.
pub proof fn lemma_verdict_read(legal: bool)
    ensures
        verdict_bytes(legal).len() > 0,
        s2c_decoding(verdict_bytes(legal)) == Some(
            S2cView::MoveAck(MoveAckView { legal, board_result: None }),
        ),
        move_asked_s2c(verdict_bytes(legal)) is None,
{
    let m = S2cView::MoveAck(MoveAckView { legal, board_result: None });
    lemma_s2c_round_trip(m);
    lemma_s2c_bytes_head(m);
}

/// The pair starts in step.
pub proof fn lemma_starts_in_step<B>(
    host_white: bool,
    board: B,
    legal: spec_fn(B, Move_channel) -> bool,
    play: spec_fn(B, Move_channel) -> B,
)
    ensures
        Pair::start(host_white, board).in_step(legal, play),
{
    assert(Pair::start(host_white, board).before_request());
}

/// A pair in step has no failed session; its boards are the same whenever
/// nothing is under way; and the two players are never both on their turn.
pub proof fn lemma_in_step_means<B>(
    p: Pair<B>,
    legal: spec_fn(B, Move_channel) -> bool,
    play: spec_fn(B, Move_channel) -> B,
)
    requires
        p.in_step(legal, play),
    ensures
        p.host.fault is None,
        p.guest.fault is None,
        p.host.wf(),
        p.guest.wf(),
        p.to_host.len() == 0 && p.to_guest.len() == 0 ==> p.host_board == p.guest_board,
        !(p.host.state == NET_STATE::MY_TURN && p.guest.state == NET_STATE::MY_TURN),
{
    lemma_verdict_read(true);
    lemma_request_read();
    lemma_welcome_read(p.host.white);
}

/// When the guest asks, the pair stays in step.
proof fn lemma_guest_asks<B>(
    p: Pair<B>,
    legal: spec_fn(B, Move_channel) -> bool,
    play: spec_fn(B, Move_channel) -> B,
)
    requires
        p.in_step(legal, play),
        p.allows(Act::GuestAsks, legal),
    ensures
        p.after(Act::GuestAsks, legal, play).in_step(legal, play),
{
    let q = p.after(Act::GuestAsks, legal, play);
    lemma_request_read();
    assert(p.before_request());
    assert(q.to_host =~= seq![request_bytes()]);
    assert(q.request_under_way());
}

/// When the host reads, the pair stays in step.
proof fn lemma_host_reads<B>(
    p: Pair<B>,
    legal: spec_fn(B, Move_channel) -> bool,
    play: spec_fn(B, Move_channel) -> B,
)
    requires
        p.in_step(legal, play),
        p.allows(Act::HostReads, legal),
    ensures
        p.after(Act::HostReads, legal, play).in_step(legal, play),
{
    let q = p.after(Act::HostReads, legal, play);
    lemma_request_read();
    lemma_verdict_read(true);
    lemma_welcome_read(p.host.white);
    if p.request_under_way() {
        assert(p.to_host[0] == request_bytes());
        assert(q.to_host =~= Seq::<Seq<u8>>::empty());
        assert(p.host.connect_answer() == welcome(p.host.white));
        assert(q.to_guest =~= seq![s2c_bytes(S2cView::ConnectAck(welcome(p.host.white)))]);
        assert(q.answer_under_way());
    } else {
        assert(p.proposal_under_way(legal));
        let mv = p.guest.mv_cache.unwrap();
        lemma_proposal_read(mv);
        assert(p.to_host[0] == proposal_bytes(mv));
        assert(q.to_host =~= Seq::<Seq<u8>>::empty());
        assert(q.to_guest =~= seq![verdict_bytes(true)]);
        assert(q.verdict_under_way(play));
    }
}

/// When the guest reads, the pair stays in step.
proof fn lemma_guest_reads<B>(
    p: Pair<B>,
    legal: spec_fn(B, Move_channel) -> bool,
    play: spec_fn(B, Move_channel) -> B,
)
    requires
        p.in_step(legal, play),
        p.allows(Act::GuestReads, legal),
    ensures
        p.after(Act::GuestReads, legal, play).in_step(legal, play),
{
    let q = p.after(Act::GuestReads, legal, play);
    lemma_request_read();
    lemma_verdict_read(true);
    lemma_welcome_read(p.host.white);
    if p.answer_under_way() {
        assert(q.to_guest =~= Seq::<Seq<u8>>::empty());
        if p.host.white {
            assert(q.hosts_turn());
        } else {
            assert(q.guests_turn());
        }
    } else if p.answer_and_move_under_way(legal, play) {
        assert(q.to_guest =~= seq![p.to_guest[1]]);
        assert(q.move_under_way(legal, play));
    } else if p.verdict_under_way(play) {
        assert(p.to_guest[0] == verdict_bytes(true));
        assert(q.to_guest =~= Seq::<Seq<u8>>::empty());
        assert(q.hosts_turn());
    } else if p.verdict_and_move_under_way(legal, play) {
        assert(q.to_guest =~= seq![p.to_guest[1]]);
        assert(q.move_under_way(legal, play));
    } else {
        assert(p.move_under_way(legal, play));
        let mv = move_asked_s2c(p.to_guest[0]).unwrap();
        lemma_broadcast_read(mv);
        assert(q.to_guest =~= Seq::<Seq<u8>>::empty());
        assert(q.guests_turn());
    }
}

/// When the guest's player submits a move, the pair stays in step.
proof fn lemma_guest_submits<B>(
    p: Pair<B>,
    mv: Move_channel,
    legal: spec_fn(B, Move_channel) -> bool,
    play: spec_fn(B, Move_channel) -> B,
)
    requires
        p.in_step(legal, play),
        p.allows(Act::GuestSubmits(mv), legal),
    ensures
        p.after(Act::GuestSubmits(mv), legal, play).in_step(legal, play),
{
    let q = p.after(Act::GuestSubmits(mv), legal, play);
    lemma_request_read();
    lemma_verdict_read(true);
    lemma_welcome_read(p.host.white);
    if p.guests_turn() && on_board(mv.from) && on_board(mv.to) {
        lemma_proposal_read(mv);
        assert(q.to_host =~= seq![proposal_bytes(mv)]);
        assert(q.proposal_under_way(legal));
    } else {
        assert(q == p);
    }
}

/// When the host's player submits a move, the pair stays in step.
proof fn lemma_host_submits<B>(
    p: Pair<B>,
    mv: Move_channel,
    legal: spec_fn(B, Move_channel) -> bool,
    play: spec_fn(B, Move_channel) -> B,
)
    requires
        p.in_step(legal, play),
        p.allows(Act::HostSubmits(mv), legal),
    ensures
        p.after(Act::HostSubmits(mv), legal, play).in_step(legal, play),
{
    let q = p.after(Act::HostSubmits(mv), legal, play);
    lemma_request_read();
    lemma_verdict_read(true);
    lemma_welcome_read(p.host.white);
    if p.host.state == NET_STATE::MY_TURN && on_board(mv.from) && on_board(mv.to) {
        lemma_broadcast_read(mv);
        if p.answer_under_way() {
            assert(q.to_guest =~= seq![p.to_guest[0], broadcast_bytes(mv)]);
            assert(q.answer_and_move_under_way(legal, play));
        } else if p.hosts_turn() {
            assert(q.to_guest =~= seq![broadcast_bytes(mv)]);
            assert(q.move_under_way(legal, play));
        } else {
            assert(p.verdict_under_way(play));
            assert(q.to_guest =~= seq![p.to_guest[0], broadcast_bytes(mv)]);
            assert(q.verdict_and_move_under_way(legal, play));
        }
    } else {
        assert(q == p);
    }
}

/// Whatever the two programs do, under what is taken for granted, the pair
/// stays in step.
pub proof fn lemma_stays_in_step<B>(
    p: Pair<B>,
    act: Act,
    legal: spec_fn(B, Move_channel) -> bool,
    play: spec_fn(B, Move_channel) -> B,
)
    requires
        p.in_step(legal, play),
        p.allows(act, legal),
    ensures
        p.after(act, legal, play).in_step(legal, play),
{
    match act {
        Act::GuestAsks => lemma_guest_asks(p, legal, play),
        Act::HostReads => lemma_host_reads(p, legal, play),
        Act::GuestReads => lemma_guest_reads(p, legal, play),
        Act::GuestSubmits(mv) => lemma_guest_submits(p, mv, legal, play),
        Act::HostSubmits(mv) => lemma_host_submits(p, mv, legal, play),
    }
}

} // verus!
