//! What holds of every session, whatever happens to it.
use crate::c2s::{c2s_decoding, C2sMessage};
use crate::message::Move;
use crate::s2c::{s2c_decoding, ConnectAckView, S2cView};
use crate::session::{
    board_after, board_move, wire_move, Effects, Event, NetError, SessionView, NET_STATE, NET_TYPE,
};
use crate::square::{on_board, Move_channel};
use vstd::prelude::*;

verus! {

/// A move on the board, put on the wire and taken off again, is the same
/// move; on the wire its squares lie on the board. A move on the wire with
/// its squares on the board and no promotion, taken off the wire and put on
/// again, is the same move.
pub proof fn lemma_wire_and_board_moves(on_board_move: Move_channel, on_wire: Move)
    ensures
        on_board(on_board_move.from) && on_board(on_board_move.to) ==> wire_move(
            on_board_move,
        ).valid() && board_move(wire_move(on_board_move)) == on_board_move,
        on_wire.valid() ==> on_board(board_move(on_wire).from) && on_board(
            board_move(on_wire).to,
        ),
        on_wire.valid() && on_wire.promotion is None ==> wire_move(board_move(on_wire))
            == on_wire,
{
}

/// No event turns a host into a guest or a guest into a host.
pub proof fn lemma_role_never_changes(s: SessionView, event: Event)
    ensures
        s.step(event).0.typ == s.typ,
{
}

/// The law of well-formedness for the events that carry no bytes.
proof fn lemma_well_formed_without_bytes(s: SessionView, event: Event)
    requires
        s.wf(),
        !(event is BytesFromGuest),
        !(event is BytesFromHost),
    ensures
        s.step(event).0.wf(),
{
}

/// A session as it is made is well formed, and a session that is well formed
/// stays so under every event.
pub proof fn lemma_well_formed_always(s: SessionView, event: Event, typ: NET_TYPE, white: bool)
    ensures
        SessionView::fresh(typ, white).wf(),
        s.wf() ==> s.step(event).0.wf(),
{
    if s.wf() && s.fault is None {
        match event {
            Event::BytesFromGuest(bytes, legal) => {
                if s.typ == NET_TYPE::SERVER {
                    match c2s_decoding(bytes) {
                        Some(C2sMessage::Move(mv)) => {
                            lemma_well_formed_without_bytes(s, Event::MoveFromGuest(mv, legal));
                        },
                        Some(C2sMessage::ConnectRequest(_)) => {
                            lemma_well_formed_without_bytes(s, Event::ConnectRequestReceived);
                        },
                        _ => {},
                    }
                }
            },
            Event::BytesFromHost(bytes, legal) => {
                if s.typ == NET_TYPE::CLIENT {
                    match s2c_decoding(bytes) {
                        Some(S2cView::Move(mv)) => {
                            lemma_well_formed_without_bytes(s, Event::MoveFromHost(mv, legal));
                        },
                        Some(S2cView::ConnectAck(ack)) => {
                            lemma_well_formed_without_bytes(s, Event::ConnectAck(ack));
                        },
                        Some(S2cView::MoveAck(ack)) => {
                            lemma_well_formed_without_bytes(s, Event::MoveAck(ack.legal));
                        },
                        _ => {},
                    }
                }
            },
            _ => {
                lemma_well_formed_without_bytes(s, event);
            },
        }
    }
}

/// A session that has failed stays as it is: every event gives the same fault
/// again, changes nothing, applies nothing and sends nothing.
pub proof fn lemma_fault_is_final(s: SessionView, event: Event)
    requires
        s.fault is Some,
    ensures
        s.step(event) == (s, Err::<Effects, NetError>(s.fault.unwrap())),
{
}

/// What a failing step may do to a session: nothing if the failure is the
/// rejection of a local submission, else set the fault and nothing more.
pub open spec fn failed_as(s: SessionView, after: SessionView, result: Result<
    Effects,
    NetError,
>) -> bool {
    match result {
        Err(e) => after == if e == NetError::Rejected {
            s
        } else {
            s.fail(e).0
        },
        Ok(_) => after.fault is None,
    }
}

/// The law of failures for the events that carry no bytes.
proof fn lemma_failures_without_bytes(s: SessionView, event: Event)
    requires
        s.fault is None,
        !(event is BytesFromGuest),
        !(event is BytesFromHost),
    ensures
        failed_as(s, s.step(event).0, s.step(event).1),
{
}

/// An event that fails leaves the session as it was, but for the fault it
/// sets. Every failure sets the fault except the rejection of a local
/// submission, and only a failure sets a fault.
pub proof fn lemma_failures(s: SessionView, event: Event)
    requires
        s.fault is None,
    ensures
        failed_as(s, s.step(event).0, s.step(event).1),
{
    match event {
        Event::BytesFromGuest(bytes, legal) => {
            if s.typ == NET_TYPE::SERVER {
                match c2s_decoding(bytes) {
                    Some(C2sMessage::Move(mv)) => {
                        lemma_failures_without_bytes(s, Event::MoveFromGuest(mv, legal));
                    },
                    Some(C2sMessage::ConnectRequest(_)) => {
                        lemma_failures_without_bytes(s, Event::ConnectRequestReceived);
                    },
                    _ => {},
                }
            }
        },
        Event::BytesFromHost(bytes, legal) => {
            if s.typ == NET_TYPE::CLIENT {
                match s2c_decoding(bytes) {
                    Some(S2cView::Move(mv)) => {
                        lemma_failures_without_bytes(s, Event::MoveFromHost(mv, legal));
                    },
                    Some(S2cView::ConnectAck(ack)) => {
                        lemma_failures_without_bytes(s, Event::ConnectAck(ack));
                    },
                    Some(S2cView::MoveAck(ack)) => {
                        lemma_failures_without_bytes(s, Event::MoveAck(ack.legal));
                    },
                    _ => {},
                }
            }
        },
        _ => {
            lemma_failures_without_bytes(s, event);
        },
    }
}

/// A guest holds back at most one move: while one is held back, a further
/// submission is rejected, the session stays as it is, the move held back
/// stays the same, and nothing is sent.
pub proof fn lemma_one_move_held_back(s: SessionView, mv: Move_channel)
    requires
        s.typ == NET_TYPE::CLIENT,
        s.mv_cache is Some,
    ensures
        s.step(Event::Submit(mv)).0 == s,
        s.step(Event::Submit(mv)).1 is Err,
{
}

/// Only the submission of a move on the guest's own turn, with nothing held
/// back, makes a guest hold a move back; and that move is then the one
/// submitted.
pub proof fn lemma_held_back_is_submitted(s: SessionView, event: Event)
    requires
        s.typ == NET_TYPE::CLIENT,
        s.step(event).0.mv_cache is Some,
        s.step(event).0.mv_cache != s.mv_cache,
    ensures
        s.mv_cache is None,
        s.state == NET_STATE::MY_TURN,
        event matches Event::Submit(mv) && s.step(event).0.mv_cache == Some(mv),
{
}

/// When a guest takes the host's verdict "legal", its board becomes what the
/// rule engine makes of the board before and the move held back, and nothing
/// is held back any more. `play` stands for the rule engine, `board` for the
/// board before.
pub proof fn lemma_legal_verdict_applies_held_move<B>(
    s: SessionView,
    board: B,
    play: spec_fn(B, Move_channel) -> B,
)
    requires
        s.typ == NET_TYPE::CLIENT,
        s.step(Event::MoveAck(true)).1 is Ok,
    ensures
        s.mv_cache is Some,
        board_after(board, play, s.step(Event::MoveAck(true)).1) == play(
            board,
            s.mv_cache.unwrap(),
        ),
        s.step(Event::MoveAck(true)).0.mv_cache is None,
{
}

/// When a guest takes the host's verdict "not legal", its board stays as it
/// is, nothing is held back any more, and it is the guest's turn again.
pub proof fn lemma_illegal_verdict_drops_held_move<B>(
    s: SessionView,
    board: B,
    play: spec_fn(B, Move_channel) -> B,
)
    requires
        s.typ == NET_TYPE::CLIENT,
        s.step(Event::MoveAck(false)).1 is Ok,
    ensures
        board_after(board, play, s.step(Event::MoveAck(false)).1) == board,
        s.step(Event::MoveAck(false)).0.mv_cache is None,
        s.step(Event::MoveAck(false)).0.state == NET_STATE::MY_TURN,
{
}

/// A move of the other side that the local rule engine rejects is never
/// applied: the step fails, the session has a fault from then on, and the
/// board stays as it is. This holds for the move handed over as a message and
/// for the bytes that carry it, for guest and host alike.
pub proof fn lemma_rejected_move_never_applied<B>(
    s: SessionView,
    mv: Move,
    bytes: Seq<u8>,
    board: B,
    play: spec_fn(B, Move_channel) -> B,
)
    ensures
        s.step(Event::MoveFromHost(mv, false)).1 is Err,
        s.step(Event::MoveFromHost(mv, false)).0.fault is Some,
        board_after(board, play, s.step(Event::MoveFromHost(mv, false)).1) == board,
        s.step(Event::MoveFromGuest(mv, false)).1 is Err,
        s.step(Event::MoveFromGuest(mv, false)).0.fault is Some,
        board_after(board, play, s.step(Event::MoveFromGuest(mv, false)).1) == board,
        s2c_decoding(bytes) == Some(S2cView::Move(mv)) ==> s.step(
            Event::BytesFromHost(bytes, false),
        ).1 is Err && s.step(Event::BytesFromHost(bytes, false)).0.fault is Some,
{
}

/// A move of the other side reaches the board only where the rule engine
/// called it legal: whatever bytes or message arrive with the word "not
/// legal", the board changes only by a guest's own held-back move.
pub proof fn lemma_board_changes_only_by_legal_moves(s: SessionView, event: Event)
    requires
        s.step(event).1 matches Ok(effects) && effects.applied is Some,
    ensures
        match event {
            Event::MoveAck(legal) => legal && s.step(event).1.unwrap().applied == s.mv_cache,
            Event::MoveFromHost(mv, legal) => legal && mv.valid(),
            Event::MoveFromGuest(mv, legal) => legal && mv.valid(),
            Event::Submit(mv) => s.typ == NET_TYPE::SERVER && s.step(event).1.unwrap().applied
                == Some(mv),
            Event::BytesFromGuest(bytes, legal) => legal,
            Event::BytesFromHost(bytes, legal) => legal || (s2c_decoding(bytes) matches Some(
                S2cView::MoveAck(ack),
            ) && ack.legal),
            _ => false,
        },
{
}

/// A message that arrives out of turn is a fatal breach of the protocol: a
/// move or a verdict for a side that is on its own turn, the verdict "legal"
/// for a guest that holds nothing back, an answer to a request for a guest
/// that is already in.
pub proof fn lemma_out_of_turn_is_fatal(
    s: SessionView,
    mv: Move,
    legal: bool,
    ack: ConnectAckView,
)
    requires
        s.fault is None,
    ensures
        s.state == NET_STATE::MY_TURN ==> s.step(Event::MoveFromGuest(mv, legal)) == s.fail(
            NetError::Protocol,
        ) && s.step(Event::MoveFromHost(mv, legal)) == s.fail(NetError::Protocol),
        s.state == NET_STATE::MY_TURN ==> s.step(Event::MoveAck(legal)) == s.fail(
            NetError::Protocol,
        ),
        s.mv_cache is None ==> s.step(Event::MoveAck(true)) == s.fail(NetError::Protocol),
        s.state != NET_STATE::NOT_ESTABLISHED ==> s.step(Event::ConnectAck(ack)) == s.fail(
            NetError::Protocol,
        ),
{
}

} // verus!
