//! What both directions share: the move, and the error of every decoder.
//!
//! Every message is a fixed row of fields, in the order of its schema. A field
//! that the schema requires is always written, also when it holds zero or
//! `false`; an optional field is written only when it is there. A decoder
//! accepts exactly what the encoder of the same message can produce. Anything
//! else (bytes that end early, a key that is not the next one of the schema,
//! a missing or repeated field, a square past the board, trailing bytes) is
//! `Malformed`.
use crate::wire::{lemma_u32_field_unique, read_u32_field, u32_field, write_u32_field};
use vstd::prelude::*;
use vstd::slice::slice_subrange;

verus! {

/// Key of `Move::from_square`.
pub const KEY_MOVE_FROM: u8 = 0x08;

/// Key of `Move::to_square`.
pub const KEY_MOVE_TO: u8 = 0x10;

/// Key of `Move::promotion`.
pub const KEY_MOVE_PROMOTION: u8 = 0x18;

/// Key under which a `Move` travels inside a message, in either direction.
pub const KEY_MSG_MOVE: u8 = 0x0a;

/// The bytes are not a message of the kind asked for.
#[derive(Clone, Copy, Debug, PartialEq, Eq)]
pub struct Malformed;

/// The piece a pawn turns into on the last rank.
#[derive(Clone, Copy, Debug, PartialEq, Eq)]
pub enum Promotion {
    Queen,
    Rook,
    Bishop,
    Knight,
}

impl Promotion {
    /// The number that stands for the piece on the wire.
    pub open spec fn code_spec(self) -> u32 {
        match self {
            Promotion::Queen => 0,
            Promotion::Rook => 1,
            Promotion::Bishop => 2,
            Promotion::Knight => 3,
        }
    }

    /// The number that stands for the piece on the wire.
    pub fn code(self) -> (r: u32)
        ensures
            r == self.code_spec(),
    {
        match self {
            Promotion::Queen => 0,
            Promotion::Rook => 1,
            Promotion::Bishop => 2,
            Promotion::Knight => 3,
        }
    }

    /// The piece a wire number stands for, if any.
    pub fn from_code(code: u32) -> (r: Option<Promotion>)
        ensures
            match r {
                Some(p) => p.code_spec() == code,
                None => forall|p: Promotion| #[trigger] p.code_spec() != code,
            },
    {
        if code == 0 {
            Some(Promotion::Queen)
        } else if code == 1 {
            Some(Promotion::Rook)
        } else if code == 2 {
            Some(Promotion::Bishop)
        } else if code == 3 {
            Some(Promotion::Knight)
        } else {
            None
        }
    }
}

/// A move, in either direction: the square a piece leaves, the square it goes
/// to, and what a pawn becomes if it promotes.
#[derive(Clone, Copy, Debug, PartialEq, Eq)]
pub struct Move {
    pub from_square: u32,
    pub to_square: u32,
    pub promotion: Option<Promotion>,
}

/// The bytes of an optional promotion: its field, or nothing.
pub open spec fn promotion_bytes(promotion: Option<Promotion>) -> Seq<u8> {
    match promotion {
        Some(p) => u32_field(KEY_MOVE_PROMOTION, p.code_spec()),
        None => Seq::empty(),
    }
}

/// The bytes of a move.
pub open spec fn move_bytes(m: Move) -> Seq<u8> {
    u32_field(KEY_MOVE_FROM, m.from_square) + u32_field(KEY_MOVE_TO, m.to_square)
        + promotion_bytes(m.promotion)
}

/// The move that a sequence of bytes stands for, if it stands for one.
pub open spec fn move_decoding(bytes: Seq<u8>) -> Option<Move> {
    if exists|m: Move| m.valid() && #[trigger] move_bytes(m) == bytes {
        Some(choose|m: Move| m.valid() && #[trigger] move_bytes(m) == bytes)
    } else {
        None
    }
}

/// A sequence that starts with `a` has `a` at its front and the rest after it.
pub proof fn lemma_front_of_concat(a: Seq<u8>, b: Seq<u8>)
    ensures
        a.is_prefix_of(a + b),
        (a + b).skip(a.len() as int) == b,
        (a + b).take(a.len() as int) == a,
{
    assert(a =~= (a + b).subrange(0, a.len() as int));
    assert((a + b).skip(a.len() as int) =~= b);
}

/// Different moves have different bytes.
pub proof fn lemma_move_bytes_injective(a: Move, b: Move)
    requires
        move_bytes(a) == move_bytes(b),
    ensures
        a == b,
{
    let s = move_bytes(a);
    let fa = u32_field(KEY_MOVE_FROM, a.from_square);
    let fb = u32_field(KEY_MOVE_FROM, b.from_square);
    let ta = u32_field(KEY_MOVE_TO, a.to_square);
    let tb = u32_field(KEY_MOVE_TO, b.to_square);
    let pa = promotion_bytes(a.promotion);
    let pb = promotion_bytes(b.promotion);
    assert(s =~= fa + (ta + pa));
    assert(s =~= fb + (tb + pb));
    lemma_front_of_concat(fa, ta + pa);
    lemma_front_of_concat(fb, tb + pb);
    lemma_u32_field_unique(KEY_MOVE_FROM, a.from_square, b.from_square, s);
    let t = s.skip(fa.len() as int);
    lemma_front_of_concat(ta, pa);
    lemma_front_of_concat(tb, pb);
    lemma_u32_field_unique(KEY_MOVE_TO, a.to_square, b.to_square, t);
    lemma_promotion_bytes_injective(a.promotion, b.promotion);
}

/// Different optional promotions have different bytes.
pub proof fn lemma_promotion_bytes_injective(a: Option<Promotion>, b: Option<Promotion>)
    requires
        promotion_bytes(a) == promotion_bytes(b),
    ensures
        a == b,
{
    match (a, b) {
        (Some(x), Some(y)) => {
            let s = promotion_bytes(a);
            assert(s.is_prefix_of(s));
            lemma_u32_field_unique(KEY_MOVE_PROMOTION, x.code_spec(), y.code_spec(), s);
        },
        (Some(x), None) => {
            assert(promotion_bytes(a).len() > 0);
        },
        (None, Some(y)) => {
            assert(promotion_bytes(b).len() > 0);
        },
        (None, None) => {},
    }
}

/// Decoding the bytes of a move whose squares lie on the board gives the move
/// back.
pub proof fn lemma_move_round_trip(m: Move)
    requires
        m.valid(),
    ensures
        move_decoding(move_bytes(m)) == Some(m),
{
    let bytes = move_bytes(m);
    let found = choose|x: Move| x.valid() && #[trigger] move_bytes(x) == bytes;
    lemma_move_bytes_injective(found, m);
}

impl Move {
    /// Both squares lie on the board.
    pub open spec fn valid(self) -> bool {
        self.from_square < 64 && self.to_square < 64
    }

    /// Whether both squares lie on the board.
    pub fn is_valid(&self) -> (r: bool)
        ensures
            r == self.valid(),
    {
        self.from_square < 64 && self.to_square < 64
    }

    /// The bytes of the move.
    pub fn encode(&self) -> (r: Vec<u8>)
        ensures
            r@ == move_bytes(*self),
    {
        let mut buf: Vec<u8> = Vec::new();
        write_u32_field(&mut buf, KEY_MOVE_FROM, self.from_square);
        write_u32_field(&mut buf, KEY_MOVE_TO, self.to_square);
        match self.promotion {
            Some(p) => {
                write_u32_field(&mut buf, KEY_MOVE_PROMOTION, p.code());
            },
            None => {
                assert(buf@ =~= buf@ + Seq::<u8>::empty());
            },
        }
        assert(buf@ =~= move_bytes(*self));
        buf
    }

    /// The move that `buf` holds, from its first byte to its last.
    pub fn decode(buf: &[u8]) -> (r: Result<Move, Malformed>)
        ensures
            match r {
                Ok(m) => m.valid() && buf@ == move_bytes(m),
                Err(_) => forall|m: Move| m.valid() ==> #[trigger] move_bytes(m) != buf@,
            },
            r.ok() == move_decoding(buf@),
    {
        let r = Move::decode_fields(buf);
        proof {
            match r {
                Ok(m) => {
                    let found = choose|x: Move| x.valid() && #[trigger] move_bytes(x) == buf@;
                    lemma_move_bytes_injective(found, m);
                },
                Err(_) => {},
            }
        }
        r
    }

    fn decode_fields(buf: &[u8]) -> (r: Result<Move, Malformed>)
        ensures
            match r {
                Ok(m) => m.valid() && buf@ == move_bytes(m),
                Err(_) => forall|m: Move| m.valid() ==> #[trigger] move_bytes(m) != buf@,
            },
    {
        let ghost s = buf@;
        let (from_square, n1) = match read_u32_field(buf, KEY_MOVE_FROM) {
            Some(found) => found,
            None => {
                proof {
                    assert forall|m: Move| m.valid() implies #[trigger] move_bytes(m) != s by {
                        if move_bytes(m) == s {
                            lemma_move_parts(m);
                        }
                    }
                }
                return Err(Malformed);
            },
        };
        let rest1 = slice_subrange(buf, n1, buf.len());
        proof {
            assert(s =~= u32_field(KEY_MOVE_FROM, from_square) + rest1@);
            assert forall|m: Move| move_bytes(m) == s implies m.from_square == from_square
                && u32_field(KEY_MOVE_TO, m.to_square) + promotion_bytes(m.promotion)
                == rest1@ by {
                lemma_move_parts(m);
                lemma_u32_field_unique(KEY_MOVE_FROM, m.from_square, from_square, s);
            }
        }
        let (to_square, n2) = match read_u32_field(rest1, KEY_MOVE_TO) {
            Some(found) => found,
            None => {
                proof {
                    assert forall|m: Move| m.valid() implies #[trigger] move_bytes(m) != s by {
                        if move_bytes(m) == s {
                            lemma_front_of_concat(
                                u32_field(KEY_MOVE_TO, m.to_square),
                                promotion_bytes(m.promotion),
                            );
                        }
                    }
                }
                return Err(Malformed);
            },
        };
        let rest2 = slice_subrange(rest1, n2, rest1.len());
        proof {
            assert(rest1@ =~= u32_field(KEY_MOVE_TO, to_square) + rest2@);
            assert forall|m: Move| move_bytes(m) == s implies m.to_square == to_square
                && promotion_bytes(m.promotion) == rest2@ by {
                lemma_front_of_concat(
                    u32_field(KEY_MOVE_TO, m.to_square),
                    promotion_bytes(m.promotion),
                );
                lemma_u32_field_unique(KEY_MOVE_TO, m.to_square, to_square, rest1@);
            }
        }
        let promotion = if rest2.len() == 0 {
            None
        } else {
            match read_u32_field(rest2, KEY_MOVE_PROMOTION) {
                Some((code, n3)) => {
                    proof {
                        assert forall|m: Move| move_bytes(m) == s implies m.promotion is Some
                            && m.promotion.unwrap().code_spec() == code && n3 == rest2@.len() by {
                            let field = promotion_bytes(m.promotion);
                            assert(field.is_prefix_of(field));
                            lemma_u32_field_unique(
                                KEY_MOVE_PROMOTION,
                                m.promotion.unwrap().code_spec(),
                                code,
                                rest2@,
                            );
                        }
                    }
                    if n3 != rest2.len() {
                        return Err(Malformed);
                    }
                    match Promotion::from_code(code) {
                        Some(p) => {
                            assert(rest2@ =~= promotion_bytes(Some(p)));
                            Some(p)
                        },
                        None => {
                            return Err(Malformed);
                        },
                    }
                },
                None => {
                    proof {
                        assert forall|m: Move| m.valid() implies #[trigger] move_bytes(m)
                            != s by {
                            if move_bytes(m) == s {
                                let field = promotion_bytes(m.promotion);
                                assert(field.is_prefix_of(field));
                            }
                        }
                    }
                    return Err(Malformed);
                },
            }
        };
        let m = Move { from_square, to_square, promotion };
        if !m.is_valid() {
            return Err(Malformed);
        }
        assert(s =~= move_bytes(m));
        Ok(m)
    }
}

/// The first field of a move's bytes stands at their front, and the other two
/// follow it.
pub proof fn lemma_move_parts(m: Move)
    ensures
        u32_field(KEY_MOVE_FROM, m.from_square).is_prefix_of(move_bytes(m)),
        move_bytes(m).skip(u32_field(KEY_MOVE_FROM, m.from_square).len() as int) == u32_field(
            KEY_MOVE_TO,
            m.to_square,
        ) + promotion_bytes(m.promotion),
{
    let f = u32_field(KEY_MOVE_FROM, m.from_square);
    let t = u32_field(KEY_MOVE_TO, m.to_square);
    let p = promotion_bytes(m.promotion);
    assert(move_bytes(m) =~= f + (t + p));
    lemma_front_of_concat(f, t + p);
}

} // verus!
