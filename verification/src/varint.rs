//! Base-128 numbers, the unit every field of a message is built from.
//!
//! A number is written seven bits to a byte, lowest bits first; every byte but
//! the last has its top bit set. The bytes are written and read by `prost`;
//! this module states what those two calls do and adds the one thing the
//! reader does not check: that the number was written in its shortest form.
use vstd::prelude::*;

verus! {

/// The error `prost` reports for bytes it cannot read. Opaque here: the
/// library maps it to its own error.
#[verifier::external_type_specification]
#[verifier::external_body]
pub struct ExDecodeError(prost::DecodeError);

/// The shortest base-128 writing of `v`.
pub open spec fn varint_bytes(v: nat) -> Seq<u8>
    decreases v,
{
    if v < 128 {
        seq![v as u8]
    } else {
        seq![(v % 128 + 128) as u8] + varint_bytes(v / 128)
    }
}

/// What a reader of base-128 numbers finds at the front of `s` when it has
/// already taken `depth` bytes of the number: the value of the bytes from here
/// on and how many they are. It stops at the first byte below 128. It gives up
/// where `s` ends before that, where the number would run to an eleventh
/// byte, and where the tenth byte is 2 or more (the number would not fit in
/// 64 bits).
pub open spec fn varint_read(s: Seq<u8>, depth: nat) -> Option<(nat, nat)>
    decreases s.len(),
{
    if s.len() == 0 || depth >= 10 {
        None
    } else if s[0] < 128 {
        if depth == 9 && s[0] >= 2 {
            None
        } else {
            Some((s[0] as nat, 1nat))
        }
    } else {
        match varint_read(s.skip(1), depth + 1) {
            Some((v, n)) => Some(((s[0] - 128 + 128 * v) as nat, n + 1)),
            None => None,
        }
    }
}

/// One more than the largest value that the bytes from the `depth`-th on can
/// still hold.
pub open spec fn varint_room(depth: nat) -> nat
    decreases 9 - depth,
{
    if depth >= 9 {
        2
    } else {
        128 * varint_room(depth + 1)
    }
}

/// From the first byte on there is room for exactly the 64-bit numbers.
pub proof fn lemma_varint_room_whole()
    ensures
        varint_room(0) == 0x1_0000_0000_0000_0000,
{
    reveal_with_fuel(varint_room, 11);
}

/// The shortest writing of a number is never empty, and ends in a zero byte
/// only for the number zero.
pub proof fn lemma_varint_bytes_shape(v: nat)
    ensures
        1 <= varint_bytes(v).len(),
        v < 128 <==> varint_bytes(v).len() == 1,
        v > 0 ==> varint_bytes(v).last() != 0,
    decreases v,
{
    if v >= 128 {
        lemma_varint_bytes_shape(v / 128);
        let head = seq![(v % 128 + 128) as u8];
        let tail = varint_bytes(v / 128);
        assert((head + tail).last() == tail.last());
    }
}

/// The reader takes the shortest writing of a number back to the number,
/// whatever follows it.
pub proof fn lemma_read_written(v: nat, rest: Seq<u8>, depth: nat)
    requires
        depth <= 9,
        v < varint_room(depth),
    ensures
        varint_read(varint_bytes(v) + rest, depth) == Some((v, varint_bytes(v).len())),
    decreases v,
{
    let s = varint_bytes(v) + rest;
    if v < 128 {
        assert(s[0] == v as u8);
    } else {
        let tail = varint_bytes(v / 128);
        assert(s[0] == (v % 128 + 128) as u8);
        assert(s.skip(1) =~= tail + rest);
        assert(depth < 9);
        lemma_read_written(v / 128, rest, depth + 1);
    }
}

/// Where the reader succeeds and the last byte it took is not zero, what it
/// took is the shortest writing of the value, and the value is not zero.
pub proof fn lemma_read_shortest(s: Seq<u8>, depth: nat, v: nat, n: nat)
    requires
        varint_read(s, depth) == Some((v, n)),
        s[n - 1] != 0,
    ensures
        1 <= n <= s.len(),
        s.take(n as int) == varint_bytes(v),
        0 < v < varint_room(depth),
    decreases s.len(),
{
    lemma_read_within(s, depth, v, n);
    if s[0] < 128 {
        assert(s.take(1) =~= seq![s[0]]);
        if depth < 9 {
            lemma_room_at_least_128(depth);
        }
    } else {
        let t = s.skip(1);
        let (tv, tn) = varint_read(t, depth + 1).unwrap();
        lemma_read_within(t, depth + 1, tv, tn);
        assert(t[tn - 1] == s[n - 1]);
        lemma_read_shortest(t, depth + 1, tv, tn);
        assert(s.take(n as int) =~= seq![s[0]] + t.take(tn as int));
        assert(v / 128 == tv);
        assert(v % 128 + 128 == s[0]);
    }
}

/// Where the reader succeeds it took at least one byte and no more than
/// there are.
pub proof fn lemma_read_within(s: Seq<u8>, depth: nat, v: nat, n: nat)
    requires
        varint_read(s, depth) == Some((v, n)),
    ensures
        1 <= n <= s.len(),
        n == 1 ==> v == s[0] && s[0] < 128,
    decreases s.len(),
{
    if s[0] >= 128 {
        let t = s.skip(1);
        let (tv, tn) = varint_read(t, depth + 1).unwrap();
        lemma_read_within(t, depth + 1, tv, tn);
    }
}

/// Before the tenth byte there is room for any single byte's seven bits.
pub proof fn lemma_room_at_least_128(depth: nat)
    requires
        depth < 9,
    ensures
        varint_room(depth) >= 256,
    decreases 9 - depth,
{
    reveal_with_fuel(varint_room, 2);
    if depth < 8 {
        lemma_room_at_least_128(depth + 1);
    }
}

/// Two numbers whose shortest writings both stand at the front of one
/// sequence are the same number.
pub proof fn lemma_varint_front_unique(a: nat, b: nat, s: Seq<u8>)
    requires
        varint_bytes(a).is_prefix_of(s),
        varint_bytes(b).is_prefix_of(s),
    ensures
        a == b,
    decreases a,
{
    let wa = varint_bytes(a);
    let wb = varint_bytes(b);
    assert(wa[0] == s.subrange(0, wa.len() as int)[0]);
    assert(wb[0] == s.subrange(0, wb.len() as int)[0]);
    if a >= 128 {
        let ta = varint_bytes(a / 128);
        let tb = varint_bytes(b / 128);
        let t = s.skip(1);
        assert(ta =~= t.subrange(0, ta.len() as int)) by {
            assert forall|i: int| 0 <= i < ta.len() implies ta[i] == t[i] by {
                assert(wa[i + 1] == ta[i]);
                assert(s.subrange(0, wa.len() as int)[i + 1] == s[i + 1]);
            }
        }
        assert(tb =~= t.subrange(0, tb.len() as int)) by {
            assert forall|i: int| 0 <= i < tb.len() implies tb[i] == t[i] by {
                assert(wb[i + 1] == tb[i]);
                assert(s.subrange(0, wb.len() as int)[i + 1] == s[i + 1]);
            }
        }
        lemma_varint_front_unique(a / 128, b / 128, t);
    }
}

/// `prost::encoding::encode_varint` with a `Vec<u8>` as the buffer: the bytes
/// already there stay, and the shortest base-128 writing of `value` follows
/// them.
#[verifier::external_body]
pub(crate) fn put_varint(value: u64, buf: &mut Vec<u8>)
    ensures
        final(buf)@ == old(buf)@ + varint_bytes(value as nat),
{
    prost::encoding::encode_varint(value, buf)
}

/// `prost::encoding::decode_varint` with a byte slice as the buffer. It reads
/// as `varint_read` says, from the first byte: on success it hands back the
/// value and what is left of the slice after the bytes it took; it fails
/// exactly where `varint_read` gives up.
#[verifier::external_body]
fn take_varint<'a>(buf: &'a [u8]) -> (r: Result<(u64, &'a [u8]), prost::DecodeError>)
    ensures
        match r {
            Ok((value, rest)) => varint_read(buf@, 0) matches Some((v, n)) && value == v
                && n <= buf@.len() && rest@ == buf@.skip(n as int),
            Err(_) => varint_read(buf@, 0) is None,
        },
{
    let mut rest = buf;
    let value = prost::encoding::decode_varint(&mut rest)?;
    Ok((value, rest))
}

/// Reads the number at the front of `buf`: its value and the count of bytes it
/// takes. `None` where no 64-bit number in its shortest writing stands there:
/// the bytes end too early, run on too long, overflow, or pad the number with
/// a zero byte at its end.
pub fn read_varint(buf: &[u8]) -> (r: Option<(u64, usize)>)
    ensures
        match r {
            Some((value, used)) => used <= buf@.len() && buf@.take(used as int) == varint_bytes(
                value as nat,
            ),
            None => forall|v: u64| !(#[trigger] varint_bytes(v as nat)).is_prefix_of(buf@),
        },
{
    match take_varint(buf) {
        Err(_) => {
            proof {
                assert forall|v: u64| !(#[trigger] varint_bytes(v as nat)).is_prefix_of(
                    buf@,
                ) by {
                    lemma_not_front_where_unread(v, buf@);
                }
            }
            None
        },
        Ok((value, rest)) => {
            let used = buf.len() - rest.len();
            if used == 1 || buf[used - 1] != 0 {
                proof {
                    if buf@[used - 1] != 0 {
                        lemma_read_shortest(buf@, 0, value as nat, used as nat);
                    } else {
                        lemma_read_within(buf@, 0, value as nat, used as nat);
                        assert(buf@.take(1) =~= seq![buf@[0]]);
                    }
                }
                Some((value, used))
            } else {
                proof {
                    assert forall|v: u64| !(#[trigger] varint_bytes(v as nat)).is_prefix_of(
                        buf@,
                    ) by {
                        lemma_not_front_where_padded(v, buf@, value as nat, used as nat);
                    }
                }
                None
            }
        },
    }
}

/// Where the reader gives up, no number's shortest writing stands at the front.
proof fn lemma_not_front_where_unread(v: u64, s: Seq<u8>)
    requires
        varint_read(s, 0) is None,
    ensures
        !varint_bytes(v as nat).is_prefix_of(s),
{
    let w = varint_bytes(v as nat);
    if w.is_prefix_of(s) {
        lemma_varint_room_whole();
        assert(s =~= w + s.skip(w.len() as int));
        lemma_read_written(v as nat, s.skip(w.len() as int), 0);
    }
}

/// Where the reader takes more than one byte and the last of them is zero, no
/// number's shortest writing stands at the front.
proof fn lemma_not_front_where_padded(v: u64, s: Seq<u8>, value: nat, used: nat)
    requires
        varint_read(s, 0) == Some((value, used)),
        1 < used <= s.len(),
        s[used - 1] == 0,
    ensures
        !varint_bytes(v as nat).is_prefix_of(s),
{
    let w = varint_bytes(v as nat);
    if w.is_prefix_of(s) {
        lemma_varint_room_whole();
        assert(s =~= w + s.skip(w.len() as int));
        lemma_read_written(v as nat, s.skip(w.len() as int), 0);
        lemma_varint_bytes_shape(v as nat);
        assert(w.last() == s[w.len() - 1]);
    }
}

} // verus!
