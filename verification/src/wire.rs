//! Fields: a key byte, then a value.
//!
//! Four shapes of field occur in the messages: a truth value (key, then one
//! byte that is 0 or 1), a 32-bit number (key, then the number in base 128),
//! a run of bytes (key, then its length in base 128, then the bytes) and a
//! text (a run of bytes that is the text in UTF-8). The writers append a
//! field to a buffer. The readers look for a field at the front of a slice
//! and accept it only as a writer would have written it.
use crate::varint::{
    lemma_varint_bytes_shape, lemma_varint_front_unique, put_varint, read_varint, varint_bytes,
};
use vstd::prelude::*;
use vstd::slice::{slice_subrange, slice_to_vec};
use vstd::utf8::{
    decode_utf8, decode_utf8_encode_utf8, encode_utf8, encode_utf8_decode_utf8,
    encode_utf8_valid_utf8, valid_utf8,
};

verus! {

/// A truth-value field as it stands on the wire.
pub open spec fn bool_field(key: u8, value: bool) -> Seq<u8> {
    seq![key, if value { 1u8 } else { 0u8 }]
}

/// A number field as it stands on the wire.
pub open spec fn u32_field(key: u8, value: u32) -> Seq<u8> {
    seq![key] + varint_bytes(value as nat)
}

/// A field holding a run of bytes, as it stands on the wire.
pub open spec fn len_field(key: u8, payload: Seq<u8>) -> Seq<u8> {
    seq![key] + varint_bytes(payload.len()) + payload
}

/// A text field as it stands on the wire.
pub open spec fn text_field(key: u8, text: Seq<char>) -> Seq<u8> {
    len_field(key, encode_utf8(text))
}

/// An optional truth-value field: the field, or nothing.
pub open spec fn opt_bool_field(key: u8, value: Option<bool>) -> Seq<u8> {
    match value {
        Some(v) => bool_field(key, v),
        None => Seq::empty(),
    }
}

/// An optional number field: the field, or nothing.
pub open spec fn opt_u32_field(key: u8, value: Option<u32>) -> Seq<u8> {
    match value {
        Some(v) => u32_field(key, v),
        None => Seq::empty(),
    }
}

/// An optional text field: the field, or nothing.
pub open spec fn opt_text_field(key: u8, text: Option<Seq<char>>) -> Seq<u8> {
    match text {
        Some(t) => text_field(key, t),
        None => Seq::empty(),
    }
}

/// Whether a sequence begins with the byte `key`.
pub open spec fn starts_with_key(s: Seq<u8>, key: u8) -> bool {
    s.len() > 0 && s[0] == key
}

/// An optional truth-value field followed by something that does not begin
/// with the same key: the field is there exactly if the whole begins with the
/// key, and then it stands at the front.
pub proof fn lemma_opt_bool_front(key: u8, value: Option<bool>, tail: Seq<u8>)
    requires
        !starts_with_key(tail, key),
    ensures
        value is Some <==> starts_with_key(opt_bool_field(key, value) + tail, key),
        value matches Some(v) ==> bool_field(key, v).is_prefix_of(
            opt_bool_field(key, value) + tail,
        ),
        (opt_bool_field(key, value) + tail).skip(opt_bool_field(key, value).len() as int)
            == tail,
{
    let f = opt_bool_field(key, value);
    assert((f + tail).skip(f.len() as int) =~= tail);
    assert(f =~= (f + tail).subrange(0, f.len() as int));
    if value is None {
        assert(f + tail =~= tail);
    }
}

/// The same for an optional number field.
pub proof fn lemma_opt_u32_front(key: u8, value: Option<u32>, tail: Seq<u8>)
    requires
        !starts_with_key(tail, key),
    ensures
        value is Some <==> starts_with_key(opt_u32_field(key, value) + tail, key),
        value matches Some(v) ==> u32_field(key, v).is_prefix_of(opt_u32_field(key, value) + tail),
        (opt_u32_field(key, value) + tail).skip(opt_u32_field(key, value).len() as int) == tail,
{
    let f = opt_u32_field(key, value);
    assert((f + tail).skip(f.len() as int) =~= tail);
    assert(f =~= (f + tail).subrange(0, f.len() as int));
    if value is None {
        assert(f + tail =~= tail);
    }
}

/// A byte-run field is not empty and starts with its key.
pub proof fn lemma_len_field_head(key: u8, payload: Seq<u8>)
    ensures
        len_field(key, payload).len() >= 2,
        len_field(key, payload)[0] == key,
{
    lemma_varint_bytes_shape(payload.len());
}

/// A sequence that starts with `head` followed by `body` has `head` as its
/// first element and `body` at the front of what follows.
pub proof fn lemma_front_after_head(head: u8, body: Seq<u8>, s: Seq<u8>)
    requires
        (seq![head] + body).is_prefix_of(s),
    ensures
        s.len() >= 1,
        s[0] == head,
        body.is_prefix_of(s.skip(1)),
{
    let whole = seq![head] + body;
    assert(whole[0] == head);
    assert(s.subrange(0, whole.len() as int)[0] == s[0]);
    assert forall|i: int| 0 <= i < body.len() implies body[i] == s.skip(1)[i] by {
        assert(whole[i + 1] == body[i]);
        assert(s.subrange(0, whole.len() as int)[i + 1] == s[i + 1]);
    }
    assert(body =~= s.skip(1).subrange(0, body.len() as int));
}

/// Two number fields with one key that both stand at the front of one
/// sequence hold the same number.
pub proof fn lemma_u32_field_unique(key: u8, a: u32, b: u32, s: Seq<u8>)
    requires
        u32_field(key, a).is_prefix_of(s),
        u32_field(key, b).is_prefix_of(s),
    ensures
        a == b,
{
    lemma_front_after_head(key, varint_bytes(a as nat), s);
    lemma_front_after_head(key, varint_bytes(b as nat), s);
    lemma_varint_front_unique(a as nat, b as nat, s.skip(1));
}

/// Two truth-value fields with one key that both stand at the front of one
/// sequence hold the same value.
pub proof fn lemma_bool_field_unique(key: u8, a: bool, b: bool, s: Seq<u8>)
    requires
        bool_field(key, a).is_prefix_of(s),
        bool_field(key, b).is_prefix_of(s),
    ensures
        a == b,
{
    assert(bool_field(key, a)[1] == s.subrange(0, 2)[1]);
    assert(bool_field(key, b)[1] == s.subrange(0, 2)[1]);
}

/// Two byte-run fields with one key that both stand at the front of one
/// sequence hold the same bytes.
pub proof fn lemma_len_field_unique(key: u8, a: Seq<u8>, b: Seq<u8>, s: Seq<u8>)
    requires
        len_field(key, a).is_prefix_of(s),
        len_field(key, b).is_prefix_of(s),
    ensures
        a == b,
{
    let wa = varint_bytes(a.len());
    let wb = varint_bytes(b.len());
    assert(len_field(key, a) =~= seq![key] + (wa + a));
    assert(len_field(key, b) =~= seq![key] + (wb + b));
    lemma_front_after_head(key, wa + a, s);
    lemma_front_after_head(key, wb + b, s);
    let t = s.skip(1);
    assert(wa.is_prefix_of(t)) by {
        assert(wa =~= (wa + a).subrange(0, wa.len() as int));
        assert(wa =~= t.subrange(0, wa.len() as int));
    }
    assert(wb.is_prefix_of(t)) by {
        assert(wb =~= (wb + b).subrange(0, wb.len() as int));
        assert(wb =~= t.subrange(0, wb.len() as int));
    }
    lemma_varint_front_unique(a.len(), b.len(), t);
    assert(a =~= t.subrange(wa.len() as int, (wa.len() + a.len()) as int)) by {
        assert forall|i: int| 0 <= i < a.len() implies a[i] == t[wa.len() + i] by {
            assert((wa + a)[wa.len() + i] == a[i]);
            assert(t.subrange(0, (wa + a).len() as int)[wa.len() + i] == t[wa.len() + i]);
        }
    }
    assert(b =~= t.subrange(wb.len() as int, (wb.len() + b.len()) as int)) by {
        assert forall|i: int| 0 <= i < b.len() implies b[i] == t[wb.len() + i] by {
            assert((wb + b)[wb.len() + i] == b[i]);
            assert(t.subrange(0, (wb + b).len() as int)[wb.len() + i] == t[wb.len() + i]);
        }
    }
}

/// Two text fields with one key that both stand at the front of one sequence
/// hold the same text.
pub proof fn lemma_text_field_unique(key: u8, a: Seq<char>, b: Seq<char>, s: Seq<u8>)
    requires
        text_field(key, a).is_prefix_of(s),
        text_field(key, b).is_prefix_of(s),
    ensures
        a == b,
{
    lemma_len_field_unique(key, encode_utf8(a), encode_utf8(b), s);
    encode_utf8_decode_utf8(a);
    encode_utf8_decode_utf8(b);
}

/// Appends a truth-value field.
pub fn write_bool_field(buf: &mut Vec<u8>, key: u8, value: bool)
    ensures
        final(buf)@ == old(buf)@ + bool_field(key, value),
{
    buf.push(key);
    buf.push(if value { 1 } else { 0 });
    assert(buf@ =~= old(buf)@ + bool_field(key, value));
}

/// Appends a number field.
pub fn write_u32_field(buf: &mut Vec<u8>, key: u8, value: u32)
    ensures
        final(buf)@ == old(buf)@ + u32_field(key, value),
{
    buf.push(key);
    put_varint(value as u64, buf);
    assert(buf@ =~= old(buf)@ + u32_field(key, value));
}

/// Appends a field holding the bytes of `payload`.
pub fn write_len_field(buf: &mut Vec<u8>, key: u8, payload: &[u8])
    ensures
        final(buf)@ == old(buf)@ + len_field(key, payload@),
{
    buf.push(key);
    put_varint(payload.len() as u64, buf);
    let ghost before = buf@;
    let mut i: usize = 0;
    while i < payload.len()
        invariant
            i <= payload@.len(),
            buf@ == before + payload@.take(i as int),
        decreases payload@.len() - i,
    {
        buf.push(payload[i]);
        i = i + 1;
        assert(buf@ =~= before + payload@.take(i as int));
    }
    assert(payload@.take(i as int) =~= payload@);
    assert(buf@ =~= old(buf)@ + len_field(key, payload@));
}

/// Looks for a truth-value field with this key at the front of `buf`: its
/// value and the count of bytes it takes. `None` where none stands there.
pub fn read_bool_field(buf: &[u8], key: u8) -> (r: Option<(bool, usize)>)
    ensures
        match r {
            Some((value, used)) => used <= buf@.len() && buf@.take(used as int) == bool_field(
                key,
                value,
            ),
            None => forall|v: bool| !(#[trigger] bool_field(key, v)).is_prefix_of(buf@),
        },
{
    if buf.len() >= 2 && buf[0] == key && buf[1] <= 1 {
        let value = buf[1] == 1;
        assert(buf@.take(2) =~= bool_field(key, value));
        Some((value, 2))
    } else {
        proof {
            assert forall|v: bool| !(#[trigger] bool_field(key, v)).is_prefix_of(buf@) by {
                let f = bool_field(key, v);
                if f.is_prefix_of(buf@) {
                    assert(f[0] == buf@.subrange(0, 2)[0]);
                    assert(f[1] == buf@.subrange(0, 2)[1]);
                }
            }
        }
        None
    }
}

/// Looks for a number field with this key at the front of `buf`: its value
/// and the count of bytes it takes. `None` where none stands there.
pub fn read_u32_field(buf: &[u8], key: u8) -> (r: Option<(u32, usize)>)
    ensures
        match r {
            Some((value, used)) => used <= buf@.len() && buf@.take(used as int) == u32_field(
                key,
                value,
            ),
            None => forall|v: u32| !(#[trigger] u32_field(key, v)).is_prefix_of(buf@),
        },
{
    if buf.len() == 0 || buf[0] != key {
        proof {
            assert forall|v: u32| !(#[trigger] u32_field(key, v)).is_prefix_of(buf@) by {
                if u32_field(key, v).is_prefix_of(buf@) {
                    lemma_front_after_head(key, varint_bytes(v as nat), buf@);
                }
            }
        }
        return None;
    }
    let rest = slice_subrange(buf, 1, buf.len());
    match read_varint(rest) {
        Some((value, used)) => {
            if value <= u32::MAX as u64 {
                assert(buf@.take(used + 1) =~= u32_field(key, value as u32)) by {
                    assert(rest@.take(used as int) == varint_bytes(value as nat));
                    assert(buf@.take(used + 1) =~= seq![key] + rest@.take(used as int));
                }
                Some((value as u32, used + 1))
            } else {
                proof {
                    assert forall|v: u32| !(#[trigger] u32_field(key, v)).is_prefix_of(buf@) by {
                        if u32_field(key, v).is_prefix_of(buf@) {
                            lemma_front_after_head(key, varint_bytes(v as nat), buf@);
                            assert(varint_bytes(value as nat).is_prefix_of(rest@));
                            lemma_varint_front_unique(v as nat, value as nat, rest@);
                        }
                    }
                }
                None
            }
        },
        None => {
            proof {
                assert forall|v: u32| !(#[trigger] u32_field(key, v)).is_prefix_of(buf@) by {
                    if u32_field(key, v).is_prefix_of(buf@) {
                        lemma_front_after_head(key, varint_bytes(v as nat), buf@);
                        assert(!varint_bytes((v as u64) as nat).is_prefix_of(rest@));
                    }
                }
            }
            None
        },
    }
}

/// Looks for a byte-run field with this key at the front of `buf`: where in
/// `buf` its bytes start and where they end, which is also the count of bytes
/// the whole field takes. `None` where none stands there.
pub fn read_len_field(buf: &[u8], key: u8) -> (r: Option<(usize, usize)>)
    ensures
        match r {
            Some((start, end)) => start <= end <= buf@.len() && buf@.take(end as int) == len_field(
                key,
                buf@.subrange(start as int, end as int),
            ),
            None => forall|p: Seq<u8>| !(#[trigger] len_field(key, p)).is_prefix_of(buf@),
        },
{
    if buf.len() == 0 || buf[0] != key {
        proof {
            assert forall|p: Seq<u8>| !(#[trigger] len_field(key, p)).is_prefix_of(buf@) by {
                if len_field(key, p).is_prefix_of(buf@) {
                    lemma_len_field_parts(key, p, buf@);
                }
            }
        }
        return None;
    }
    let rest = slice_subrange(buf, 1, buf.len());
    match read_varint(rest) {
        Some((length, used)) => {
            if length <= (rest.len() - used) as u64 {
                let start = used + 1;
                let end = start + length as usize;
                proof {
                    let p = buf@.subrange(start as int, end as int);
                    assert(rest@.take(used as int) == varint_bytes(length as nat));
                    assert(buf@.take(end as int) =~= seq![key] + rest@.take(used as int) + p);
                }
                Some((start, end))
            } else {
                proof {
                    assert forall|p: Seq<u8>| !(#[trigger] len_field(key, p)).is_prefix_of(
                        buf@,
                    ) by {
                        if len_field(key, p).is_prefix_of(buf@) {
                            lemma_len_field_parts(key, p, buf@);
                            assert(varint_bytes(length as nat).is_prefix_of(rest@));
                            lemma_varint_front_unique(p.len(), length as nat, rest@);
                        }
                    }
                }
                None
            }
        },
        None => {
            proof {
                assert forall|p: Seq<u8>| !(#[trigger] len_field(key, p)).is_prefix_of(buf@) by {
                    if len_field(key, p).is_prefix_of(buf@) {
                        lemma_len_field_parts(key, p, buf@);
                        assert(!varint_bytes((p.len() as u64) as nat).is_prefix_of(rest@));
                    }
                }
            }
            None
        },
    }
}

/// `String::from_utf8`: the text that the bytes spell in UTF-8, and `None`
/// exactly where they are not UTF-8.
#[verifier::external_body]
fn string_from_utf8(bytes: Vec<u8>) -> (r: Option<String>)
    ensures
        match r {
            Some(text) => valid_utf8(bytes@) && text@ == decode_utf8(bytes@),
            None => !valid_utf8(bytes@),
        },
{
    match String::from_utf8(bytes) {
        Ok(text) => Some(text),
        Err(_) => None,
    }
}

/// Appends a text field.
pub fn write_text_field(buf: &mut Vec<u8>, key: u8, text: &str)
    ensures
        final(buf)@ == old(buf)@ + text_field(key, text@),
{
    write_len_field(buf, key, text.as_bytes());
}

/// Looks for a text field with this key at the front of `buf`: the text and
/// the count of bytes the field takes. `None` where none stands there, which
/// includes a run of bytes that is not UTF-8.
pub fn read_text_field(buf: &[u8], key: u8) -> (r: Option<(String, usize)>)
    ensures
        match r {
            Some((text, used)) => used <= buf@.len() && buf@.take(used as int) == text_field(
                key,
                text@,
            ),
            None => forall|t: Seq<char>| !(#[trigger] text_field(key, t)).is_prefix_of(buf@),
        },
{
    match read_len_field(buf, key) {
        Some((start, end)) => {
            let run = slice_subrange(buf, start, end);
            match string_from_utf8(slice_to_vec(run)) {
                Some(text) => {
                    proof {
                        decode_utf8_encode_utf8(run@);
                    }
                    Some((text, end))
                },
                None => {
                    proof {
                        assert forall|t: Seq<char>| !(#[trigger] text_field(key, t)).is_prefix_of(
                            buf@,
                        ) by {
                            if text_field(key, t).is_prefix_of(buf@) {
                                assert(buf@.take(end as int).is_prefix_of(buf@));
                                lemma_len_field_unique(key, encode_utf8(t), run@, buf@);
                                encode_utf8_valid_utf8(t);
                            }
                        }
                    }
                    None
                },
            }
        },
        None => None,
    }
}

/// A byte-run field at the front of a sequence: the key comes first, the
/// length in base 128 stands at the front of what follows, and the whole is
/// one byte, the length's bytes and the run long.
pub proof fn lemma_len_field_parts(key: u8, p: Seq<u8>, s: Seq<u8>)
    requires
        len_field(key, p).is_prefix_of(s),
    ensures
        s.len() >= 1,
        s[0] == key,
        varint_bytes(p.len()).is_prefix_of(s.skip(1)),
        1 + varint_bytes(p.len()).len() + p.len() <= s.len(),
{
    let w = varint_bytes(p.len());
    assert(len_field(key, p) =~= seq![key] + (w + p));
    lemma_front_after_head(key, w + p, s);
    assert(w =~= (w + p).subrange(0, w.len() as int));
    assert(w =~= s.skip(1).subrange(0, w.len() as int));
}

} // verus!
