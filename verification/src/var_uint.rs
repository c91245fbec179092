//! Stop-bit variable-length unsigned integers.
//!
//! A value is written as its 7-bit groups, the most significant first. The
//! last byte carries the stop bit (`0x80`); the bytes before it do not. Zero
//! is the single byte `0x80`.
use crate::buf::reversed;
use vstd::prelude::*;

verus! {

/// The 7-bit groups of `v`, most significant first; none for zero.
pub open spec fn groups(v: nat) -> Seq<u8>
    decreases v,
{
    if v == 0 {
        Seq::empty()
    } else {
        groups(v / 128).push((v % 128) as u8)
    }
}

/// The bytes that stand for `v` on the wire.
pub open spec fn encoding(v: u64) -> Seq<u8> {
    groups(v as nat / 128).push((v % 128 + 128) as u8)
}

/// Whether `b` carries the stop bit, which ends a value.
pub open spec fn is_stop(b: u8) -> bool {
    b >= 128
}

/// The number of bytes that the first value in `s` takes, its stop byte
/// included; zero where `s` holds no stop byte.
pub open spec fn first_len(s: Seq<u8>) -> nat
    decreases s.len(),
{
    if s.len() == 0 {
        0
    } else if is_stop(s[0]) {
        1
    } else {
        let rest = first_len(s.skip(1));
        if rest == 0 {
            0
        } else {
            rest + 1
        }
    }
}

/// What the bytes of `s` accumulate to, seven bits from each, the first
/// byte weighing most. Bits pushed beyond the 64th are lost.
pub open spec fn value_of(s: Seq<u8>) -> nat
    decreases s.len(),
{
    if s.len() == 0 {
        0
    } else {
        ((value_of(s.drop_last()) * 128 + s.last() % 128) % 0x1_0000_0000_0000_0000) as nat
    }
}

/// The first value in `s` with the number of bytes it takes, or `None`
/// where `s` ends before a stop byte.
pub open spec fn decoding(s: Seq<u8>) -> Option<(u64, int)> {
    let n = first_len(s);
    if n == 0 {
        None
    } else {
        Some((value_of(s.take(n as int)) as u64, n as int))
    }
}

/// A value takes no more bytes than there are.
pub proof fn lemma_first_len_bound(s: Seq<u8>)
    ensures
        first_len(s) <= s.len(),
    decreases s.len(),
{
    if s.len() > 0 {
        lemma_first_len_bound(s.skip(1));
    }
}

/// `first_len` finds the first stop byte: where `s[n]` is the first byte
/// with the stop bit, the value takes `n + 1` bytes.
pub proof fn lemma_first_len_at(s: Seq<u8>, n: int)
    requires
        0 <= n < s.len(),
        is_stop(s[n]),
        forall|i: int| 0 <= i < n ==> !is_stop(#[trigger] s[i]),
    ensures
        first_len(s) == n + 1,
    decreases n,
{
    if n > 0 {
        let t = s.skip(1);
        assert(t[n - 1] == s[n]);
        assert forall|i: int| 0 <= i < n - 1 implies !is_stop(#[trigger] t[i]) by {
            assert(t[i] == s[i + 1]);
        }
        lemma_first_len_at(t, n - 1);
    }
}

/// What `first_len` says of the bytes: where it is zero no byte has the
/// stop bit, and otherwise its last byte is the first that has it.
pub proof fn lemma_first_len_means(s: Seq<u8>)
    ensures
        first_len(s) == 0 ==> forall|i: int| 0 <= i < s.len() ==> !is_stop(#[trigger] s[i]),
        first_len(s) > 0 ==> {
            &&& first_len(s) <= s.len()
            &&& is_stop(s[first_len(s) - 1])
            &&& forall|i: int| 0 <= i < first_len(s) - 1 ==> !is_stop(#[trigger] s[i])
        },
    decreases s.len(),
{
    if s.len() > 0 && !is_stop(s[0]) {
        let t = s.skip(1);
        lemma_first_len_means(t);
        if first_len(t) == 0 {
            assert forall|i: int| 0 <= i < s.len() implies !is_stop(#[trigger] s[i]) by {
                if i > 0 {
                    assert(s[i] == t[i - 1]);
                }
            }
        } else {
            assert(s[first_len(s) - 1] == t[first_len(t) - 1]);
            assert forall|i: int| 0 <= i < first_len(s) - 1 implies !is_stop(#[trigger] s[i]) by {
                if i > 0 {
                    assert(s[i] == t[i - 1]);
                }
            }
        }
    }
}

/// What follows a value does not change it: where `s` starts with a whole
/// value, so does `s` with more behind it, and it is the same value.
pub proof fn lemma_decoding_extends(s: Seq<u8>, more: Seq<u8>)
    requires
        decoding(s) is Some,
    ensures
        decoding(s + more) == decoding(s),
{
    lemma_first_len_means(s);
    let n = first_len(s) as int;
    let t = s + more;
    assert(t[n - 1] == s[n - 1]);
    assert forall|i: int| 0 <= i < n - 1 implies !is_stop(#[trigger] t[i]) by {
        assert(t[i] == s[i]);
    }
    lemma_first_len_at(t, n - 1);
    assert(t.take(n) =~= s.take(n));
}

/// Without a stop byte there is no value.
pub proof fn lemma_first_len_none(s: Seq<u8>)
    requires
        forall|i: int| 0 <= i < s.len() ==> !is_stop(#[trigger] s[i]),
    ensures
        first_len(s) == 0,
    decreases s.len(),
{
    if s.len() > 0 {
        let t = s.skip(1);
        assert forall|i: int| 0 <= i < t.len() implies !is_stop(#[trigger] t[i]) by {
            assert(t[i] == s[i + 1]);
        }
        lemma_first_len_none(t);
    }
}

/// Shifts seven more bits, those of `byte`, into `value`.
pub fn push_group(value: u64, byte: u8) -> (next: u64)
    ensures
        next == (value * 128 + byte % 128) % 0x1_0000_0000_0000_0000,
{
    let next: u64 = (value << 7) | ((byte & 0x7f) as u64);
    assert(next == (value * 128 + byte % 128) % 0x1_0000_0000_0000_0000) by (bit_vector)
        requires
            next == (value << 7) | ((byte & 0x7f) as u64),
    ;
    next
}

/// Tells whether `byte` ends a value.
pub fn has_stop_bit(byte: u8) -> (stop: bool)
    ensures
        stop == is_stop(byte),
{
    let stop: bool = byte & 0x80 == 0x80;
    assert(stop == (byte >= 128)) by (bit_vector)
        requires
            stop == (byte & 0x80 == 0x80),
    ;
    stop
}

/// Decodes the stop-bit integer at the start of `bytes`.
///
/// Returns the value and the number of bytes it takes, or `None` where
/// `bytes` ends before a stop byte.
pub fn decode(bytes: &[u8]) -> (out: Option<(u64, usize)>)
    ensures
        match out {
            Some((value, len)) => decoding(bytes@) == Some((value, len as int)) && 1 <= len
                <= bytes@.len(),
            None => decoding(bytes@) is None,
        },
{
    let mut value: u64 = 0;
    let mut i: usize = 0;
    while i < bytes.len()
        invariant
            i <= bytes@.len(),
            value == value_of(bytes@.take(i as int)),
            forall|k: int| 0 <= k < i ==> !is_stop(#[trigger] bytes@[k]),
        decreases bytes@.len() - i,
    {
        let byte: u8 = bytes[i];
        value = push_group(value, byte);
        assert(bytes@.take(i + 1).drop_last() =~= bytes@.take(i as int));
        if has_stop_bit(byte) {
            proof {
                lemma_first_len_at(bytes@, i as int);
            }
            return Some((value, i + 1));
        }
        i = i + 1;
    }
    proof {
        lemma_first_len_none(bytes@);
    }
    None
}

/// Encodes `value` as a stop-bit integer.
pub fn encode(value: u64) -> (out: Vec<u8>)
    ensures
        out@ == encoding(value),
{
    let mut rest: u64 = value;
    let mut buf: Vec<u8> = Vec::with_capacity(4);
    let low: u8 = (#[verifier::truncate] ((rest & 0x7f) as u8)) | 0x80;
    assert(low == (value % 128 + 128) as u8) by (bit_vector)
        requires
            low == ((value & 0x7f) as u8) | 0x80,
    ;
    buf.push(low);
    assert(buf@.reverse() =~= seq![low]);
    loop
        invariant
            buf@.len() >= 1,
            encoding(value) == groups(rest as nat / 128) + buf@.reverse(),
        ensures
            encoding(value) == buf@.reverse(),
        decreases rest,
    {
        let prev: u64 = rest;
        rest = rest >> 7;
        assert(rest == prev / 128) by (bit_vector)
            requires
                rest == prev >> 7,
        ;
        if rest == 0 {
            assert(groups(0) =~= Seq::<u8>::empty());
            assert(encoding(value) =~= buf@.reverse());
            break ;
        }
        let group: u8 = #[verifier::truncate] ((rest & 0x7f) as u8);
        assert(group == (rest % 128) as u8) by (bit_vector)
            requires
                group == (rest & 0x7f) as u8,
        ;
        proof {
            let before = buf@;
            assert(before.push(group).reverse() =~= seq![group] + before.reverse());
            assert(groups(rest as nat) == groups(rest as nat / 128).push(group));
            assert(groups(rest as nat / 128).push(group) + before.reverse() =~= groups(
                rest as nat / 128,
            ) + (seq![group] + before.reverse()));
        }
        buf.push(group);
    }
    reversed(buf.as_slice())
}

/// No group carries the stop bit, and the groups accumulate to the number
/// they were cut from, as long as that number leaves room for seven more
/// bits.
proof fn lemma_groups(w: nat)
    requires
        w <= u64::MAX / 128,
    ensures
        forall|i: int| 0 <= i < groups(w).len() ==> !is_stop(#[trigger] groups(w)[i]),
        value_of(groups(w)) == w,
    decreases w,
{
    if w > 0 {
        lemma_groups(w / 128);
        let g = groups(w);
        assert(g.drop_last() =~= groups(w / 128));
        assert(g.last() == (w % 128) as u8);
    }
}

/// Decoding undoes encoding: from the encoding of `v`, whatever follows
/// it, decoding yields `v` and stops right behind it.
pub proof fn lemma_decode_encode(v: u64, rest: Seq<u8>)
    ensures
        decoding(encoding(v) + rest) == Some((v, encoding(v).len() as int)),
{
    let head = groups(v as nat / 128);
    let e = encoding(v);
    let s = e + rest;
    let n = head.len() as int;
    lemma_groups(v as nat / 128);
    assert(s[n] == e[n]);
    assert forall|i: int| 0 <= i < n implies !is_stop(#[trigger] s[i]) by {
        assert(s[i] == head[i]);
    }
    lemma_first_len_at(s, n);
    assert(s.take(n + 1) =~= e);
    assert(e.drop_last() =~= head);
}

} // verus!
