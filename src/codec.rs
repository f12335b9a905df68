//! Length-delimited framing: each message body is preceded by its length as a
//! LEB128 varint.

use vstd::prelude::*;
use crate::search::first_index;

verus! {

/// The LEB128 encoding of `v`: seven bits per byte, low bits first, the high
/// bit set on every byte but the last.
pub open spec fn varint_bytes(v: nat) -> Seq<u8>
    decreases v,
{
    if v < 128 {
        seq![v as u8]
    } else {
        seq![(v % 128 + 128) as u8] + varint_bytes(v / 128)
    }
}

/// The number that the LEB128 bytes `b` stand for.
pub open spec fn varint_value(b: Seq<u8>) -> nat
    decreases b.len(),
{
    if b.len() == 0 {
        0
    } else {
        (b[0] % 128) as nat + 128 * varint_value(b.drop_first())
    }
}

pub open spec fn is_last_byte() -> spec_fn(u8) -> bool {
    |b: u8| b < 128
}

/// The length of the varint at the front of `b`, when one is there, ends
/// within ten bytes and fits in 64 bits.
pub open spec fn varint_len(b: Seq<u8>) -> Option<int> {
    match first_index(b, is_last_byte()) {
        Some(i) => if i < 9 || (i == 9 && b[9] < 2) {
            Some(i + 1)
        } else {
            None
        },
        None => None,
    }
}

/// Where the body of the frame at the front of `b` starts and ends, when the
/// whole frame is there.
pub open spec fn frame_at(b: Seq<u8>) -> Option<(int, int)> {
    match varint_len(b) {
        Some(c) => {
            let n = varint_value(b.take(c));
            if c + n <= b.len() {
                Some((c, c + n))
            } else {
                None
            }
        },
        None => None,
    }
}

/// Twice the largest number of `k` LEB128 bytes whose last byte is 0 or 1.
pub open spec fn varint_cap(k: nat) -> nat
    decreases k,
{
    if k <= 1 {
        2
    } else {
        128 * varint_cap((k - 1) as nat)
    }
}

/// The encoding of `n` ends in its only byte without the high bit, stands for
/// `n`, and is no longer than `k` bytes when `n` is below `varint_cap(k)`, with
/// a last byte of 0 or 1 when it takes all `k`.
proof fn lemma_varint_bytes(n: nat, k: nat)
    requires
        k >= 1,
        n < varint_cap(k),
    ensures
        ({
            let b = varint_bytes(n);
            &&& 1 <= b.len() <= k
            &&& b[b.len() - 1] < 128
            &&& forall|i: int| 0 <= i < b.len() - 1 ==> b[i] >= 128
            &&& varint_value(b) == n
            &&& b.len() == k ==> b[b.len() - 1] < 2
        }),
    decreases n,
{
    let b = varint_bytes(n);
    if n < 128 {
        assert(b.drop_first() =~= Seq::<u8>::empty());
        assert(b[0] == n);
        assert(varint_value(b.drop_first()) == 0);
        assert(varint_value(b) == n);
        if k == 1 {
            assert(varint_cap(k) == 2);
        }
    } else {
        assert(k > 1) by {
            if k <= 1 {
                assert(varint_cap(k) == 2);
            }
        }
        let m = n / 128;
        assert(varint_cap(k) == 128 * varint_cap((k - 1) as nat));
        assert(m < varint_cap((k - 1) as nat)) by (nonlinear_arith)
            requires
                n < 128 * varint_cap((k - 1) as nat),
                m == n / 128,
        ;
        lemma_varint_bytes(m, (k - 1) as nat);
        let t = varint_bytes(m);
        assert(b == seq![(n % 128 + 128) as u8] + t);
        assert(b.drop_first() =~= t);
        assert(b[0] == n % 128 + 128);
        assert(n == n % 128 + 128 * m);
        assert(varint_value(b) == n);
        assert(b.len() == t.len() + 1);
        assert(b[b.len() - 1] == t[t.len() - 1]);
        assert forall|i: int| 0 <= i < b.len() - 1 implies b[i] >= 128 by {
            if i > 0 {
                assert(b[i] == t[i - 1]);
            }
        }
    }
}

/// A framed body is found again at the front of its frame, whatever follows.
pub proof fn lemma_frame_round_trip(body: Seq<u8>, rest: Seq<u8>)
    requires
        body.len() <= u64::MAX,
    ensures
        ({
            let prefix = varint_bytes(body.len());
            frame_at(prefix + body + rest) == Some(
                (prefix.len() as int, (prefix.len() + body.len()) as int),
            )
        }),
{
    let prefix = varint_bytes(body.len());
    let b = prefix + body + rest;
    reveal_with_fuel(varint_cap, 10);
    assert(varint_cap(10) == 0x1_0000_0000_0000_0000);
    lemma_varint_bytes(body.len(), 10);
    let c = prefix.len() as int;
    assert forall|j: int| 0 <= j < c - 1 implies !is_last_byte()(#[trigger] b[j]) by {
        assert(b[j] == prefix[j]);
    }
    assert(b[c - 1] == prefix[c - 1]);
    crate::search::lemma_first_index_at(b, is_last_byte(), c - 1);
    assert(b.take(c) =~= prefix);
}

/// Relies on `prost::encoding::encode_varint`, which appends the LEB128 bytes
/// of the value to a vector.
#[verifier::external_body]
fn put_varint(v: u64, dst: &mut Vec<u8>)
    requires
        old(dst)@.len() + 10 <= isize::MAX,
    ensures
        final(dst)@ == old(dst)@ + varint_bytes(v as nat),
{
    prost::encoding::encode_varint(v, dst)
}

/// Relies on `prost::encoding::decode_varint`, which reads a LEB128 integer of
/// at most ten bytes from the front of a slice; gives the value and the number
/// of bytes after it.
#[verifier::external_body]
fn read_varint(bytes: &[u8]) -> (r: Option<(u64, usize)>)
    ensures
        match r {
            Some((v, rest)) => varint_len(bytes@) matches Some(c) && rest == bytes@.len() - c && v
                == varint_value(bytes@.take(c)),
            None => varint_len(bytes@) is None,
        },
{
    let mut rest: &[u8] = bytes;
    match prost::encoding::decode_varint(&mut rest) {
        Ok(v) => Some((v, rest.len())),
        Err(_) => None,
    }
}

/// Cuts a byte stream into frames and frames message bodies.
pub struct MessageCodec {}

impl MessageCodec {
    pub fn new() -> (r: MessageCodec) {
        MessageCodec {  }
    }

    /// The start and end of the body of the frame at the front of `src`, or
    /// `None` when no complete frame is there yet or the length is corrupt.
    pub fn decode(&mut self, src: &[u8]) -> (r: Option<(usize, usize)>)
        ensures
            match r {
                Some((start, end)) => frame_at(src@) == Some((start as int, end as int)),
                None => frame_at(src@) is None,
            },
    {
        match read_varint(src) {
            Some((v, rest)) => {
                let start = src.len() - rest;
                if v <= rest as u64 {
                    Some((start, start + v as usize))
                } else {
                    None
                }
            },
            None => None,
        }
    }

    /// Appends the frame of `body` to `dst`.
    pub fn encode(&mut self, body: &[u8], dst: &mut Vec<u8>)
        requires
            old(dst)@.len() + 10 + body@.len() <= isize::MAX,
        ensures
            final(dst)@ == old(dst)@ + varint_bytes(body@.len()) + body@,
    {
        put_varint(body.len() as u64, dst);
        let ghost mid = dst@;
        let mut i: usize = 0;
        while i < body.len()
            invariant
                0 <= i <= body@.len(),
                dst@ == mid + body@.take(i as int),
            decreases body@.len() - i,
        {
            dst.push(body[i]);
            i = i + 1;
            assert(dst@ =~= mid + body@.take(i as int));
        }
        assert(body@.take(i as int) =~= body@);
    }
}

} // verus!
