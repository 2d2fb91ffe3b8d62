//! Little-endian 32-bit words over byte sequences: the primitive layer both
//! wire codecs are built on.

use vstd::prelude::*;

verus! {

/// The four little-endian bytes of `x`.
pub open spec fn u32_le(x: u32) -> Seq<u8> {
    seq![
        (x & 0xff) as u8,
        ((x >> 8u32) & 0xff) as u8,
        ((x >> 16u32) & 0xff) as u8,
        ((x >> 24u32) & 0xff) as u8,
    ]
}

/// The u32 with little-endian bytes `b0 b1 b2 b3`.
pub open spec fn u32_of_bytes(b0: u8, b1: u8, b2: u8, b3: u8) -> u32 {
    (b0 as u32) | ((b1 as u32) << 8u32) | ((b2 as u32) << 16u32) | ((b3 as u32) << 24u32)
}

/// Word `i` of `b` read as little-endian u32 (bytes `4*i .. 4*i + 4`).
pub open spec fn u32_at(b: Seq<u8>, i: int) -> u32
    recommends
        0 <= i,
        4 * i + 4 <= b.len(),
{
    u32_of_bytes(b[4 * i], b[4 * i + 1], b[4 * i + 2], b[4 * i + 3])
}

/// The byte sequence laying out each word of `ws` in little-endian order.
pub open spec fn words_bytes(ws: Seq<u32>) -> Seq<u8>
    decreases ws.len(),
{
    if ws.len() == 0 {
        Seq::empty()
    } else {
        u32_le(ws[0]) + words_bytes(ws.drop_first())
    }
}

pub proof fn lemma_words_bytes_len(ws: Seq<u32>)
    ensures
        words_bytes(ws).len() == 4 * ws.len(),
    decreases ws.len(),
{
    if ws.len() > 0 {
        lemma_words_bytes_len(ws.drop_first());
    }
}

/// Reading back the four bytes of a word yields the word.
pub proof fn lemma_u32_le_roundtrip(x: u32)
    ensures
        u32_of_bytes(u32_le(x)[0], u32_le(x)[1], u32_le(x)[2], u32_le(x)[3]) == x,
{
    assert(((x & 0xff) as u8) as u32 | ((((x >> 8u32) & 0xff) as u8) as u32) << 8u32 | ((((x
        >> 16u32) & 0xff) as u8) as u32) << 16u32 | ((((x >> 24u32) & 0xff) as u8) as u32)
        << 24u32 == x) by (bit_vector);
}

/// In a layout that starts with the words of `ws`, word `i` reads back as `ws[i]`.
pub proof fn lemma_words_bytes_index(ws: Seq<u32>, tail: Seq<u8>, i: int)
    requires
        0 <= i < ws.len(),
    ensures
        u32_at(words_bytes(ws) + tail, i) == ws[i],
    decreases i,
{
    lemma_words_bytes_len(ws);
    let whole = words_bytes(ws) + tail;
    if i == 0 {
        assert(whole[0] == u32_le(ws[0])[0]);
        assert(whole[1] == u32_le(ws[0])[1]);
        assert(whole[2] == u32_le(ws[0])[2]);
        assert(whole[3] == u32_le(ws[0])[3]);
        lemma_u32_le_roundtrip(ws[0]);
    } else {
        let rest = ws.drop_first();
        lemma_words_bytes_len(rest);
        lemma_words_bytes_index(rest, tail, i - 1);
        let sub = words_bytes(rest) + tail;
        assert(whole[4 * i] == sub[4 * (i - 1)]);
        assert(whole[4 * i + 1] == sub[4 * (i - 1) + 1]);
        assert(whole[4 * i + 2] == sub[4 * (i - 1) + 2]);
        assert(whole[4 * i + 3] == sub[4 * (i - 1) + 3]);
        assert(ws[i] == rest[i - 1]);
    }
}

/// Writing back the word of four bytes yields those bytes.
pub proof fn lemma_u32_le_of_bytes(b0: u8, b1: u8, b2: u8, b3: u8)
    ensures
        u32_le(u32_of_bytes(b0, b1, b2, b3)) == seq![b0, b1, b2, b3],
{
    let x = u32_of_bytes(b0, b1, b2, b3);
    assert((((b0 as u32) | ((b1 as u32) << 8u32) | ((b2 as u32) << 16u32) | ((b3 as u32)
        << 24u32)) & 0xff) as u8 == b0) by (bit_vector);
    assert(((((b0 as u32) | ((b1 as u32) << 8u32) | ((b2 as u32) << 16u32) | ((b3 as u32)
        << 24u32)) >> 8u32) & 0xff) as u8 == b1) by (bit_vector);
    assert(((((b0 as u32) | ((b1 as u32) << 8u32) | ((b2 as u32) << 16u32) | ((b3 as u32)
        << 24u32)) >> 16u32) & 0xff) as u8 == b2) by (bit_vector);
    assert(((((b0 as u32) | ((b1 as u32) << 8u32) | ((b2 as u32) << 16u32) | ((b3 as u32)
        << 24u32)) >> 24u32) & 0xff) as u8 == b3) by (bit_vector);
    assert(u32_le(x) =~= seq![b0, b1, b2, b3]);
}

/// The words read from a byte sequence lay back out as its prefix.
pub proof fn lemma_words_bytes_of_prefix(b: Seq<u8>, n: int)
    requires
        0 <= n,
        4 * n <= b.len(),
    ensures
        words_bytes(Seq::new(n as nat, |i: int| u32_at(b, i))) == b.take(4 * n),
    decreases n,
{
    let ws = Seq::new(n as nat, |i: int| u32_at(b, i));
    if n == 0 {
        assert(ws =~= Seq::<u32>::empty());
        assert(words_bytes(ws) =~= b.take(0));
    } else {
        let tail = b.skip(4);
        lemma_words_bytes_of_prefix(tail, n - 1);
        let wtail = Seq::new((n - 1) as nat, |i: int| u32_at(tail, i));
        assert forall|i: int| 0 <= i < n - 1 implies ws.drop_first()[i] == wtail[i] by {
            assert(tail[4 * i] == b[4 * (i + 1)]);
            assert(tail[4 * i + 1] == b[4 * (i + 1) + 1]);
            assert(tail[4 * i + 2] == b[4 * (i + 1) + 2]);
            assert(tail[4 * i + 3] == b[4 * (i + 1) + 3]);
        }
        assert(ws.drop_first() =~= wtail);
        lemma_u32_le_of_bytes(b[0], b[1], b[2], b[3]);
        assert(u32_le(ws[0]) == seq![b[0], b[1], b[2], b[3]]);
        assert(words_bytes(ws) == u32_le(ws[0]) + words_bytes(wtail));
        assert(words_bytes(wtail).len() == 4 * (n - 1)) by {
            lemma_words_bytes_len(wtail);
        }
        assert forall|k: int| 0 <= k < 4 * n implies (u32_le(ws[0]) + words_bytes(wtail))[k]
            == b[k] by {
            if k >= 4 {
                assert(words_bytes(wtail)[k - 4] == tail.take(4 * (n - 1))[k - 4]);
                assert(tail[k - 4] == b[k]);
            }
        }
        assert(words_bytes(ws) =~= b.take(4 * n));
    }
}

/// Appending one word to the layout appends its four bytes.
pub proof fn lemma_words_bytes_push(ws: Seq<u32>, x: u32)
    ensures
        words_bytes(ws.push(x)) == words_bytes(ws) + u32_le(x),
    decreases ws.len(),
{
    if ws.len() == 0 {
        assert(ws.push(x).drop_first() =~= ws);
        assert(words_bytes(ws.push(x)) =~= words_bytes(ws) + u32_le(x));
    } else {
        assert(ws.push(x).drop_first() =~= ws.drop_first().push(x));
        lemma_words_bytes_push(ws.drop_first(), x);
        assert(words_bytes(ws.push(x)) =~= words_bytes(ws) + u32_le(x));
    }
}

/// Append `x` to `out` as four little-endian bytes.
pub fn push_u32(out: &mut Vec<u8>, x: u32)
    ensures
        final(out)@ == old(out)@ + u32_le(x),
{
    out.push((x & 0xff) as u8);
    out.push(((x >> 8u32) & 0xff) as u8);
    out.push(((x >> 16u32) & 0xff) as u8);
    out.push(((x >> 24u32) & 0xff) as u8);
    proof {
        assert(out@ =~= old(out)@ + u32_le(x));
    }
}

/// Read word `i` of `b` as a little-endian u32.
pub fn read_u32(b: &[u8], i: usize) -> (r: u32)
    requires
        4 * i + 4 <= b@.len(),
    ensures
        r == u32_at(b@, i as int),
{
    let n: usize = b.len();
    proof {
        assert(4 * i + 4 <= n);
    }
    let p: usize = 4 * i;
    (b[p] as u32) | ((b[p + 1] as u32) << 8u32) | ((b[p + 2] as u32) << 16u32) | ((b[p + 3] as u32)
        << 24u32)
}

} // verus!
