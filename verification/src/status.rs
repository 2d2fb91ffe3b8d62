//! The audit status snapshot: a flat fixed-size record of nine 32-bit
//! attributes plus a mask bitfield saying which attributes the message
//! carries, and its wire codec.

use vstd::prelude::*;

use crate::bytes::{
    lemma_words_bytes_index, lemma_words_bytes_len, push_u32, read_u32, u32_at, words_bytes,
};
use crate::codec::CodecError;

verus! {

// Status mask bits: which attributes a particular message carries.
pub const AUDIT_STATUS_ENABLED: u32 = 1;
pub const AUDIT_STATUS_FAILURE: u32 = 2;
pub const AUDIT_STATUS_PID: u32 = 4;
pub const AUDIT_STATUS_RATE_LIMIT: u32 = 8;
pub const AUDIT_STATUS_BACKLOG_LIMIT: u32 = 16;
pub const AUDIT_STATUS_BACKLOG_WAIT_TIME: u32 = 32;
pub const AUDIT_STATUS_LOST: u32 = 64;

// Feature bitmap bits reported by the kernel.
pub const AUDIT_FEATURE_BITMAP_BACKLOG_LIMIT: u32 = 1;
pub const AUDIT_FEATURE_BITMAP_BACKLOG_WAIT_TIME: u32 = 2;
pub const AUDIT_FEATURE_BITMAP_EXECUTABLE_PATH: u32 = 4;
pub const AUDIT_FEATURE_BITMAP_EXCLUDE_EXTEND: u32 = 8;
pub const AUDIT_FEATURE_BITMAP_SESSIONID_FILTER: u32 = 16;
pub const AUDIT_FEATURE_BITMAP_LOST_RESET: u32 = 32;
pub const AUDIT_FEATURE_BITMAP_FILTER_FS: u32 = 64;
pub const AUDIT_FEATURE_BITMAP_ALL: u32 = 127;
pub const AUDIT_VERSION_LATEST: u32 = 127;
pub const AUDIT_VERSION_BACKLOG_LIMIT: u32 = 1;
pub const AUDIT_VERSION_BACKLOG_WAIT_TIME: u32 = 2;

/// Number of 32-bit words in the status record.
pub const STATUS_WORDS: usize = 9;

/// Byte length of an encoded status record.
pub const STATUS_LEN: usize = 36;

/// Operational status of the audit subsystem. On write, `mask` selects the
/// attributes the sender intends to communicate (sparse update); on read the
/// kernel fills a full snapshot.
#[derive(Clone, Copy, Debug, PartialEq, Eq, Structural)]
pub struct StatusMessage {
    pub mask: u32,
    pub enabled: u32,
    pub failure: u32,
    pub pid: u32,
    pub rate_limit: u32,
    pub backlog_limit: u32,
    pub lost: u32,
    pub backlog_wait_time: u32,
    pub feature_bitmap: u32,
}

/// Word `i` of the encoded status record.
pub open spec fn status_word_at(s: StatusMessage, i: int) -> u32 {
    if i == 0 {
        s.mask
    } else if i == 1 {
        s.enabled
    } else if i == 2 {
        s.failure
    } else if i == 3 {
        s.pid
    } else if i == 4 {
        s.rate_limit
    } else if i == 5 {
        s.backlog_limit
    } else if i == 6 {
        s.lost
    } else if i == 7 {
        s.backlog_wait_time
    } else {
        s.feature_bitmap
    }
}

pub open spec fn status_words(s: StatusMessage) -> Seq<u32> {
    Seq::new(STATUS_WORDS as nat, |i: int| status_word_at(s, i))
}

/// Exact bytes of an encoded status record.
pub open spec fn spec_encode_status(s: StatusMessage) -> Seq<u8> {
    words_bytes(status_words(s))
}

/// The status a byte sequence decodes to: any record of exactly the fixed
/// size decodes, anything else is malformed.
pub open spec fn spec_decode_status(b: Seq<u8>) -> Option<StatusMessage> {
    if b.len() == STATUS_LEN {
        Some(
            StatusMessage {
                mask: u32_at(b, 0),
                enabled: u32_at(b, 1),
                failure: u32_at(b, 2),
                pid: u32_at(b, 3),
                rate_limit: u32_at(b, 4),
                backlog_limit: u32_at(b, 5),
                lost: u32_at(b, 6),
                backlog_wait_time: u32_at(b, 7),
                feature_bitmap: u32_at(b, 8),
            },
        )
    } else {
        None
    }
}

/// Every status record decodes back to itself.
pub proof fn lemma_status_round_trip(s: StatusMessage)
    ensures
        spec_decode_status(spec_encode_status(s)) == Some(s),
{
    let ws = status_words(s);
    let b = spec_encode_status(s);
    lemma_words_bytes_len(ws);
    assert(b =~= b + Seq::<u8>::empty());
    assert forall|i: int| 0 <= i < 9 implies u32_at(b, i) == ws[i] by {
        lemma_words_bytes_index(ws, Seq::<u8>::empty(), i);
    }
}

/// Canonicality: whatever decodes re-encodes to exactly the bytes it was
/// decoded from; the status codec is a bijection between snapshots and
/// fixed-size records.
pub proof fn lemma_status_decode_canonical(b: Seq<u8>)
    requires
        spec_decode_status(b) is Some,
    ensures
        spec_encode_status(spec_decode_status(b)->Some_0) == b,
{
    let s = spec_decode_status(b)->Some_0;
    crate::bytes::lemma_words_bytes_of_prefix(b, STATUS_WORDS as int);
    assert(Seq::new(STATUS_WORDS as nat, |i: int| u32_at(b, i)) =~= status_words(s));
    assert(spec_encode_status(s) =~= b);
}

/// Status encoding is a function of the record's attributes alone.
pub proof fn lemma_status_encode_deterministic(a: StatusMessage, b: StatusMessage)
    requires
        a == b,
    ensures
        spec_encode_status(a) == spec_encode_status(b),
{
}

impl StatusMessage {
    /// The all-zero status: no attribute carried, every counter zero.
    pub fn new() -> (r: Self)
        ensures
            r == (StatusMessage {
                mask: 0,
                enabled: 0,
                failure: 0,
                pid: 0,
                rate_limit: 0,
                backlog_limit: 0,
                lost: 0,
                backlog_wait_time: 0,
                feature_bitmap: 0,
            }),
    {
        StatusMessage {
            mask: 0,
            enabled: 0,
            failure: 0,
            pid: 0,
            rate_limit: 0,
            backlog_limit: 0,
            lost: 0,
            backlog_wait_time: 0,
            feature_bitmap: 0,
        }
    }

    /// Whether this message carries the attribute selected by `bit` of the
    /// mask bitfield: only such attributes are meaningful to the receiver.
    pub fn carries(&self, bit: u32) -> (r: bool)
        ensures
            r == (self.mask & bit != 0),
    {
        self.mask & bit != 0
    }

    /// Encode into the fixed-size wire record.
    pub fn encode(&self) -> (r: Vec<u8>)
        ensures
            r@ == spec_encode_status(*self),
    {
        let mut out: Vec<u8> = Vec::new();
        push_u32(&mut out, self.mask);
        push_u32(&mut out, self.enabled);
        push_u32(&mut out, self.failure);
        push_u32(&mut out, self.pid);
        push_u32(&mut out, self.rate_limit);
        push_u32(&mut out, self.backlog_limit);
        push_u32(&mut out, self.lost);
        push_u32(&mut out, self.backlog_wait_time);
        push_u32(&mut out, self.feature_bitmap);
        proof {
            let ws = status_words(*self);
            lemma_words_bytes_len(ws);
            assert forall|i: int| 0 <= i < 9 implies u32_at(spec_encode_status(*self), i)
                == ws[i] by {
                assert(spec_encode_status(*self) =~= spec_encode_status(*self)
                    + Seq::<u8>::empty());
                lemma_words_bytes_index(ws, Seq::<u8>::empty(), i);
            }
            assert(out@ =~= spec_encode_status(*self)) by {
                lemma_status_bytes_shape(*self, out@);
            }
        }
        out
    }

    /// Decode a wire record; exactly the fixed-size records decode.
    pub fn decode(b: &[u8]) -> (r: Result<StatusMessage, CodecError>)
        ensures
            match spec_decode_status(b@) {
                Some(s) => r == Ok::<StatusMessage, CodecError>(s),
                None => r == Err::<StatusMessage, CodecError>(CodecError::Malformed),
            },
    {
        if b.len() != STATUS_LEN {
            return Err(CodecError::Malformed);
        }
        Ok(
            StatusMessage {
                mask: read_u32(b, 0),
                enabled: read_u32(b, 1),
                failure: read_u32(b, 2),
                pid: read_u32(b, 3),
                rate_limit: read_u32(b, 4),
                backlog_limit: read_u32(b, 5),
                lost: read_u32(b, 6),
                backlog_wait_time: read_u32(b, 7),
                feature_bitmap: read_u32(b, 8),
            },
        )
    }
}

/// Helper: a byte sequence built by pushing the nine status words in order
/// equals the status encoding.
proof fn lemma_status_bytes_shape(s: StatusMessage, b: Seq<u8>)
    requires
        b =~= crate::bytes::u32_le(s.mask) + crate::bytes::u32_le(s.enabled) + crate::bytes::u32_le(
            s.failure,
        ) + crate::bytes::u32_le(s.pid) + crate::bytes::u32_le(s.rate_limit)
            + crate::bytes::u32_le(s.backlog_limit) + crate::bytes::u32_le(s.lost)
            + crate::bytes::u32_le(s.backlog_wait_time) + crate::bytes::u32_le(s.feature_bitmap),
    ensures
        b == spec_encode_status(s),
{
    let ws = status_words(s);
    assert(words_bytes(ws) =~= crate::bytes::u32_le(ws[0]) + words_bytes(ws.drop_first()));
    let w1 = ws.drop_first();
    let w2 = w1.drop_first();
    let w3 = w2.drop_first();
    let w4 = w3.drop_first();
    let w5 = w4.drop_first();
    let w6 = w5.drop_first();
    let w7 = w6.drop_first();
    let w8 = w7.drop_first();
    assert(words_bytes(w1) =~= crate::bytes::u32_le(w1[0]) + words_bytes(w2));
    assert(words_bytes(w2) =~= crate::bytes::u32_le(w2[0]) + words_bytes(w3));
    assert(words_bytes(w3) =~= crate::bytes::u32_le(w3[0]) + words_bytes(w4));
    assert(words_bytes(w4) =~= crate::bytes::u32_le(w4[0]) + words_bytes(w5));
    assert(words_bytes(w5) =~= crate::bytes::u32_le(w5[0]) + words_bytes(w6));
    assert(words_bytes(w6) =~= crate::bytes::u32_le(w6[0]) + words_bytes(w7));
    assert(words_bytes(w7) =~= crate::bytes::u32_le(w7[0]) + words_bytes(w8));
    assert(words_bytes(w8) =~= crate::bytes::u32_le(w8[0]) + words_bytes(w8.drop_first()));
    assert(w8.drop_first().len() == 0);
    assert(words_bytes(w8.drop_first()) =~= Seq::<u8>::empty());
    assert(b =~= words_bytes(ws));
}

} // verus!
