//! Wire codec for audit rules: the kernel-mandated fixed binary layout with
//! parallel field arrays and a variable-length trailing string buffer.
//!
//! Layout, as 32-bit little-endian words: `flags, action, field_count,
//! mask[64], field_ids[64], field_values[64], field_flags[64], buflen`, then
//! `buflen` raw bytes of string data. For a string-valued field the value
//! slot holds the string's byte length; the bytes are appended, unpadded and
//! in field order, to the trailing buffer.

use vstd::prelude::*;

use crate::bytes::{
    lemma_words_bytes_index, lemma_words_bytes_len, lemma_words_bytes_of_prefix,
    lemma_words_bytes_push, push_u32, read_u32, u32_at, words_bytes,
};
use crate::mask::{SyscallMask, AUDIT_BITMASK_SIZE};
use crate::rules::{
    action_code, action_of, field_id, field_str, field_val, field_wf, fields_view, filter_code,
    filter_of, is_string_id, nul_free, num_field, op_code, op_of, string_field, string_id, FieldOp,
    FieldSpec, RuleAction, RuleField, RuleFilter, RuleMessage, RuleModel, AUDIT_MAX_BUFLEN,
    AUDIT_MAX_FIELDS,
};

verus! {

/// Codec failure: the bytes are structurally invalid, or the value is not
/// representable in the wire layout.
#[derive(Clone, Copy, Debug, PartialEq, Eq, Structural)]
pub enum CodecError {
    Malformed,
}

/// Number of 32-bit words in the fixed part of a rule record.
pub const RULE_WORDS: usize = 260;

/// Byte length of the fixed part of a rule record.
pub const RULE_FIXED_LEN: usize = 1040;

/// Bytes of the trailing string buffer: every string-valued field's bytes,
/// in field order, unpadded.
pub open spec fn buf_bytes(fields: Seq<(FieldSpec, FieldOp)>) -> Seq<u8>
    decreases fields.len(),
{
    if fields.len() == 0 {
        Seq::empty()
    } else {
        field_str(fields[0].0) + buf_bytes(fields.drop_first())
    }
}

/// A rule the codec can represent exactly: bounded field count, bounded
/// total string bytes, a full-size mask, and representable fields.
pub open spec fn rule_wf(m: RuleModel) -> bool {
    &&& m.mask.len() == AUDIT_BITMASK_SIZE
    &&& m.fields.len() <= AUDIT_MAX_FIELDS
    &&& buf_bytes(m.fields).len() <= AUDIT_MAX_BUFLEN
    &&& forall|i: int| 0 <= i < m.fields.len() ==> field_wf(#[trigger] m.fields[i].0)
}

/// Word `i` of the fixed part of an encoded rule.
pub open spec fn rule_word_at(m: RuleModel, i: int) -> u32 {
    if i == 0 {
        filter_code(m.filter)
    } else if i == 1 {
        action_code(m.action)
    } else if i == 2 {
        m.fields.len() as u32
    } else if i < 67 {
        m.mask[i - 3]
    } else if i < 131 {
        if i - 67 < m.fields.len() {
            field_id(m.fields[i - 67].0)
        } else {
            0u32
        }
    } else if i < 195 {
        if i - 131 < m.fields.len() {
            field_val(m.fields[i - 131].0)
        } else {
            0u32
        }
    } else if i < 259 {
        if i - 195 < m.fields.len() {
            op_code(m.fields[i - 195].1)
        } else {
            0u32
        }
    } else {
        buf_bytes(m.fields).len() as u32
    }
}

pub open spec fn rule_words(m: RuleModel) -> Seq<u32> {
    Seq::new(RULE_WORDS as nat, |i: int| rule_word_at(m, i))
}

/// Exact bytes of an encoded rule.
pub open spec fn spec_encode_rule(m: RuleModel) -> Seq<u8> {
    words_bytes(rule_words(m)) + buf_bytes(m.fields)
}

/// Decode fields `j .. n` of the record `b`, slicing the trailing buffer
/// sequentially from offset `off`; yields the decoded fields and the offset
/// after the last slice.
pub open spec fn spec_decode_fields(b: Seq<u8>, n: int, j: int, off: int) -> Option<
    (Seq<(FieldSpec, FieldOp)>, int),
>
    decreases n - j,
{
    if j < 0 || n < j {
        None
    } else if j == n {
        Some((Seq::empty(), off))
    } else {
        let id = u32_at(b, 67 + j);
        let val = u32_at(b, 131 + j);
        let opw = u32_at(b, 195 + j);
        match op_of(opw) {
            None => None,
            Some(op) => {
                if is_string_id(id) {
                    let len = val as int;
                    if RULE_FIXED_LEN + off + len <= b.len() {
                        let s = b.subrange(RULE_FIXED_LEN + off, RULE_FIXED_LEN + off + len);
                        if nul_free(s) {
                            match spec_decode_fields(b, n, j + 1, off + len) {
                                None => None,
                                Some((rest, end)) => Some(
                                    (seq![(string_field(id, s), op)] + rest, end),
                                ),
                            }
                        } else {
                            None
                        }
                    } else {
                        None
                    }
                } else {
                    match spec_decode_fields(b, n, j + 1, off) {
                        None => None,
                        Some((rest, end)) => Some((seq![(num_field(id, val), op)] + rest, end)),
                    }
                }
            },
        }
    }
}

/// The field-array slots past `field_count` must be zero: encoding is
/// canonical, as kernel-side content matching requires.
pub open spec fn unused_zero(b: Seq<u8>, n: int) -> bool {
    forall|j: int|
        n <= j < 64 ==> (#[trigger] u32_at(b, 67 + j)) == 0u32 && u32_at(b, 131 + j) == 0u32
            && u32_at(b, 195 + j) == 0u32
}

/// The rule a byte sequence decodes to, if it is a well-formed canonical
/// record; `None` on any structural inconsistency between `field_count`,
/// the array slots, and the trailing buffer length.
pub open spec fn spec_decode_rule(b: Seq<u8>) -> Option<RuleModel> {
    if b.len() < RULE_FIXED_LEN {
        None
    } else {
        let buflen = u32_at(b, 259) as int;
        if b.len() != RULE_FIXED_LEN + buflen || buflen > AUDIT_MAX_BUFLEN {
            None
        } else {
            let n = u32_at(b, 2) as int;
            if n > AUDIT_MAX_FIELDS {
                None
            } else {
                match filter_of(u32_at(b, 0)) {
                    None => None,
                    Some(filter) => match action_of(u32_at(b, 1)) {
                        None => None,
                        Some(action) => match spec_decode_fields(b, n, 0, 0) {
                            None => None,
                            Some((fields, end)) => {
                                if end == buflen && unused_zero(b, n) {
                                    Some(
                                        RuleModel {
                                            filter,
                                            action,
                                            fields,
                                            mask: Seq::new(
                                                AUDIT_BITMASK_SIZE as nat,
                                                |i: int| u32_at(b, 3 + i),
                                            ),
                                        },
                                    )
                                } else {
                                    None
                                }
                            },
                        },
                    },
                }
            }
        }
    }
}

/// Appending one field appends its string bytes to the trailing buffer.
pub proof fn lemma_buf_bytes_push(fields: Seq<(FieldSpec, FieldOp)>, f: (FieldSpec, FieldOp))
    ensures
        buf_bytes(fields.push(f)) == buf_bytes(fields) + field_str(f.0),
    decreases fields.len(),
{
    if fields.len() == 0 {
        assert(fields.push(f).drop_first() =~= Seq::<(FieldSpec, FieldOp)>::empty());
        assert(fields.push(f)[0] == f);
        assert(buf_bytes(fields.push(f).drop_first()) == buf_bytes(
            Seq::<(FieldSpec, FieldOp)>::empty(),
        ));
        assert(buf_bytes(Seq::<(FieldSpec, FieldOp)>::empty()) == Seq::<u8>::empty());
        assert(buf_bytes(fields.push(f)) == field_str(f.0) + Seq::<u8>::empty());
        assert(buf_bytes(fields) == Seq::<u8>::empty());
        assert(buf_bytes(fields.push(f)) =~= buf_bytes(fields) + field_str(f.0));
    } else {
        let d = fields.drop_first();
        assert(fields.push(f).drop_first() =~= d.push(f));
        lemma_buf_bytes_push(d, f);
        assert(fields.push(f)[0] == fields[0]);
        assert(buf_bytes(fields.push(f)) == field_str(fields[0].0) + buf_bytes(d.push(f)));
        assert(buf_bytes(fields.push(f)) == field_str(fields[0].0) + (buf_bytes(d) + field_str(
            f.0,
        )));
        assert(buf_bytes(fields) == field_str(fields[0].0) + buf_bytes(d));
        assert(buf_bytes(fields.push(f)) =~= buf_bytes(fields) + field_str(f.0));
    }
}

/// The trailing buffer splits at any field index.
pub proof fn lemma_buf_bytes_split(fields: Seq<(FieldSpec, FieldOp)>, j: int)
    requires
        0 <= j <= fields.len(),
    ensures
        buf_bytes(fields) == buf_bytes(fields.take(j)) + buf_bytes(fields.skip(j)),
    decreases j,
{
    if j == 0 {
        assert(fields.take(0) =~= Seq::<(FieldSpec, FieldOp)>::empty());
        assert(fields.skip(0) =~= fields);
        assert(buf_bytes(fields) =~= buf_bytes(fields.take(0)) + buf_bytes(fields.skip(0)));
    } else {
        let d = fields.drop_first();
        lemma_buf_bytes_split(d, j - 1);
        assert(fields.take(j).drop_first() =~= d.take(j - 1));
        assert(fields.skip(j) =~= d.skip(j - 1));
        assert(fields.take(j).len() > 0 && fields.take(j)[0] == fields[0]);
        assert(buf_bytes(fields.take(j)) == field_str(fields[0].0) + buf_bytes(d.take(j - 1)));
        assert(buf_bytes(fields) =~= buf_bytes(fields.take(j)) + buf_bytes(fields.skip(j)));
    }
}

/// Word `i` of an encoded rule reads back as the layout's word `i`.
pub proof fn lemma_rule_word_extract(m: RuleModel, i: int)
    requires
        0 <= i < RULE_WORDS,
    ensures
        u32_at(spec_encode_rule(m), i) == rule_word_at(m, i),
{
    lemma_words_bytes_index(rule_words(m), buf_bytes(m.fields), i);
}

/// Encoded length is the fixed part plus the trailing buffer.
pub proof fn lemma_rule_encode_len(m: RuleModel)
    ensures
        spec_encode_rule(m).len() == RULE_FIXED_LEN + buf_bytes(m.fields).len(),
        words_bytes(rule_words(m)).len() == RULE_FIXED_LEN,
{
    lemma_words_bytes_len(rule_words(m));
}

/// Decoding the encoded record from field `j` on yields exactly the model's
/// remaining fields and consumes exactly the rest of the trailing buffer.
proof fn lemma_decode_fields_of_encode(m: RuleModel, j: int)
    requires
        rule_wf(m),
        0 <= j <= m.fields.len(),
    ensures
        spec_decode_fields(
            spec_encode_rule(m),
            m.fields.len() as int,
            j,
            buf_bytes(m.fields.take(j)).len() as int,
        ) == Some((m.fields.skip(j), buf_bytes(m.fields).len() as int)),
    decreases m.fields.len() - j,
{
    let b = spec_encode_rule(m);
    let n = m.fields.len() as int;
    let off = buf_bytes(m.fields.take(j)).len() as int;
    let buf = buf_bytes(m.fields);
    lemma_rule_encode_len(m);
    lemma_buf_bytes_split(m.fields, j);
    if j == n {
        assert(m.fields.take(n) =~= m.fields);
        assert(m.fields.skip(n) =~= Seq::<(FieldSpec, FieldOp)>::empty());
        assert(off == buf.len());
        assert(spec_decode_fields(b, n, j, off) == Some(
            (Seq::<(FieldSpec, FieldOp)>::empty(), off),
        ));
    } else {
        let f = m.fields[j].0;
        let op = m.fields[j].1;
        lemma_rule_word_extract(m, 67 + j);
        lemma_rule_word_extract(m, 131 + j);
        lemma_rule_word_extract(m, 195 + j);
        let id = u32_at(b, 67 + j);
        let val = u32_at(b, 131 + j);
        let opw = u32_at(b, 195 + j);
        assert(id == field_id(f));
        assert(val == field_val(f));
        assert(opw == op_code(op));
        crate::rules::lemma_op_code_roundtrip(op);
        assert(field_wf(f));
        crate::rules::lemma_field_slot_roundtrip(f);
        let s = field_str(f);
        let pre = buf_bytes(m.fields.take(j));
        lemma_buf_bytes_push(m.fields.take(j), m.fields[j]);
        assert(m.fields.take(j + 1) =~= m.fields.take(j).push(m.fields[j]));
        assert(buf_bytes(m.fields.take(j + 1)) == pre + s);
        lemma_buf_bytes_split(m.fields, j + 1);
        assert(buf == (pre + s) + buf_bytes(m.fields.skip(j + 1)));
        assert(off + s.len() <= buf.len());
        lemma_decode_fields_of_encode(m, j + 1);
        assert(seq![(f, op)] + m.fields.skip(j + 1) =~= m.fields.skip(j));
        if is_string_id(id) {
            let len = val as int;
            assert(s.len() <= AUDIT_MAX_BUFLEN);
            assert(len == s.len());
            assert(RULE_FIXED_LEN + off + len <= b.len());
            let s2 = b.subrange(RULE_FIXED_LEN + off, RULE_FIXED_LEN + off + len);
            assert forall|k: int| 0 <= k < len implies s2[k] == s[k] by {
                assert(b[RULE_FIXED_LEN + off + k] == buf[off + k]);
                assert(buf[off + k] == ((pre + s) + buf_bytes(m.fields.skip(j + 1)))[off + k]);
                assert(buf[off + k] == s[k]);
            }
            assert(s2 =~= s);
            assert(nul_free(s2));
            assert(string_field(id, s2) == f);
            assert(buf_bytes(m.fields.take(j + 1)).len() as int == off + len);
            assert(spec_decode_fields(b, n, j + 1, off + len) == Some(
                (m.fields.skip(j + 1), buf.len() as int),
            ));
            assert(spec_decode_fields(b, n, j, off) == Some(
                (m.fields.skip(j), buf.len() as int),
            ));
        } else {
            assert(s == Seq::<u8>::empty());
            assert(num_field(id, val) == f);
            assert(buf_bytes(m.fields.take(j + 1)).len() as int == off);
            assert(spec_decode_fields(b, n, j + 1, off) == Some(
                (m.fields.skip(j + 1), buf.len() as int),
            ));
            assert(spec_decode_fields(b, n, j, off) == Some(
                (m.fields.skip(j), buf.len() as int),
            ));
        }
    }
}

/// One field's string bytes lie inside the trailing buffer, right after the
/// bytes of the fields before it.
proof fn lemma_field_str_le(fields: Seq<(FieldSpec, FieldOp)>, j: int)
    requires
        0 <= j < fields.len(),
    ensures
        buf_bytes(fields.take(j)).len() + field_str(fields[j].0).len() <= buf_bytes(fields).len(),
        buf_bytes(fields.take(j + 1)) == buf_bytes(fields.take(j)) + field_str(fields[j].0),
{
    lemma_buf_bytes_push(fields.take(j), fields[j]);
    assert(fields.take(j + 1) =~= fields.take(j).push(fields[j]));
    lemma_buf_bytes_split(fields, j + 1);
}

impl RuleMessage {
    /// Encode into the kernel wire layout. Deterministic: the bytes are a
    /// function of the rule's model alone. Fails exactly on rules the layout
    /// cannot represent (too many fields, too much string data, a NUL byte
    /// in a string, an opaque field shadowing a known selector).
    pub fn encode(&self) -> (r: Result<Vec<u8>, CodecError>)
        ensures
            match r {
                Ok(v) => rule_wf(self@) && v@ == spec_encode_rule(self@),
                Err(_) => !rule_wf(self@),
            },
    {
        let ghost gf = self@.fields;
        let n = self.fields.len();
        if self.syscalls.word_count() != AUDIT_BITMASK_SIZE {
            return Err(CodecError::Malformed);
        }
        if n > AUDIT_MAX_FIELDS {
            return Err(CodecError::Malformed);
        }
        // Validation pass: every field representable, total string bytes bounded.
        let mut total: u32 = 0;
        let mut j: usize = 0;
        while j < n
            invariant
                j <= n,
                n == self.fields.len(),
                n <= AUDIT_MAX_FIELDS,
                gf == self@.fields,
                gf.len() == n,
                total as int == buf_bytes(gf.take(j as int)).len(),
                total <= AUDIT_MAX_BUFLEN,
                forall|i: int| 0 <= i < j ==> field_wf(#[trigger] gf[i].0),
            decreases n - j,
        {
            let fe = &self.fields[j];
            proof {
                assert(gf[j as int] == (fe.0@, fe.1));
            }
            if !fe.0.check_wf() {
                proof {
                    assert(!field_wf(self@.fields[j as int].0));
                }
                return Err(CodecError::Malformed);
            }
            let l = fe.0.str_len();
            proof {
                lemma_field_str_le(gf, j as int);
            }
            if l > (AUDIT_MAX_BUFLEN as usize) - (total as usize) {
                return Err(CodecError::Malformed);
            }
            total = total + (l as u32);
            j = j + 1;
        }
        proof {
            assert(gf.take(n as int) =~= gf);
            assert(rule_wf(self@));
        }
        // Write pass: the 260 fixed words, then the trailing buffer.
        let ghost ws = rule_words(self@);
        let mut out: Vec<u8> = Vec::new();
        proof {
            assert(ws.take(0) =~= Seq::<u32>::empty());
            assert(out@ =~= words_bytes(ws.take(0)));
        }
        push_u32(&mut out, self.flags.code());
        proof {
            lemma_take_push(ws, 0);
            assert(out@ == words_bytes(ws.take(1)));
        }
        push_u32(&mut out, self.action.code());
        proof {
            lemma_take_push(ws, 1);
            assert(out@ == words_bytes(ws.take(2)));
        }
        push_u32(&mut out, n as u32);
        proof {
            lemma_take_push(ws, 2);
            assert(ws[2] == n as u32);
            assert(out@ == words_bytes(ws.take(3)));
        }
        let mut i: usize = 0;
        while i < AUDIT_BITMASK_SIZE
            invariant
                i <= AUDIT_BITMASK_SIZE,
                rule_wf(self@),
                ws == rule_words(self@),
                self.syscalls.wf(),
                out@ == words_bytes(ws.take(3 + i as int)),
            decreases AUDIT_BITMASK_SIZE - i,
        {
            push_u32(&mut out, self.syscalls.word(i));
            proof {
                lemma_take_push(ws, 3 + i as int);
                assert(ws[3 + i as int] == self@.mask[i as int]);
            }
            i = i + 1;
        }
        let mut j: usize = 0;
        while j < AUDIT_MAX_FIELDS
            invariant
                j <= AUDIT_MAX_FIELDS,
                rule_wf(self@),
                ws == rule_words(self@),
                gf == self@.fields,
                gf.len() == n,
                n == self.fields.len(),
                out@ == words_bytes(ws.take(67 + j as int)),
            decreases AUDIT_MAX_FIELDS - j,
        {
            let w: u32 = if j < n {
                let fe = &self.fields[j];
                proof {
                    assert(gf[j as int] == (fe.0@, fe.1));
                }
                fe.0.id()
            } else {
                0u32
            };
            push_u32(&mut out, w);
            proof {
                lemma_take_push(ws, 67 + j as int);
                assert(ws[67 + j as int] == w);
            }
            j = j + 1;
        }
        let mut j: usize = 0;
        while j < AUDIT_MAX_FIELDS
            invariant
                j <= AUDIT_MAX_FIELDS,
                rule_wf(self@),
                ws == rule_words(self@),
                gf == self@.fields,
                gf.len() == n,
                n == self.fields.len(),
                out@ == words_bytes(ws.take(131 + j as int)),
            decreases AUDIT_MAX_FIELDS - j,
        {
            let w: u32 = if j < n {
                let fe = &self.fields[j];
                proof {
                    assert(gf[j as int] == (fe.0@, fe.1));
                    lemma_field_str_le(gf, j as int);
                }
                fe.0.value_word()
            } else {
                0u32
            };
            push_u32(&mut out, w);
            proof {
                lemma_take_push(ws, 131 + j as int);
                assert(ws[131 + j as int] == w);
            }
            j = j + 1;
        }
        let mut j: usize = 0;
        while j < AUDIT_MAX_FIELDS
            invariant
                j <= AUDIT_MAX_FIELDS,
                rule_wf(self@),
                ws == rule_words(self@),
                gf == self@.fields,
                gf.len() == n,
                n == self.fields.len(),
                out@ == words_bytes(ws.take(195 + j as int)),
            decreases AUDIT_MAX_FIELDS - j,
        {
            let w: u32 = if j < n {
                let fe = &self.fields[j];
                proof {
                    assert(gf[j as int] == (fe.0@, fe.1));
                }
                fe.1.code()
            } else {
                0u32
            };
            push_u32(&mut out, w);
            proof {
                lemma_take_push(ws, 195 + j as int);
                assert(ws[195 + j as int] == w);
            }
            j = j + 1;
        }
        push_u32(&mut out, total);
        proof {
            lemma_take_push(ws, 259);
            assert(ws[259] == total);
            assert(ws.take(260) =~= ws);
            assert(out@ == words_bytes(ws));
        }
        // Trailing buffer: string bytes in field order, unpadded.
        let mut j: usize = 0;
        while j < n
            invariant
                j <= n,
                rule_wf(self@),
                ws == rule_words(self@),
                gf == self@.fields,
                gf.len() == n,
                n == self.fields.len(),
                out@ == words_bytes(ws) + buf_bytes(gf.take(j as int)),
            decreases n - j,
        {
            let fe = &self.fields[j];
            proof {
                assert(gf[j as int] == (fe.0@, fe.1));
                lemma_field_str_le(gf, j as int);
            }
            match fe.0.str_bytes() {
                Some(s) => {
                    let ghost before = out@;
                    let mut k: usize = 0;
                    while k < s.len()
                        invariant
                            k <= s@.len(),
                            out@ == before + s@.take(k as int),
                        decreases s@.len() - k,
                    {
                        out.push(s[k]);
                        proof {
                            assert(out@ =~= before + s@.take(k as int + 1));
                        }
                        k = k + 1;
                    }
                    proof {
                        assert(s@.take(s@.len() as int) =~= s@);
                        assert(field_str(gf[j as int].0) == s@);
                        assert(out@ =~= words_bytes(ws) + buf_bytes(gf.take(j as int + 1)));
                    }
                },
                None => {
                    proof {
                        assert(field_str(gf[j as int].0) =~= Seq::<u8>::empty());
                        assert(out@ =~= words_bytes(ws) + buf_bytes(gf.take(j as int + 1)));
                    }
                },
            }
            j = j + 1;
        }
        proof {
            assert(gf.take(n as int) =~= gf);
            assert(out@ == spec_encode_rule(self@));
        }
        Ok(out)
    }
}

impl RuleMessage {
    /// Decode a kernel wire record. Exactly the well-formed canonical
    /// records decode; any inconsistency between `field_count`, the array
    /// slots, and the trailing buffer is a failure, never undefined
    /// behavior. Unknown field ids are preserved opaquely.
    #[verifier::loop_isolation(false)]
    pub fn decode(b: &[u8]) -> (r: Result<RuleMessage, CodecError>)
        ensures
            ({
                let d = spec_decode_rule(b@);
                match r {
                    Ok(rule) => d == Some(rule@),
                    Err(_) => d is None,
                }
            }),
    {
        if b.len() < RULE_FIXED_LEN {
            return Err(CodecError::Malformed);
        }
        let buflen32 = read_u32(b, 259);
        if buflen32 > AUDIT_MAX_BUFLEN {
            return Err(CodecError::Malformed);
        }
        if b.len() != RULE_FIXED_LEN + (buflen32 as usize) {
            return Err(CodecError::Malformed);
        }
        let n32 = read_u32(b, 2);
        if n32 > AUDIT_MAX_FIELDS as u32 {
            return Err(CodecError::Malformed);
        }
        let n = n32 as usize;
        let filter = match RuleFilter::from_code(read_u32(b, 0)) {
            Some(f) => f,
            None => {
                return Err(CodecError::Malformed);
            },
        };
        let action = match RuleAction::from_code(read_u32(b, 1)) {
            Some(a) => a,
            None => {
                return Err(CodecError::Malformed);
            },
        };
        let mut words: Vec<u32> = Vec::new();
        let mut i: usize = 0;
        while i < AUDIT_BITMASK_SIZE
            invariant
                i <= AUDIT_BITMASK_SIZE,
                words@.len() == i,
                forall|k: int| 0 <= k < i ==> words@[k] == u32_at(b@, 3 + k),
            decreases AUDIT_BITMASK_SIZE - i,
        {
            words.push(read_u32(b, 3 + i));
            i = i + 1;
        }
        let syscalls = SyscallMask::from_words(words);
        let ghost dspec = spec_decode_fields(b@, n as int, 0, 0);
        let mut fields: Vec<(RuleField, FieldOp)> = Vec::new();
        let mut off: u32 = 0;
        let mut j: usize = 0;
        while j < n
            invariant
                j <= n,
                off <= buflen32,
                match spec_decode_fields(b@, n as int, j as int, off as int) {
                    None => dspec is None,
                    Some((rest, end)) => dspec == Some((fields_view(fields@) + rest, end)),
                },
            decreases n - j,
        {
            let ghost step = spec_decode_fields(b@, n as int, j as int, off as int);
            let id = read_u32(b, 67 + j);
            let val = read_u32(b, 131 + j);
            let opw = read_u32(b, 195 + j);
            let op = match FieldOp::from_code(opw) {
                Some(op) => op,
                None => {
                    proof {
                        assert(step is None);
                    }
                    return Err(CodecError::Malformed);
                },
            };
            if string_id(id) {
                if val > buflen32 - off {
                    proof {
                        assert(RULE_FIXED_LEN + off + val as int > b@.len());
                        assert(step is None);
                    }
                    return Err(CodecError::Malformed);
                }
                let len = val as usize;
                let start = RULE_FIXED_LEN + (off as usize);
                let ghost sfull = b@.subrange(start as int, start as int + len as int);
                let mut s: Vec<u8> = Vec::new();
                let mut k: usize = 0;
                while k < len
                    invariant
                        k <= len,
                        s@.len() == k,
                        s@ == sfull.take(k as int),
                        forall|t: int| 0 <= t < k ==> s@[t] != 0u8,
                    decreases len - k,
                {
                    let byte = b[start + k];
                    proof {
                        assert(sfull[k as int] == b@[start + k]);
                    }
                    if byte == 0 {
                        proof {
                            assert(!nul_free(sfull));
                            assert(step is None);
                        }
                        return Err(CodecError::Malformed);
                    }
                    s.push(byte);
                    proof {
                        assert(s@ =~= sfull.take(k as int + 1));
                    }
                    k = k + 1;
                }
                proof {
                    assert(s@ =~= sfull);
                    assert(nul_free(sfull));
                }
                let field = RuleField::from_string_slot(id, s);
                let ghost old_fields = fields@;
                fields.push((field, op));
                let ghost old_off = off;
                off = off + val;
                j = j + 1;
                proof {
                    match spec_decode_fields(b@, n as int, j as int, off as int) {
                        None => {
                            assert(step is None);
                        },
                        Some((rest, end)) => {
                            assert(step == Some(
                                (seq![(string_field(id, sfull), op)] + rest, end),
                            ));
                            assert(fields_view(fields@) =~= fields_view(old_fields) + seq![
                                (field@, op),
                            ]);
                            assert(fields_view(old_fields) + (seq![(field@, op)] + rest)
                                =~= fields_view(fields@) + rest);
                        },
                    }
                }
            } else {
                let field = RuleField::from_num_slot(id, val);
                let ghost old_fields = fields@;
                fields.push((field, op));
                j = j + 1;
                proof {
                    match spec_decode_fields(b@, n as int, j as int, off as int) {
                        None => {
                            assert(step is None);
                        },
                        Some((rest, end)) => {
                            assert(step == Some((seq![(num_field(id, val), op)] + rest, end)));
                            assert(fields_view(fields@) =~= fields_view(old_fields) + seq![
                                (field@, op),
                            ]);
                            assert(fields_view(old_fields) + (seq![(field@, op)] + rest)
                                =~= fields_view(fields@) + rest);
                        },
                    }
                }
            }
        }
        proof {
            assert(spec_decode_fields(b@, n as int, n as int, off as int) == Some(
                (Seq::<(FieldSpec, FieldOp)>::empty(), off as int),
            ));
            assert(fields_view(fields@) + Seq::<(FieldSpec, FieldOp)>::empty() =~= fields_view(
                fields@,
            ));
            assert(dspec == Some((fields_view(fields@), off as int)));
        }
        if off != buflen32 {
            return Err(CodecError::Malformed);
        }
        let mut j2: usize = n;
        while j2 < AUDIT_MAX_FIELDS
            invariant
                n <= j2 <= AUDIT_MAX_FIELDS,
                forall|t: int|
                    n <= t < j2 ==> (#[trigger] u32_at(b@, 67 + t)) == 0u32 && u32_at(b@, 131 + t)
                        == 0u32 && u32_at(b@, 195 + t) == 0u32,
            decreases AUDIT_MAX_FIELDS - j2,
        {
            let slot_id = read_u32(b, 67 + j2);
            let slot_val = read_u32(b, 131 + j2);
            let slot_op = read_u32(b, 195 + j2);
            if slot_id != 0 || slot_val != 0 || slot_op != 0 {
                proof {
                    assert(!unused_zero(b@, n as int));
                }
                return Err(CodecError::Malformed);
            }
            proof {
                assert(u32_at(b@, 67 + j2 as int) == 0u32);
                assert(u32_at(b@, 131 + j2 as int) == 0u32);
                assert(u32_at(b@, 195 + j2 as int) == 0u32);
            }
            j2 = j2 + 1;
        }
        let rule = RuleMessage { flags: filter, action, fields, syscalls };
        proof {
            assert(unused_zero(b@, n as int));
            assert(spec_decode_rule(b@) is Some);
            let m = spec_decode_rule(b@)->Some_0;
            assert(rule@.mask =~= m.mask);
            assert(rule@ =~= m);
        }
        Ok(rule)
    }
}

/// Writing word `k` extends the byte image of the first `k` words to `k + 1`.
proof fn lemma_take_push(ws: Seq<u32>, k: int)
    requires
        0 <= k < ws.len(),
    ensures
        words_bytes(ws.take(k + 1)) == words_bytes(ws.take(k)) + crate::bytes::u32_le(ws[k]),
{
    assert(ws.take(k + 1) =~= ws.take(k).push(ws[k]));
    lemma_words_bytes_push(ws.take(k), ws[k]);
}

/// Encoding is deterministic: the bytes depend on the rule's model alone,
/// so one rule always serializes byte-identically — which is what kernel-side
/// content matching of delete requests rests on.
pub proof fn lemma_rule_encode_deterministic(a: RuleModel, b: RuleModel)
    requires
        a == b,
    ensures
        spec_encode_rule(a) == spec_encode_rule(b),
{
}

/// Fields decoded from any record are well formed, one per slot, and consume
/// exactly the buffer span between `off` and the returned offset.
proof fn lemma_decode_fields_props(b: Seq<u8>, n: int, j: int, off: int)
    requires
        0 <= j <= n,
        0 <= off,
        spec_decode_fields(b, n, j, off) is Some,
    ensures
        ({
            let (fields, end) = spec_decode_fields(b, n, j, off)->Some_0;
            &&& fields.len() == n - j
            &&& end == off + buf_bytes(fields).len()
            &&& forall|i: int| 0 <= i < fields.len() ==> field_wf(#[trigger] fields[i].0)
        }),
    decreases n - j,
{
    let (fields, end) = spec_decode_fields(b, n, j, off)->Some_0;
    if j == n {
        assert(spec_decode_fields(b, n, j, off) == Some(
            (Seq::<(FieldSpec, FieldOp)>::empty(), off),
        ));
        assert(fields =~= Seq::<(FieldSpec, FieldOp)>::empty());
        assert(buf_bytes(Seq::<(FieldSpec, FieldOp)>::empty()) == Seq::<u8>::empty());
    } else {
        let id = u32_at(b, 67 + j);
        let val = u32_at(b, 131 + j);
        let opw = u32_at(b, 195 + j);
        let op = op_of(opw)->Some_0;
        if is_string_id(id) {
            let len = val as int;
            let s = b.subrange(RULE_FIXED_LEN + off, RULE_FIXED_LEN + off + len);
            let f = string_field(id, s);
            lemma_decode_fields_props(b, n, j + 1, off + len);
            let (rest, end2) = spec_decode_fields(b, n, j + 1, off + len)->Some_0;
            assert(spec_decode_fields(b, n, j, off) == Some((seq![(f, op)] + rest, end2)));
            assert(fields == seq![(f, op)] + rest && end == end2);
            assert(fields[0] == (f, op));
            assert(fields.drop_first() =~= rest);
            assert(buf_bytes(fields) == field_str(f) + buf_bytes(rest));
            assert(field_str(f) == s);
            assert(RULE_FIXED_LEN + off + len <= b.len());
            assert(s.len() == len);
            assert(field_wf(f));
            assert forall|i: int| 0 <= i < fields.len() implies field_wf(
                #[trigger] fields[i].0,
            ) by {
                if i > 0 {
                    assert(fields[i] == rest[i - 1]);
                }
            }
        } else {
            let f = num_field(id, val);
            lemma_decode_fields_props(b, n, j + 1, off);
            let (rest, end2) = spec_decode_fields(b, n, j + 1, off)->Some_0;
            assert(spec_decode_fields(b, n, j, off) == Some((seq![(f, op)] + rest, end2)));
            assert(fields == seq![(f, op)] + rest && end == end2);
            assert(fields[0] == (f, op));
            assert(fields.drop_first() =~= rest);
            assert(buf_bytes(fields) == field_str(f) + buf_bytes(rest));
            assert(field_str(f) =~= Seq::<u8>::empty());
            assert(field_wf(f));
            assert forall|i: int| 0 <= i < fields.len() implies field_wf(
                #[trigger] fields[i].0,
            ) by {
                if i > 0 {
                    assert(fields[i] == rest[i - 1]);
                }
            }
        }
    }
}

/// Whatever decodes is itself representable, so a rule read back from the
/// kernel (say, by enumeration) can be re-encoded, byte-identically, for an
/// exact-match delete.
pub proof fn lemma_decode_rule_wf(b: Seq<u8>)
    requires
        spec_decode_rule(b) is Some,
    ensures
        rule_wf(spec_decode_rule(b)->Some_0),
{
    let n = u32_at(b, 2) as int;
    lemma_decode_fields_props(b, n, 0, 0);
}

/// Decoded fields write back exactly the slots and the buffer span they were
/// decoded from.
proof fn lemma_decode_fields_image(b: Seq<u8>, n: int, j: int, off: int)
    requires
        0 <= j <= n,
        0 <= off,
        RULE_FIXED_LEN + off <= b.len(),
        spec_decode_fields(b, n, j, off) is Some,
    ensures
        ({
            let (fields, end) = spec_decode_fields(b, n, j, off)->Some_0;
            &&& RULE_FIXED_LEN + end <= b.len()
            &&& forall|t: int|
                0 <= t < fields.len() ==> field_id((#[trigger] fields[t]).0) == u32_at(b, 67 + j + t)
                    && field_val(fields[t].0) == u32_at(b, 131 + j + t) && op_code(fields[t].1)
                    == u32_at(b, 195 + j + t)
            &&& buf_bytes(fields) == b.subrange(RULE_FIXED_LEN + off, RULE_FIXED_LEN + end)
        }),
    decreases n - j,
{
    let (fields, end) = spec_decode_fields(b, n, j, off)->Some_0;
    lemma_decode_fields_props(b, n, j, off);
    if j == n {
        assert(fields =~= Seq::<(FieldSpec, FieldOp)>::empty());
        assert(buf_bytes(fields) =~= b.subrange(RULE_FIXED_LEN + off, RULE_FIXED_LEN + end));
    } else {
        let id = u32_at(b, 67 + j);
        let val = u32_at(b, 131 + j);
        let opw = u32_at(b, 195 + j);
        let op = op_of(opw)->Some_0;
        crate::rules::lemma_op_of_inverse(opw);
        crate::rules::lemma_decoded_field_slots(id, val, Seq::<u8>::empty());
        if is_string_id(id) {
            let len = val as int;
            let s = b.subrange(RULE_FIXED_LEN + off, RULE_FIXED_LEN + off + len);
            let f = string_field(id, s);
            crate::rules::lemma_decoded_field_slots(id, val, s);
            lemma_decode_fields_image(b, n, j + 1, off + len);
            lemma_decode_fields_props(b, n, j + 1, off + len);
            let (rest, end2) = spec_decode_fields(b, n, j + 1, off + len)->Some_0;
            assert(spec_decode_fields(b, n, j, off) == Some((seq![(f, op)] + rest, end2)));
            assert(fields == seq![(f, op)] + rest && end == end2);
            assert(fields[0] == (f, op));
            assert(fields.drop_first() =~= rest);
            assert(buf_bytes(fields) == field_str(f) + buf_bytes(rest));
            assert(s.len() == len);
            assert forall|k: int|
                0 <= k < end - off implies (field_str(f) + buf_bytes(rest))[k] == b.subrange(
                RULE_FIXED_LEN + off,
                RULE_FIXED_LEN + end,
            )[k] by {
                if k < len {
                    assert(field_str(f)[k] == b[RULE_FIXED_LEN + off + k]);
                } else {
                    assert(buf_bytes(rest)[k - len] == b.subrange(
                        RULE_FIXED_LEN + off + len,
                        RULE_FIXED_LEN + end,
                    )[k - len]);
                    assert(buf_bytes(rest)[k - len] == b[RULE_FIXED_LEN + off + k]);
                }
            }
            assert(buf_bytes(fields) =~= b.subrange(RULE_FIXED_LEN + off, RULE_FIXED_LEN + end));
            assert forall|t: int|
                0 <= t < fields.len() implies field_id((#[trigger] fields[t]).0) == u32_at(
                b,
                67 + j + t,
            ) && field_val(fields[t].0) == u32_at(b, 131 + j + t) && op_code(fields[t].1)
                == u32_at(b, 195 + j + t) by {
                if t > 0 {
                    assert(fields[t] == rest[t - 1]);
                }
            }
        } else {
            let f = num_field(id, val);
            lemma_decode_fields_image(b, n, j + 1, off);
            lemma_decode_fields_props(b, n, j + 1, off);
            let (rest, end2) = spec_decode_fields(b, n, j + 1, off)->Some_0;
            assert(spec_decode_fields(b, n, j, off) == Some((seq![(f, op)] + rest, end2)));
            assert(fields == seq![(f, op)] + rest && end == end2);
            assert(fields[0] == (f, op));
            assert(fields.drop_first() =~= rest);
            assert(buf_bytes(fields) == field_str(f) + buf_bytes(rest));
            assert(field_str(f) == Seq::<u8>::empty());
            assert(buf_bytes(fields) =~= b.subrange(RULE_FIXED_LEN + off, RULE_FIXED_LEN + end));
            assert forall|t: int|
                0 <= t < fields.len() implies field_id((#[trigger] fields[t]).0) == u32_at(
                b,
                67 + j + t,
            ) && field_val(fields[t].0) == u32_at(b, 131 + j + t) && op_code(fields[t].1)
                == u32_at(b, 195 + j + t) by {
                if t > 0 {
                    assert(fields[t] == rest[t - 1]);
                }
            }
        }
    }
}

/// One unused field-array slot of a canonical record reads as zero.
proof fn lemma_unused_at(b: Seq<u8>, n: int, j: int)
    requires
        unused_zero(b, n),
        n <= j < 64,
    ensures
        u32_at(b, 67 + j) == 0u32,
        u32_at(b, 131 + j) == 0u32,
        u32_at(b, 195 + j) == 0u32,
{
}

/// Canonicality: whatever decodes re-encodes to exactly the bytes it was
/// decoded from. With the round trip this makes the codec a bijection
/// between representable rules and valid records, so a rule enumerated from
/// the kernel re-encodes byte-identically for delete-by-content.
pub proof fn lemma_decode_canonical(b: Seq<u8>)
    requires
        spec_decode_rule(b) is Some,
    ensures
        spec_encode_rule(spec_decode_rule(b)->Some_0) == b,
{
    let m = spec_decode_rule(b)->Some_0;
    let n = u32_at(b, 2) as int;
    let buflen = u32_at(b, 259) as int;
    lemma_decode_fields_props(b, n, 0, 0);
    lemma_decode_fields_image(b, n, 0, 0);
    let (fields, end) = spec_decode_fields(b, n, 0, 0)->Some_0;
    assert(m.fields == fields && end == buflen);
    crate::rules::lemma_filter_of_inverse(u32_at(b, 0));
    crate::rules::lemma_action_of_inverse(u32_at(b, 1));
    assert forall|i: int| 0 <= i < RULE_WORDS implies rule_words(m)[i] == u32_at(b, i) by {
        if i == 2 {
            assert(m.fields.len() == n);
        } else if 67 <= i < 131 {
            if i - 67 < n {
                assert(fields[i - 67] == fields[(i - 67) + 0]);
            } else {
                lemma_unused_at(b, n, i - 67);
            }
        } else if 131 <= i < 195 {
            if i - 131 < n {
                assert(fields[i - 131] == fields[(i - 131) + 0]);
            } else {
                lemma_unused_at(b, n, i - 131);
            }
        } else if 195 <= i < 259 {
            if i - 195 < n {
                assert(fields[i - 195] == fields[(i - 195) + 0]);
            } else {
                lemma_unused_at(b, n, i - 195);
            }
        } else if i == 259 {
            assert(buf_bytes(m.fields).len() == end);
        }
    }
    lemma_words_bytes_of_prefix(b, RULE_WORDS as int);
    assert(Seq::new(RULE_WORDS as nat, |i: int| u32_at(b, i)) =~= rule_words(m));
    assert(words_bytes(rule_words(m)) == b.take(4 * RULE_WORDS));
    assert(buf_bytes(m.fields) == b.subrange(RULE_FIXED_LEN as int, RULE_FIXED_LEN + end));
    assert(b.len() == RULE_FIXED_LEN + buflen);
    assert(spec_encode_rule(m) =~= b);
}

/// Round trip: every representable rule decodes back from its encoding.
/// Together with determinism of `spec_encode_rule` (a function), this is why
/// delete-by-content against the kernel matches exactly the rule submitted.
pub proof fn lemma_rule_round_trip(m: RuleModel)
    requires
        rule_wf(m),
    ensures
        spec_decode_rule(spec_encode_rule(m)) == Some(m),
{
    let b = spec_encode_rule(m);
    let buf = buf_bytes(m.fields);
    let n = m.fields.len() as int;
    lemma_rule_encode_len(m);
    lemma_rule_word_extract(m, 259);
    lemma_rule_word_extract(m, 2);
    lemma_rule_word_extract(m, 0);
    lemma_rule_word_extract(m, 1);
    assert(u32_at(b, 259) == buf.len() as u32);
    assert(buf.len() <= AUDIT_MAX_BUFLEN);
    assert(u32_at(b, 259) as int == buf.len());
    assert(u32_at(b, 2) as int == n);
    crate::rules::lemma_filter_code_roundtrip(m.filter);
    crate::rules::lemma_action_code_roundtrip(m.action);
    assert(m.fields.take(0) =~= Seq::<(FieldSpec, FieldOp)>::empty());
    assert(buf_bytes(m.fields.take(0)) == Seq::<u8>::empty());
    lemma_decode_fields_of_encode(m, 0);
    assert(m.fields.skip(0) =~= m.fields);
    assert(spec_decode_fields(b, n, 0, 0) == Some((m.fields, buf.len() as int)));
    assert forall|j: int|
        n <= j < 64 implies (#[trigger] u32_at(b, 67 + j)) == 0u32 && u32_at(b, 131 + j) == 0u32
        && u32_at(b, 195 + j) == 0u32 by {
        lemma_rule_word_extract(m, 67 + j);
        lemma_rule_word_extract(m, 131 + j);
        lemma_rule_word_extract(m, 195 + j);
    }
    assert(unused_zero(b, n));
    let dm = Seq::new(AUDIT_BITMASK_SIZE as nat, |i: int| u32_at(b, 3 + i));
    assert forall|i: int| 0 <= i < 64 implies dm[i] == m.mask[i] by {
        lemma_rule_word_extract(m, 3 + i);
    }
    assert(dm =~= m.mask);
    assert(spec_decode_rule(b) == Some(m));
}

} // verus!
