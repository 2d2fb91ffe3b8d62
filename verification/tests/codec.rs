use audit::{
    AuditMessage, CodecError, FieldOp, RuleAction, RuleField, RuleFilter, RuleMessage,
    StatusMessage, SyscallMask,
};

fn word(b: &[u8], i: usize) -> u32 {
    u32::from_le_bytes([b[4 * i], b[4 * i + 1], b[4 * i + 2], b[4 * i + 3]])
}

fn watch_rule() -> RuleMessage {
    let mut r = RuleMessage::new(RuleFilter::Exit, RuleAction::Always);
    r.push_field(RuleField::Watch(b"/etc/passwd".to_vec()), FieldOp::Equal);
    r.push_field(RuleField::Perm(15), FieldOp::Equal);
    r.push_field(RuleField::Filterkey(b"my_key".to_vec()), FieldOp::Equal);
    r.syscalls = SyscallMask::select_all();
    r
}

#[test]
fn watch_rule_encodes_to_documented_layout() {
    let bytes = watch_rule().encode().unwrap();
    assert_eq!(bytes.len(), 1040 + 17);
    assert_eq!(word(&bytes, 2), 3); // field_count
    for k in 0..64 {
        assert_eq!(word(&bytes, 3 + k), 0xffff_ffff); // all-ones mask words
    }
    assert_eq!(word(&bytes, 131), 11); // value slot 0: watch path byte length
    assert_eq!(word(&bytes, 132), 15); // value slot 1: permission mask
    assert_eq!(word(&bytes, 133), 6); // value slot 2: key byte length
    assert_eq!(word(&bytes, 259), 17); // trailing buffer length
    assert_eq!(&bytes[1040..], b"/etc/passwdmy_key" as &[u8]);
}

#[test]
fn targeted_syscall_rule_sets_exactly_one_mask_bit() {
    let mut r = RuleMessage::new(RuleFilter::Exit, RuleAction::Always);
    r.push_field(RuleField::Arch(0xC000_003E), FieldOp::Equal); // x86-64 token
    r.push_field(RuleField::Filterkey(b"bypass".to_vec()), FieldOp::Equal);
    r.syscalls.set(135);
    let bytes = r.encode().unwrap();
    assert_eq!(word(&bytes, 2), 2); // field_count
    let mut ones = 0u32;
    for k in 0..64 {
        ones += word(&bytes, 3 + k).count_ones();
    }
    assert_eq!(ones, 1); // exactly one set bit across all mask words
    assert_eq!(word(&bytes, 3 + 4), 1 << 7); // bit 135: word 4, bit 7
}

#[test]
fn rule_round_trip_is_exact() {
    let mut r = RuleMessage::new(RuleFilter::Exclude, RuleAction::Never);
    r.push_field(RuleField::Uid(1000), FieldOp::GreaterOrEqual);
    r.push_field(RuleField::Dir(b"/var/log".to_vec()), FieldOp::Equal);
    r.push_field(RuleField::Other(4242, 7), FieldOp::BitmaskAnySet);
    r.push_field(RuleField::Exe(b"/usr/bin/sudo".to_vec()), FieldOp::NotEqual);
    r.syscalls.set(0);
    r.syscalls.set(2047);
    let bytes = r.encode().unwrap();
    let back = RuleMessage::decode(&bytes).unwrap();
    assert_eq!(back, r);
}

#[test]
fn empty_rule_round_trips() {
    let r = RuleMessage::new(RuleFilter::Task, RuleAction::Always);
    let bytes = r.encode().unwrap();
    assert_eq!(bytes.len(), 1040);
    assert_eq!(word(&bytes, 259), 0);
    let back = RuleMessage::decode(&bytes).unwrap();
    assert_eq!(back, r);
}

#[test]
fn encoding_is_deterministic() {
    let r = watch_rule();
    let first = r.encode().unwrap();
    let second = r.encode().unwrap();
    assert_eq!(first, second);
    let third = r.clone().encode().unwrap();
    assert_eq!(first, third);
}

#[test]
fn decode_preserves_unknown_field_ids() {
    let mut r = RuleMessage::new(RuleFilter::Entry, RuleAction::Always);
    r.push_field(RuleField::Other(9999, 123456), FieldOp::Equal);
    let bytes = r.encode().unwrap();
    let back = RuleMessage::decode(&bytes).unwrap();
    assert_eq!(back.fields.len(), 1);
    assert_eq!(back.fields[0], (RuleField::Other(9999, 123456), FieldOp::Equal));
}

#[test]
fn status_round_trip_is_exact() {
    let mut s = StatusMessage::new();
    s.mask = 0x7f;
    s.enabled = 1;
    s.failure = 2;
    s.pid = 4321;
    s.rate_limit = 100;
    s.backlog_limit = 8192;
    s.lost = 17;
    s.backlog_wait_time = 60000;
    s.feature_bitmap = 127;
    let bytes = s.encode();
    assert_eq!(bytes.len(), 36);
    let back = StatusMessage::decode(&bytes).unwrap();
    assert_eq!(back, s);
}

#[test]
fn status_decode_rejects_wrong_length() {
    assert_eq!(StatusMessage::decode(&[0u8; 35]), Err(CodecError::Malformed));
    assert_eq!(StatusMessage::decode(&[0u8; 37]), Err(CodecError::Malformed));
    assert_eq!(StatusMessage::decode(&[]), Err(CodecError::Malformed));
}

#[test]
fn rule_decode_rejects_short_record() {
    assert!(RuleMessage::decode(&[0u8; 1039]).is_err());
}

#[test]
fn rule_decode_rejects_bad_operator() {
    let mut bytes = watch_rule().encode().unwrap();
    bytes[4 * 195..4 * 196].copy_from_slice(&0u32.to_le_bytes()); // operator slot 0
    assert!(RuleMessage::decode(&bytes).is_err());
}

#[test]
fn rule_decode_rejects_buffer_length_mismatch() {
    let mut bytes = watch_rule().encode().unwrap();
    bytes[4 * 259..4 * 260].copy_from_slice(&16u32.to_le_bytes()); // buflen lies
    assert!(RuleMessage::decode(&bytes).is_err());
}

#[test]
fn rule_decode_rejects_field_count_over_max() {
    let mut bytes = watch_rule().encode().unwrap();
    bytes[8..12].copy_from_slice(&65u32.to_le_bytes());
    assert!(RuleMessage::decode(&bytes).is_err());
}

#[test]
fn rule_decode_rejects_unknown_filter_list() {
    let mut bytes = watch_rule().encode().unwrap();
    bytes[0..4].copy_from_slice(&99u32.to_le_bytes());
    assert!(RuleMessage::decode(&bytes).is_err());
}

#[test]
fn rule_decode_rejects_unknown_action() {
    let mut bytes = watch_rule().encode().unwrap();
    bytes[4..8].copy_from_slice(&9u32.to_le_bytes());
    assert!(RuleMessage::decode(&bytes).is_err());
}

#[test]
fn rule_decode_rejects_nul_in_string_value() {
    let mut bytes = watch_rule().encode().unwrap();
    bytes[1041] = 0;
    assert!(RuleMessage::decode(&bytes).is_err());
}

#[test]
fn rule_decode_rejects_string_length_past_buffer() {
    let mut bytes = watch_rule().encode().unwrap();
    bytes[4 * 131..4 * 132].copy_from_slice(&18u32.to_le_bytes()); // watch length > buflen
    assert!(RuleMessage::decode(&bytes).is_err());
}

#[test]
fn rule_decode_rejects_nonzero_unused_slot() {
    let mut bytes = watch_rule().encode().unwrap();
    bytes[4 * (67 + 63)..4 * (67 + 63) + 4].copy_from_slice(&5u32.to_le_bytes()); // id slot 63
    assert!(RuleMessage::decode(&bytes).is_err());
}

#[test]
fn encode_rejects_too_many_fields() {
    let mut r = RuleMessage::new(RuleFilter::Exit, RuleAction::Always);
    for _ in 0..65 {
        r.push_field(RuleField::Uid(0), FieldOp::Equal);
    }
    assert_eq!(r.encode(), Err(CodecError::Malformed));
}

#[test]
fn encode_rejects_nul_in_string_value() {
    let mut r = RuleMessage::new(RuleFilter::Exit, RuleAction::Always);
    r.push_field(RuleField::Watch(b"/etc\0passwd".to_vec()), FieldOp::Equal);
    assert_eq!(r.encode(), Err(CodecError::Malformed));
}

#[test]
fn encode_rejects_opaque_field_shadowing_known_selector() {
    let mut r = RuleMessage::new(RuleFilter::Exit, RuleAction::Always);
    r.push_field(RuleField::Other(1, 5), FieldOp::Equal); // 1 is the uid selector
    assert_eq!(r.encode(), Err(CodecError::Malformed));
}

#[test]
fn encode_rejects_oversized_string_data() {
    let mut r = RuleMessage::new(RuleFilter::Exit, RuleAction::Always);
    for _ in 0..2 {
        r.push_field(RuleField::Filterkey(vec![b'k'; 20000]), FieldOp::Equal);
    }
    assert_eq!(r.encode(), Err(CodecError::Malformed));
}

#[test]
fn envelope_kind_tags_match_kernel_values() {
    let r = watch_rule();
    assert_eq!(AuditMessage::GetStatus(None).message_type(), 1000);
    assert_eq!(AuditMessage::SetStatus(StatusMessage::new()).message_type(), 1001);
    assert_eq!(AuditMessage::AddRule(r.clone()).message_type(), 1011);
    assert_eq!(AuditMessage::DelRule(r.clone()).message_type(), 1012);
    assert_eq!(AuditMessage::ListRules(None).message_type(), 1013);
}

#[test]
fn envelope_round_trips_through_kind_and_payload() {
    let r = watch_rule();
    let msg = AuditMessage::ListRules(Some(r));
    let kind = msg.message_type();
    let payload = msg.payload_bytes().unwrap();
    let back = AuditMessage::parse(kind, &payload).unwrap();
    assert_eq!(back, msg);

    let mut s = StatusMessage::new();
    s.mask = 5;
    s.pid = 77;
    let msg = AuditMessage::GetStatus(Some(s));
    let back = AuditMessage::parse(msg.message_type(), &msg.payload_bytes().unwrap()).unwrap();
    assert_eq!(back, msg);
}

#[test]
fn envelope_parse_rejects_unknown_kind() {
    assert!(AuditMessage::parse(42, &[]).is_err());
}

#[test]
fn bare_requests_have_empty_payloads() {
    assert_eq!(AuditMessage::GetStatus(None).payload_bytes().unwrap(), Vec::<u8>::new());
    assert_eq!(AuditMessage::ListRules(None).payload_bytes().unwrap(), Vec::<u8>::new());
}
