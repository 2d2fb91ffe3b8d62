use audit::{
    add_rule_request, classify_ack_reply, classify_dump_replies, classify_dump_rule,
    classify_status_reply, del_rule_request, enable_events_request, get_status_request,
    list_rules_request, set_enabled_request, set_pid_request, set_status_request, AuditMessage,
    Error, FieldOp, NetlinkErrorMessage, ReplyMessage, ReplyPayload, RuleAction, RuleField,
    RuleFilter, RuleMessage, StatusMessage,
};
use audit::message::AUDIT_LIST_RULES;
use audit::status::{
    AUDIT_STATUS_ENABLED, AUDIT_STATUS_FAILURE, AUDIT_STATUS_LOST, AUDIT_STATUS_PID,
    AUDIT_STATUS_RATE_LIMIT,
};

fn sample_rule(key: &[u8]) -> RuleMessage {
    let mut r = RuleMessage::new(RuleFilter::Exit, RuleAction::Always);
    r.push_field(RuleField::Filterkey(key.to_vec()), FieldOp::Equal);
    r.syscalls.set(59);
    r
}

#[test]
fn silence_is_success_for_acked_requests() {
    assert_eq!(classify_ack_reply(None), Ok(()));
}

#[test]
fn error_reply_surfaces_its_exact_payload() {
    let e = NetlinkErrorMessage { code: -17, data: vec![1, 2, 3, 4] };
    let msg = ReplyMessage { message_type: 2, flags: 0, payload: ReplyPayload::Error(e.clone()) };
    assert_eq!(
        classify_ack_reply(Some(msg.clone())),
        Err(Error::NetlinkError(NetlinkErrorMessage { code: -17, data: vec![1, 2, 3, 4] }))
    );
    assert_eq!(classify_dump_rule(msg), Err(Error::NetlinkError(e)));
}

#[test]
fn wrong_kind_reply_is_unexpected_message() {
    // A status datagram answering a rule enumeration.
    let mut s = StatusMessage::new();
    s.mask = AUDIT_STATUS_ENABLED;
    s.enabled = 1;
    let msg = ReplyMessage {
        message_type: 1000,
        flags: 0,
        payload: ReplyPayload::Inner(AuditMessage::GetStatus(Some(s))),
    };
    assert_eq!(
        classify_dump_rule(msg.clone()),
        Err(Error::UnexpectedMessage(msg.clone()))
    );
    assert_eq!(
        classify_ack_reply(Some(msg.clone())),
        Err(Error::UnexpectedMessage(msg))
    );
}

#[test]
fn status_read_with_no_reply_is_request_failed() {
    assert_eq!(classify_status_reply(None), Err(Error::RequestFailed));
}

#[test]
fn status_read_takes_populated_status_reply() {
    let mut s = StatusMessage::new();
    s.mask = AUDIT_STATUS_ENABLED | AUDIT_STATUS_PID;
    s.enabled = 1;
    s.pid = 99;
    let msg = ReplyMessage {
        message_type: 1000,
        flags: 0,
        payload: ReplyPayload::Inner(AuditMessage::GetStatus(Some(s))),
    };
    assert_eq!(classify_status_reply(Some(msg)), Ok(s));
}

#[test]
fn status_read_rejects_rule_reply_as_unexpected() {
    let msg = ReplyMessage {
        message_type: 1013,
        flags: 0,
        payload: ReplyPayload::Inner(AuditMessage::ListRules(Some(sample_rule(b"x")))),
    };
    assert_eq!(
        classify_status_reply(Some(msg.clone())),
        Err(Error::UnexpectedMessage(msg))
    );
}

#[test]
fn dump_stream_of_n_datagrams_yields_n_rules_in_order() {
    let rules = vec![sample_rule(b"one"), sample_rule(b"two"), sample_rule(b"three")];
    let mut replies = Vec::new();
    for r in &rules {
        // Simulate the wire: encode, then parse as a reply datagram.
        let bytes = r.encode().unwrap();
        let parsed = AuditMessage::parse(AUDIT_LIST_RULES, &bytes).unwrap();
        replies.push(ReplyMessage {
            message_type: AUDIT_LIST_RULES,
            flags: 2,
            payload: ReplyPayload::Inner(parsed),
        });
    }
    let out = classify_dump_replies(replies);
    assert_eq!(out.len(), 3);
    for (item, r) in out.iter().zip(rules.iter()) {
        assert_eq!(item.as_ref().unwrap(), r);
    }
}

#[test]
fn malformed_dump_datagram_yields_one_error_item_and_enumeration_continues() {
    let before = sample_rule(b"before");
    let after = sample_rule(b"after");
    // A structurally invalid rule record: as app routes it, the failed parse
    // keeps the raw bytes as a Malformed reply payload.
    let mut bad_bytes = sample_rule(b"bad").encode().unwrap();
    bad_bytes.truncate(100);
    assert!(AuditMessage::parse(AUDIT_LIST_RULES, &bad_bytes).is_err());
    let replies = vec![
        ReplyMessage {
            message_type: AUDIT_LIST_RULES,
            flags: 2,
            payload: ReplyPayload::Inner(AuditMessage::ListRules(Some(before.clone()))),
        },
        ReplyMessage {
            message_type: AUDIT_LIST_RULES,
            flags: 2,
            payload: ReplyPayload::Malformed(bad_bytes),
        },
        ReplyMessage {
            message_type: AUDIT_LIST_RULES,
            flags: 2,
            payload: ReplyPayload::Inner(AuditMessage::ListRules(Some(after.clone()))),
        },
    ];
    let out = classify_dump_replies(replies);
    assert_eq!(out.len(), 3);
    assert_eq!(out[0].as_ref().unwrap(), &before);
    assert_eq!(out[1], Err(Error::Malformed));
    assert_eq!(out[2].as_ref().unwrap(), &after);
}

#[test]
fn malformed_ack_reply_is_unexpected_message() {
    let msg = ReplyMessage {
        message_type: 1011,
        flags: 0,
        payload: ReplyPayload::Malformed(vec![1, 2, 3]),
    };
    assert_eq!(
        classify_ack_reply(Some(msg.clone())),
        Err(Error::UnexpectedMessage(msg.clone()))
    );
    assert_eq!(
        classify_status_reply(Some(msg.clone())),
        Err(Error::UnexpectedMessage(msg))
    );
}

#[test]
fn unexpected_dump_item_does_not_end_enumeration() {
    let good = sample_rule(b"ok");
    let replies = vec![
        ReplyMessage {
            message_type: AUDIT_LIST_RULES,
            flags: 2,
            payload: ReplyPayload::Other(77),
        },
        ReplyMessage {
            message_type: AUDIT_LIST_RULES,
            flags: 2,
            payload: ReplyPayload::Inner(AuditMessage::ListRules(Some(good.clone()))),
        },
    ];
    let out = classify_dump_replies(replies);
    assert_eq!(out.len(), 2);
    assert!(matches!(out[0], Err(Error::UnexpectedMessage(_))));
    assert_eq!(out[1].as_ref().unwrap(), &good);
}

#[test]
fn request_flags_match_each_intent() {
    let r = sample_rule(b"k");
    assert_eq!(add_rule_request(r.clone()).flags, 0x605); // REQUEST|ACK|EXCL|CREATE
    assert_eq!(del_rule_request(r.clone()).flags, 0x105); // REQUEST|ACK|NONREC
    assert_eq!(list_rules_request().flags, 0x301); // REQUEST|DUMP
    assert_eq!(get_status_request().flags, 0x301); // REQUEST|DUMP
    assert_eq!(set_status_request(StatusMessage::new()).flags, 0x5); // REQUEST|ACK
    let req = add_rule_request(r.clone());
    assert_eq!(req.message, AuditMessage::AddRule(r.clone()));
    let req = del_rule_request(r.clone());
    assert_eq!(req.message, AuditMessage::DelRule(r));
    assert_eq!(list_rules_request().message, AuditMessage::ListRules(None));
    assert_eq!(get_status_request().message, AuditMessage::GetStatus(None));
}

#[test]
fn set_pid_builds_pid_only_status() {
    let req = set_pid_request(1234);
    assert_eq!(req.flags, 0x5);
    match req.message {
        AuditMessage::SetStatus(s) => {
            assert_eq!(s.mask, AUDIT_STATUS_PID);
            assert_eq!(s.pid, 1234);
            assert_eq!(s.enabled, 0);
            assert_eq!(s.failure, 0);
            assert_eq!(s.rate_limit, 0);
            assert_eq!(s.backlog_limit, 0);
            assert_eq!(s.lost, 0);
            assert_eq!(s.backlog_wait_time, 0);
            assert_eq!(s.feature_bitmap, 0);
        }
        other => panic!("expected a status write, got {:?}", other),
    }
}

#[test]
fn set_enabled_builds_enabled_only_status() {
    for (value, expect) in [(true, 1u32), (false, 0u32)] {
        let req = set_enabled_request(value);
        match req.message {
            AuditMessage::SetStatus(s) => {
                assert_eq!(s.mask, AUDIT_STATUS_ENABLED);
                assert_eq!(s.enabled, expect);
                assert_eq!(s.pid, 0);
            }
            other => panic!("expected a status write, got {:?}", other),
        }
    }
}

#[test]
fn enable_events_sets_enabled_and_pid_atomically() {
    let req = enable_events_request(4321);
    assert_eq!(req.flags, 0x5);
    match req.message {
        AuditMessage::SetStatus(s) => {
            assert_eq!(s.mask, AUDIT_STATUS_ENABLED | AUDIT_STATUS_PID);
            assert_eq!(s.enabled, 1);
            assert_eq!(s.pid, 4321);
        }
        other => panic!("expected a status write, got {:?}", other),
    }
}

#[test]
fn decoded_status_mask_says_which_attributes_are_meaningful() {
    let mut s = StatusMessage::new();
    s.mask = AUDIT_STATUS_ENABLED | AUDIT_STATUS_PID;
    s.enabled = 1;
    s.pid = 1234;
    let back = StatusMessage::decode(&s.encode()).unwrap();
    assert!(back.carries(AUDIT_STATUS_ENABLED));
    assert!(back.carries(AUDIT_STATUS_PID));
    assert!(!back.carries(AUDIT_STATUS_FAILURE));
    assert!(!back.carries(AUDIT_STATUS_RATE_LIMIT));
    assert!(!back.carries(AUDIT_STATUS_LOST));
}
