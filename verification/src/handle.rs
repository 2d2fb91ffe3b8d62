//! Reply classification and request construction for the control protocol.
//!
//! The protocol idiom applied uniformly here: for acknowledged requests,
//! reply-stream completion with no payload is success, and any payload is a
//! kernel error or a protocol violation. These functions are pure; the
//! transport that dispatches requests and awaits correlated replies hands
//! them plain values and acts on what they return.

use vstd::prelude::*;

use crate::message::AuditMessage;
use crate::rules::RuleMessage;
use crate::status::{StatusMessage, AUDIT_STATUS_ENABLED, AUDIT_STATUS_PID};

verus! {

// Netlink header flag bits (kernel ABI).
pub const NLM_F_REQUEST: u16 = 1;
pub const NLM_F_ACK: u16 = 4;
pub const NLM_F_NONREC: u16 = 0x100;
pub const NLM_F_EXCL: u16 = 0x200;
pub const NLM_F_CREATE: u16 = 0x400;
pub const NLM_F_DUMP: u16 = 0x300;

/// A kernel error reply, carried verbatim: the numeric error code and the
/// raw bytes the kernel attached (typically the rejected request).
#[derive(Clone, Debug, PartialEq, Eq)]
pub struct NetlinkErrorMessage {
    pub code: i32,
    pub data: Vec<u8>,
}

/// Decoded payload of one correlated reply datagram.
#[derive(Clone, Debug, PartialEq, Eq)]
pub enum ReplyPayload {
    /// An audit control message.
    Inner(AuditMessage),
    /// An explicit kernel error reply.
    Error(NetlinkErrorMessage),
    /// A datagram whose payload did not decode as any control message; the
    /// raw bytes are kept so the failure can be surfaced, never dropped.
    Malformed(Vec<u8>),
    /// Any other control payload, kept by kind tag for diagnostics.
    Other(u16),
}

/// One correlated reply datagram, as the transport hands it back.
#[derive(Clone, Debug, PartialEq, Eq)]
pub struct ReplyMessage {
    pub message_type: u16,
    pub flags: u16,
    pub payload: ReplyPayload,
}

/// What a control operation can fail with. No error is silently discarded.
#[derive(Clone, Debug, PartialEq, Eq)]
pub enum Error {
    /// The transport could not dispatch the request; fatal to that call only.
    RequestFailed,
    /// The kernel explicitly rejected the request; its payload is carried
    /// verbatim and the request is never retried here.
    NetlinkError(NetlinkErrorMessage),
    /// The reply is neither expected silence, a recognized error, nor a
    /// valid item: a protocol violation, surfaced with the raw message.
    UnexpectedMessage(ReplyMessage),
    /// A reply datagram did not decode.
    Malformed,
}

/// A request ready for dispatch: the envelope and its header flag bits.
pub struct Request {
    pub message: AuditMessage,
    pub flags: u16,
}

/// Outcome of an acknowledged exchange, from the first reply datagram (if
/// any): silence is success; an error payload is a kernel rejection,
/// surfaced verbatim; anything else is a protocol violation.
pub open spec fn ack_outcome(first: Option<ReplyMessage>) -> Result<(), Error> {
    match first {
        None => Ok(()),
        Some(msg) => match msg.payload {
            ReplyPayload::Error(e) => Err(Error::NetlinkError(e)),
            _ => Err(Error::UnexpectedMessage(msg)),
        },
    }
}

/// Outcome of one dump reply datagram in a rule enumeration: a populated
/// rule reply yields its rule; an error payload surfaces verbatim; an
/// undecodable datagram is one `Malformed` item; anything else is a
/// protocol violation.
pub open spec fn dump_item_outcome(msg: ReplyMessage) -> Result<RuleMessage, Error> {
    match msg.payload {
        ReplyPayload::Inner(AuditMessage::ListRules(Some(rule))) => Ok(rule),
        ReplyPayload::Error(e) => Err(Error::NetlinkError(e)),
        ReplyPayload::Malformed(_) => Err(Error::Malformed),
        _ => Err(Error::UnexpectedMessage(msg)),
    }
}

/// Outcome of a status read, from the first reply datagram: a populated
/// status reply yields its snapshot; no datagram at all means the request
/// went unanswered; anything else is a protocol violation.
pub open spec fn status_outcome(first: Option<ReplyMessage>) -> Result<StatusMessage, Error> {
    match first {
        None => Err(Error::RequestFailed),
        Some(msg) => match msg.payload {
            ReplyPayload::Inner(AuditMessage::GetStatus(Some(s))) => Ok(s),
            _ => Err(Error::UnexpectedMessage(msg)),
        },
    }
}

/// Classify the first reply of an acknowledged exchange.
pub fn classify_ack_reply(first: Option<ReplyMessage>) -> (r: Result<(), Error>)
    ensures
        r == ack_outcome(first),
{
    match first {
        None => Ok(()),
        Some(msg) => {
            let ReplyMessage { message_type, flags, payload } = msg;
            match payload {
                ReplyPayload::Error(e) => Err(Error::NetlinkError(e)),
                p => {
                    let back = ReplyMessage { message_type, flags, payload: p };
                    proof {
                        assert(back == msg);
                    }
                    Err(Error::UnexpectedMessage(back))
                },
            }
        },
    }
}

/// Classify one reply datagram of a rule enumeration.
pub fn classify_dump_rule(msg: ReplyMessage) -> (r: Result<RuleMessage, Error>)
    ensures
        r == dump_item_outcome(msg),
{
    let ReplyMessage { message_type, flags, payload } = msg;
    match payload {
        ReplyPayload::Inner(AuditMessage::ListRules(Some(rule))) => Ok(rule),
        ReplyPayload::Error(e) => Err(Error::NetlinkError(e)),
        ReplyPayload::Malformed(_) => Err(Error::Malformed),
        p => {
            let back = ReplyMessage { message_type, flags, payload: p };
            proof {
                assert(back == msg);
            }
            Err(Error::UnexpectedMessage(back))
        },
    }
}

/// Classify a whole enumeration reply stream, one result per datagram, in
/// order: one malformed or unexpected datagram yields one error item without
/// ending the enumeration.
pub fn classify_dump_replies(msgs: Vec<ReplyMessage>) -> (r: Vec<Result<RuleMessage, Error>>)
    ensures
        r@.len() == msgs@.len(),
        forall|i: int| 0 <= i < msgs@.len() ==> r@[i] == dump_item_outcome(msgs@[i]),
{
    let ghost orig = msgs@;
    let mut rest = msgs;
    let mut out: Vec<Result<RuleMessage, Error>> = Vec::new();
    while rest.len() > 0
        invariant
            out@.len() + rest@.len() == orig.len(),
            rest@ == orig.skip(out@.len() as int),
            forall|i: int| 0 <= i < out@.len() ==> out@[i] == dump_item_outcome(orig[i]),
        decreases rest@.len(),
    {
        let msg = rest.remove(0);
        proof {
            assert(msg == orig[out@.len() as int]);
            assert(rest@ =~= orig.skip(out@.len() as int + 1));
        }
        let item = classify_dump_rule(msg);
        out.push(item);
    }
    out
}

/// Classify the first reply of a status read.
pub fn classify_status_reply(first: Option<ReplyMessage>) -> (r: Result<StatusMessage, Error>)
    ensures
        r == status_outcome(first),
{
    match first {
        None => Err(Error::RequestFailed),
        Some(msg) => {
            let ReplyMessage { message_type, flags, payload } = msg;
            match payload {
                ReplyPayload::Inner(AuditMessage::GetStatus(Some(s))) => Ok(s),
                p => {
                    let back = ReplyMessage { message_type, flags, payload: p };
                    proof {
                        assert(back == msg);
                    }
                    Err(Error::UnexpectedMessage(back))
                },
            }
        },
    }
}

/// Silence is success: a reply stream that completes with zero datagrams
/// resolves an acknowledged request to `Ok`.
pub proof fn lemma_silence_is_success()
    ensures
        ack_outcome(None) == Ok::<(), Error>(()),
{
}

/// A kernel error reply resolves to `NetlinkError` carrying exactly that
/// payload, for acknowledged requests and enumeration items alike.
pub proof fn lemma_error_surfaced(msg: ReplyMessage, e: NetlinkErrorMessage)
    requires
        msg.payload == ReplyPayload::Error(e),
    ensures
        ack_outcome(Some(msg)) == Err::<(), Error>(Error::NetlinkError(e)),
        dump_item_outcome(msg) == Err::<RuleMessage, Error>(Error::NetlinkError(e)),
{
}

/// A reply of the wrong kind resolves to `UnexpectedMessage` carrying the
/// raw message: for acknowledged requests, any non-error payload; for
/// enumeration items, anything that is neither an error, an undecodable
/// datagram, nor a populated rule reply; for status reads, anything but a
/// populated status reply.
pub proof fn lemma_unexpected_surfaced(msg: ReplyMessage)
    ensures
        !(msg.payload is Error) ==> ack_outcome(Some(msg)) == Err::<(), Error>(
            Error::UnexpectedMessage(msg),
        ),
        !(msg.payload is Error) && !(msg.payload is Malformed) && !(msg.payload matches
        ReplyPayload::Inner(AuditMessage::ListRules(Some(_)))) ==> dump_item_outcome(msg)
            == Err::<RuleMessage, Error>(Error::UnexpectedMessage(msg)),
        !(msg.payload matches ReplyPayload::Inner(AuditMessage::GetStatus(Some(_))))
            ==> status_outcome(Some(msg)) == Err::<StatusMessage, Error>(
            Error::UnexpectedMessage(msg),
        ),
{
}

/// An undecodable datagram is never silently discarded: in an enumeration
/// it is exactly one `Malformed` error item (the stream goes on past it);
/// in an acknowledged or single-shot exchange, where no item stream exists,
/// it resolves the call to `UnexpectedMessage` with the raw message.
pub proof fn lemma_malformed_surfaced(msg: ReplyMessage, raw: Vec<u8>)
    requires
        msg.payload == ReplyPayload::Malformed(raw),
    ensures
        dump_item_outcome(msg) == Err::<RuleMessage, Error>(Error::Malformed),
        ack_outcome(Some(msg)) == Err::<(), Error>(Error::UnexpectedMessage(msg)),
        status_outcome(Some(msg)) == Err::<StatusMessage, Error>(Error::UnexpectedMessage(msg)),
{
}

/// Request to install a rule: create, fail if it already exists, and demand
/// an acknowledgement.
pub fn add_rule_request(rule: RuleMessage) -> (r: Request)
    ensures
        r.message == AuditMessage::AddRule(rule),
        r.flags == (NLM_F_REQUEST | NLM_F_ACK | NLM_F_EXCL | NLM_F_CREATE),
{
    Request {
        message: AuditMessage::AddRule(rule),
        flags: NLM_F_REQUEST | NLM_F_ACK | NLM_F_EXCL | NLM_F_CREATE,
    }
}

/// Request to delete a rule by content: exact match, non-recursive,
/// acknowledged.
pub fn del_rule_request(rule: RuleMessage) -> (r: Request)
    ensures
        r.message == AuditMessage::DelRule(rule),
        r.flags == (NLM_F_REQUEST | NLM_F_ACK | NLM_F_NONREC),
{
    Request {
        message: AuditMessage::DelRule(rule),
        flags: NLM_F_REQUEST | NLM_F_ACK | NLM_F_NONREC,
    }
}

/// Request to enumerate the installed rules as a dump stream.
pub fn list_rules_request() -> (r: Request)
    ensures
        r.message == AuditMessage::ListRules(None::<RuleMessage>),
        r.flags == (NLM_F_REQUEST | NLM_F_DUMP),
{
    Request { message: AuditMessage::ListRules(None), flags: NLM_F_REQUEST | NLM_F_DUMP }
}

/// Request to read the status snapshot.
pub fn get_status_request() -> (r: Request)
    ensures
        r.message == AuditMessage::GetStatus(None::<StatusMessage>),
        r.flags == (NLM_F_REQUEST | NLM_F_DUMP),
{
    Request { message: AuditMessage::GetStatus(None), flags: NLM_F_REQUEST | NLM_F_DUMP }
}

/// Request to write a status update; the caller's `mask` selects which
/// attributes the message communicates.
pub fn set_status_request(status: StatusMessage) -> (r: Request)
    ensures
        r.message == AuditMessage::SetStatus(status),
        r.flags == (NLM_F_REQUEST | NLM_F_ACK),
{
    Request { message: AuditMessage::SetStatus(status), flags: NLM_F_REQUEST | NLM_F_ACK }
}

/// Request that sets only whether the subsystem is enabled.
pub fn set_enabled_request(value: bool) -> (r: Request)
    ensures
        r.message == AuditMessage::SetStatus(
            StatusMessage {
                mask: AUDIT_STATUS_ENABLED,
                enabled: if value {
                    1u32
                } else {
                    0u32
                },
                failure: 0,
                pid: 0,
                rate_limit: 0,
                backlog_limit: 0,
                lost: 0,
                backlog_wait_time: 0,
                feature_bitmap: 0,
            },
        ),
        r.flags == (NLM_F_REQUEST | NLM_F_ACK),
{
    let mut status = StatusMessage::new();
    status.enabled = if value {
        1
    } else {
        0
    };
    status.mask = AUDIT_STATUS_ENABLED;
    set_status_request(status)
}

/// Request that sets only the process id audit events are addressed to
/// (0 unsets the restriction).
pub fn set_pid_request(pid: u32) -> (r: Request)
    ensures
        r.message == AuditMessage::SetStatus(
            StatusMessage {
                mask: AUDIT_STATUS_PID,
                enabled: 0,
                failure: 0,
                pid: pid,
                rate_limit: 0,
                backlog_limit: 0,
                lost: 0,
                backlog_wait_time: 0,
                feature_bitmap: 0,
            },
        ),
        r.flags == (NLM_F_REQUEST | NLM_F_ACK),
{
    let mut status = StatusMessage::new();
    status.pid = pid;
    status.mask = AUDIT_STATUS_PID;
    set_status_request(status)
}

/// Request that enables event delivery and addresses events to `pid` in one
/// atomic message, so no window exists where events are enabled but
/// undelivered to any process.
pub fn enable_events_request(pid: u32) -> (r: Request)
    ensures
        r.message == AuditMessage::SetStatus(
            StatusMessage {
                mask: AUDIT_STATUS_ENABLED | AUDIT_STATUS_PID,
                enabled: 1,
                failure: 0,
                pid: pid,
                rate_limit: 0,
                backlog_limit: 0,
                lost: 0,
                backlog_wait_time: 0,
                feature_bitmap: 0,
            },
        ),
        r.flags == (NLM_F_REQUEST | NLM_F_ACK),
{
    let mut status = StatusMessage::new();
    status.enabled = 1;
    status.pid = pid;
    status.mask = AUDIT_STATUS_ENABLED | AUDIT_STATUS_PID;
    set_status_request(status)
}

} // verus!

