//! Control message envelope: the tagged union of every request and response
//! kind, pairing a codec payload with its message-kind tag.

use vstd::prelude::*;

use crate::codec::{rule_wf, spec_decode_rule, spec_encode_rule, CodecError};
use crate::rules::{RuleMessage, RuleModel};
use crate::status::{spec_decode_status, spec_encode_status, StatusMessage};

verus! {

// Message kind tags (kernel ABI).
pub const AUDIT_GET: u16 = 1000;
pub const AUDIT_SET: u16 = 1001;
pub const AUDIT_ADD_RULE: u16 = 1011;
pub const AUDIT_DEL_RULE: u16 = 1012;
pub const AUDIT_LIST_RULES: u16 = 1013;

/// One audit control message: status read/write, rule add/delete, rule
/// enumeration. The `Option` payloads are absent on request and populated
/// per reply.
#[derive(Clone, Debug, PartialEq, Eq)]
pub enum AuditMessage {
    GetStatus(Option<StatusMessage>),
    SetStatus(StatusMessage),
    AddRule(RuleMessage),
    DelRule(RuleMessage),
    ListRules(Option<RuleMessage>),
}

/// Mathematical model of a control message.
pub ghost enum AuditModel {
    GetStatus(Option<StatusMessage>),
    SetStatus(StatusMessage),
    AddRule(RuleModel),
    DelRule(RuleModel),
    ListRules(Option<RuleModel>),
}

impl View for AuditMessage {
    type V = AuditModel;

    open spec fn view(&self) -> AuditModel {
        match self {
            AuditMessage::GetStatus(o) => AuditModel::GetStatus(*o),
            AuditMessage::SetStatus(s) => AuditModel::SetStatus(*s),
            AuditMessage::AddRule(r) => AuditModel::AddRule(r@),
            AuditMessage::DelRule(r) => AuditModel::DelRule(r@),
            AuditMessage::ListRules(o) => match o {
                Some(r) => AuditModel::ListRules(Some(r@)),
                None => AuditModel::ListRules(None),
            },
        }
    }
}

/// The message kind tag carried in the netlink header.
pub open spec fn message_kind(m: AuditModel) -> u16 {
    match m {
        AuditModel::GetStatus(_) => AUDIT_GET,
        AuditModel::SetStatus(_) => AUDIT_SET,
        AuditModel::AddRule(_) => AUDIT_ADD_RULE,
        AuditModel::DelRule(_) => AUDIT_DEL_RULE,
        AuditModel::ListRules(_) => AUDIT_LIST_RULES,
    }
}

/// Whether every rule the message carries is representable.
pub open spec fn audit_wf(m: AuditModel) -> bool {
    match m {
        AuditModel::AddRule(r) => rule_wf(r),
        AuditModel::DelRule(r) => rule_wf(r),
        AuditModel::ListRules(Some(r)) => rule_wf(r),
        _ => true,
    }
}

/// Exact payload bytes of a message: a rule record, a status record, or
/// nothing for a bare request.
pub open spec fn spec_payload(m: AuditModel) -> Seq<u8> {
    match m {
        AuditModel::GetStatus(None) => Seq::empty(),
        AuditModel::GetStatus(Some(s)) => spec_encode_status(s),
        AuditModel::SetStatus(s) => spec_encode_status(s),
        AuditModel::AddRule(r) => spec_encode_rule(r),
        AuditModel::DelRule(r) => spec_encode_rule(r),
        AuditModel::ListRules(None) => Seq::empty(),
        AuditModel::ListRules(Some(r)) => spec_encode_rule(r),
    }
}

/// The message a reply payload of kind `kind` parses to, if any.
pub open spec fn spec_parse(kind: u16, b: Seq<u8>) -> Option<AuditModel> {
    if kind == AUDIT_GET {
        match spec_decode_status(b) {
            Some(s) => Some(AuditModel::GetStatus(Some(s))),
            None => None,
        }
    } else if kind == AUDIT_SET {
        match spec_decode_status(b) {
            Some(s) => Some(AuditModel::SetStatus(s)),
            None => None,
        }
    } else if kind == AUDIT_ADD_RULE {
        match spec_decode_rule(b) {
            Some(r) => Some(AuditModel::AddRule(r)),
            None => None,
        }
    } else if kind == AUDIT_DEL_RULE {
        match spec_decode_rule(b) {
            Some(r) => Some(AuditModel::DelRule(r)),
            None => None,
        }
    } else if kind == AUDIT_LIST_RULES {
        match spec_decode_rule(b) {
            Some(r) => Some(AuditModel::ListRules(Some(r))),
            None => None,
        }
    } else {
        None
    }
}

/// Whether the message's optional payload is present (replies are populated;
/// bare requests are not, and have no parseable image).
pub open spec fn populated(m: AuditModel) -> bool {
    match m {
        AuditModel::GetStatus(o) => o is Some,
        AuditModel::ListRules(o) => o is Some,
        _ => true,
    }
}

/// Envelope round trip: every well-formed populated message parses back
/// from its own kind tag and payload bytes.
pub proof fn lemma_envelope_round_trip(m: AuditModel)
    requires
        audit_wf(m),
        populated(m),
    ensures
        spec_parse(message_kind(m), spec_payload(m)) == Some(m),
{
    match m {
        AuditModel::GetStatus(o) => {
            crate::status::lemma_status_round_trip(o->Some_0);
        },
        AuditModel::SetStatus(s) => {
            crate::status::lemma_status_round_trip(s);
        },
        AuditModel::AddRule(r) => {
            crate::codec::lemma_rule_round_trip(r);
        },
        AuditModel::DelRule(r) => {
            crate::codec::lemma_rule_round_trip(r);
        },
        AuditModel::ListRules(o) => {
            crate::codec::lemma_rule_round_trip(o->Some_0);
        },
    }
}

impl AuditMessage {
    /// The message kind tag for the netlink header.
    pub fn message_type(&self) -> (r: u16)
        ensures
            r == message_kind(self@),
    {
        match self {
            AuditMessage::GetStatus(_) => AUDIT_GET,
            AuditMessage::SetStatus(_) => AUDIT_SET,
            AuditMessage::AddRule(_) => AUDIT_ADD_RULE,
            AuditMessage::DelRule(_) => AUDIT_DEL_RULE,
            AuditMessage::ListRules(_) => AUDIT_LIST_RULES,
        }
    }

    /// Serialize the payload; fails exactly when a carried rule is not
    /// representable.
    pub fn payload_bytes(&self) -> (r: Result<Vec<u8>, CodecError>)
        ensures
            match r {
                Ok(v) => audit_wf(self@) && v@ == spec_payload(self@),
                Err(_) => !audit_wf(self@),
            },
    {
        match self {
            AuditMessage::GetStatus(None) => Ok(Vec::new()),
            AuditMessage::GetStatus(Some(s)) => Ok(s.encode()),
            AuditMessage::SetStatus(s) => Ok(s.encode()),
            AuditMessage::AddRule(r) => r.encode(),
            AuditMessage::DelRule(r) => r.encode(),
            AuditMessage::ListRules(None) => Ok(Vec::new()),
            AuditMessage::ListRules(Some(r)) => r.encode(),
        }
    }

    /// Parse a reply payload of the given kind; exactly the kinds above with
    /// a decodable record parse.
    pub fn parse(kind: u16, payload: &[u8]) -> (r: Result<AuditMessage, CodecError>)
        ensures
            match spec_parse(kind, payload@) {
                Some(m) => r is Ok && r->Ok_0@ == m,
                None => r is Err,
            },
    {
        if kind == AUDIT_GET {
            match StatusMessage::decode(payload) {
                Ok(s) => Ok(AuditMessage::GetStatus(Some(s))),
                Err(e) => Err(e),
            }
        } else if kind == AUDIT_SET {
            match StatusMessage::decode(payload) {
                Ok(s) => Ok(AuditMessage::SetStatus(s)),
                Err(e) => Err(e),
            }
        } else if kind == AUDIT_ADD_RULE {
            match RuleMessage::decode(payload) {
                Ok(r) => Ok(AuditMessage::AddRule(r)),
                Err(e) => Err(e),
            }
        } else if kind == AUDIT_DEL_RULE {
            match RuleMessage::decode(payload) {
                Ok(r) => Ok(AuditMessage::DelRule(r)),
                Err(e) => Err(e),
            }
        } else if kind == AUDIT_LIST_RULES {
            match RuleMessage::decode(payload) {
                Ok(r) => Ok(AuditMessage::ListRules(Some(r))),
                Err(e) => Err(e),
            }
        } else {
            Err(CodecError::Malformed)
        }
    }
}

} // verus!
