//! Client-side model of the Linux kernel audit control protocol: audit rules,
//! status snapshots, their exact wire encodings, and the classification of
//! netlink replies into results.

pub mod bytes;
pub mod codec;
pub mod handle;
pub mod mask;
pub mod message;
pub mod rules;
pub mod status;

pub use codec::CodecError;
pub use handle::{
    classify_ack_reply, classify_dump_replies, classify_dump_rule, classify_status_reply, Error,
    NetlinkErrorMessage, ReplyMessage, ReplyPayload, Request,
};
pub use handle::{
    add_rule_request, del_rule_request, enable_events_request, get_status_request,
    list_rules_request, set_enabled_request, set_pid_request, set_status_request,
};
pub use mask::SyscallMask;
pub use message::AuditMessage;
pub use rules::{FieldOp, RuleAction, RuleField, RuleFilter, RuleMessage};
pub use status::StatusMessage;
