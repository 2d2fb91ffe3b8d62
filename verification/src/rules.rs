//! The audit rule model: filter list, action, ordered field triples, and the
//! fixed kernel lookup tables mapping semantic selectors and comparison
//! operators to their numeric wire codes.

use vstd::prelude::*;

use crate::mask::{SyscallMask, AUDIT_BITMASK_SIZE};

verus! {

/// Greatest number of condition fields one rule may carry (kernel layout).
pub const AUDIT_MAX_FIELDS: usize = 64;

/// Greatest total byte count of all string-valued fields of one rule.
pub const AUDIT_MAX_BUFLEN: u32 = 32767;

// Field selector wire codes (kernel ABI).
pub const AUDIT_PID: u32 = 0;
pub const AUDIT_UID: u32 = 1;
pub const AUDIT_EUID: u32 = 2;
pub const AUDIT_GID: u32 = 5;
pub const AUDIT_EGID: u32 = 6;
pub const AUDIT_ARCH: u32 = 11;
pub const AUDIT_EXIT: u32 = 103;
pub const AUDIT_SUCCESS: u32 = 104;
pub const AUDIT_WATCH: u32 = 105;
pub const AUDIT_PERM: u32 = 106;
pub const AUDIT_DIR: u32 = 107;
pub const AUDIT_EXE: u32 = 112;
pub const AUDIT_FILTERKEY: u32 = 210;

// Comparison operator wire codes (kernel ABI bitfield).
pub const AUDIT_BIT_MASK: u32 = 0x0800_0000;
pub const AUDIT_LESS_THAN: u32 = 0x1000_0000;
pub const AUDIT_GREATER_THAN: u32 = 0x2000_0000;
pub const AUDIT_NOT_EQUAL: u32 = 0x3000_0000;
pub const AUDIT_EQUAL: u32 = 0x4000_0000;
pub const AUDIT_BIT_TEST: u32 = 0x4800_0000;
pub const AUDIT_LESS_THAN_OR_EQUAL: u32 = 0x5000_0000;
pub const AUDIT_GREATER_THAN_OR_EQUAL: u32 = 0x6000_0000;

// Filter list wire codes (kernel ABI).
pub const AUDIT_FILTER_USER: u32 = 0;
pub const AUDIT_FILTER_TASK: u32 = 1;
pub const AUDIT_FILTER_ENTRY: u32 = 2;
pub const AUDIT_FILTER_EXIT: u32 = 4;
pub const AUDIT_FILTER_EXCLUDE: u32 = 5;

// Action wire codes (kernel ABI).
pub const AUDIT_NEVER: u32 = 0;
pub const AUDIT_ALWAYS: u32 = 2;

/// Kernel-side attachment point of a rule.
#[derive(Clone, Copy, Debug, PartialEq, Eq, Structural)]
pub enum RuleFilter {
    User,
    Task,
    Entry,
    Exit,
    Exclude,
}

/// What happens to a matching event: discard it or keep it.
#[derive(Clone, Copy, Debug, PartialEq, Eq, Structural)]
pub enum RuleAction {
    Never,
    Always,
}

/// Comparison operator of one condition field.
#[derive(Clone, Copy, Debug, PartialEq, Eq, Structural)]
pub enum FieldOp {
    Equal,
    NotEqual,
    GreaterThan,
    LessThan,
    GreaterOrEqual,
    LessOrEqual,
    BitmaskAnySet,
    BitmaskAllSet,
}

/// One condition field: a semantic selector together with its value.
/// String-valued selectors carry NUL-free bytes; `Other` preserves a field
/// with an unrecognized numeric selector as an opaque (id, raw value) pair.
#[derive(Clone, Debug, PartialEq, Eq)]
pub enum RuleField {
    Watch(Vec<u8>),
    Dir(Vec<u8>),
    Exe(Vec<u8>),
    Filterkey(Vec<u8>),
    Arch(u32),
    Perm(u32),
    Pid(u32),
    Uid(u32),
    Euid(u32),
    Gid(u32),
    Egid(u32),
    Exit(u32),
    Success(u32),
    Other(u32, u32),
}

/// Mathematical model of one condition field.
pub ghost enum FieldSpec {
    Watch(Seq<u8>),
    Dir(Seq<u8>),
    Exe(Seq<u8>),
    Filterkey(Seq<u8>),
    Arch(u32),
    Perm(u32),
    Pid(u32),
    Uid(u32),
    Euid(u32),
    Gid(u32),
    Egid(u32),
    Exit(u32),
    Success(u32),
    Other(u32, u32),
}

impl View for RuleField {
    type V = FieldSpec;

    open spec fn view(&self) -> FieldSpec {
        match self {
            RuleField::Watch(s) => FieldSpec::Watch(s@),
            RuleField::Dir(s) => FieldSpec::Dir(s@),
            RuleField::Exe(s) => FieldSpec::Exe(s@),
            RuleField::Filterkey(s) => FieldSpec::Filterkey(s@),
            RuleField::Arch(v) => FieldSpec::Arch(*v),
            RuleField::Perm(v) => FieldSpec::Perm(*v),
            RuleField::Pid(v) => FieldSpec::Pid(*v),
            RuleField::Uid(v) => FieldSpec::Uid(*v),
            RuleField::Euid(v) => FieldSpec::Euid(*v),
            RuleField::Gid(v) => FieldSpec::Gid(*v),
            RuleField::Egid(v) => FieldSpec::Egid(*v),
            RuleField::Exit(v) => FieldSpec::Exit(*v),
            RuleField::Success(v) => FieldSpec::Success(*v),
            RuleField::Other(id, v) => FieldSpec::Other(*id, *v),
        }
    }
}

/// Numeric selector id of a field.
pub open spec fn field_id(f: FieldSpec) -> u32 {
    match f {
        FieldSpec::Watch(_) => AUDIT_WATCH,
        FieldSpec::Dir(_) => AUDIT_DIR,
        FieldSpec::Exe(_) => AUDIT_EXE,
        FieldSpec::Filterkey(_) => AUDIT_FILTERKEY,
        FieldSpec::Arch(_) => AUDIT_ARCH,
        FieldSpec::Perm(_) => AUDIT_PERM,
        FieldSpec::Pid(_) => AUDIT_PID,
        FieldSpec::Uid(_) => AUDIT_UID,
        FieldSpec::Euid(_) => AUDIT_EUID,
        FieldSpec::Gid(_) => AUDIT_GID,
        FieldSpec::Egid(_) => AUDIT_EGID,
        FieldSpec::Exit(_) => AUDIT_EXIT,
        FieldSpec::Success(_) => AUDIT_SUCCESS,
        FieldSpec::Other(id, _) => id,
    }
}

/// The word written to the value slot of a field: the numeric value, the raw
/// opaque value, or the byte length of a string value.
pub open spec fn field_val(f: FieldSpec) -> u32 {
    match f {
        FieldSpec::Watch(s) => s.len() as u32,
        FieldSpec::Dir(s) => s.len() as u32,
        FieldSpec::Exe(s) => s.len() as u32,
        FieldSpec::Filterkey(s) => s.len() as u32,
        FieldSpec::Arch(v) => v,
        FieldSpec::Perm(v) => v,
        FieldSpec::Pid(v) => v,
        FieldSpec::Uid(v) => v,
        FieldSpec::Euid(v) => v,
        FieldSpec::Gid(v) => v,
        FieldSpec::Egid(v) => v,
        FieldSpec::Exit(v) => v,
        FieldSpec::Success(v) => v,
        FieldSpec::Other(_, v) => v,
    }
}

/// Bytes a field contributes to the trailing buffer: the string value for
/// string-valued selectors, nothing otherwise.
pub open spec fn field_str(f: FieldSpec) -> Seq<u8> {
    match f {
        FieldSpec::Watch(s) => s,
        FieldSpec::Dir(s) => s,
        FieldSpec::Exe(s) => s,
        FieldSpec::Filterkey(s) => s,
        _ => Seq::empty(),
    }
}

/// Selector ids whose value lives in the trailing string buffer.
pub open spec fn is_string_id(id: u32) -> bool {
    id == AUDIT_WATCH || id == AUDIT_DIR || id == AUDIT_EXE || id == AUDIT_FILTERKEY
}

/// Selector ids this model gives a semantic variant.
pub open spec fn known_field_id(id: u32) -> bool {
    is_string_id(id) || id == AUDIT_ARCH || id == AUDIT_PERM || id == AUDIT_PID || id == AUDIT_UID
        || id == AUDIT_EUID || id == AUDIT_GID || id == AUDIT_EGID || id == AUDIT_EXIT || id
        == AUDIT_SUCCESS
}

/// The field a decoder reconstructs from a string-valued slot.
pub open spec fn string_field(id: u32, s: Seq<u8>) -> FieldSpec
    recommends
        is_string_id(id),
{
    if id == AUDIT_WATCH {
        FieldSpec::Watch(s)
    } else if id == AUDIT_DIR {
        FieldSpec::Dir(s)
    } else if id == AUDIT_EXE {
        FieldSpec::Exe(s)
    } else {
        FieldSpec::Filterkey(s)
    }
}

/// The field a decoder reconstructs from a numeric slot; unrecognized
/// selectors are preserved opaquely rather than rejected.
pub open spec fn num_field(id: u32, val: u32) -> FieldSpec
    recommends
        !is_string_id(id),
{
    if id == AUDIT_ARCH {
        FieldSpec::Arch(val)
    } else if id == AUDIT_PERM {
        FieldSpec::Perm(val)
    } else if id == AUDIT_PID {
        FieldSpec::Pid(val)
    } else if id == AUDIT_UID {
        FieldSpec::Uid(val)
    } else if id == AUDIT_EUID {
        FieldSpec::Euid(val)
    } else if id == AUDIT_GID {
        FieldSpec::Gid(val)
    } else if id == AUDIT_EGID {
        FieldSpec::Egid(val)
    } else if id == AUDIT_EXIT {
        FieldSpec::Exit(val)
    } else if id == AUDIT_SUCCESS {
        FieldSpec::Success(val)
    } else {
        FieldSpec::Other(id, val)
    }
}

/// A field the codec can represent and round-trip: strings are NUL-free, and
/// an opaque field never shadows a recognized selector.
pub open spec fn field_wf(f: FieldSpec) -> bool {
    match f {
        FieldSpec::Watch(s) => nul_free(s),
        FieldSpec::Dir(s) => nul_free(s),
        FieldSpec::Exe(s) => nul_free(s),
        FieldSpec::Filterkey(s) => nul_free(s),
        FieldSpec::Other(id, _) => !known_field_id(id),
        _ => true,
    }
}

pub open spec fn nul_free(s: Seq<u8>) -> bool {
    forall|i: int| 0 <= i < s.len() ==> s[i] != 0u8
}

/// Wire code of a filter list.
pub open spec fn filter_code(f: RuleFilter) -> u32 {
    match f {
        RuleFilter::User => AUDIT_FILTER_USER,
        RuleFilter::Task => AUDIT_FILTER_TASK,
        RuleFilter::Entry => AUDIT_FILTER_ENTRY,
        RuleFilter::Exit => AUDIT_FILTER_EXIT,
        RuleFilter::Exclude => AUDIT_FILTER_EXCLUDE,
    }
}

/// Filter list of a wire code, if recognized.
pub open spec fn filter_of(c: u32) -> Option<RuleFilter> {
    if c == AUDIT_FILTER_USER {
        Some(RuleFilter::User)
    } else if c == AUDIT_FILTER_TASK {
        Some(RuleFilter::Task)
    } else if c == AUDIT_FILTER_ENTRY {
        Some(RuleFilter::Entry)
    } else if c == AUDIT_FILTER_EXIT {
        Some(RuleFilter::Exit)
    } else if c == AUDIT_FILTER_EXCLUDE {
        Some(RuleFilter::Exclude)
    } else {
        None
    }
}

/// Wire code of an action.
pub open spec fn action_code(a: RuleAction) -> u32 {
    match a {
        RuleAction::Never => AUDIT_NEVER,
        RuleAction::Always => AUDIT_ALWAYS,
    }
}

/// Action of a wire code, if recognized.
pub open spec fn action_of(c: u32) -> Option<RuleAction> {
    if c == AUDIT_NEVER {
        Some(RuleAction::Never)
    } else if c == AUDIT_ALWAYS {
        Some(RuleAction::Always)
    } else {
        None
    }
}

/// Wire code of a comparison operator.
pub open spec fn op_code(op: FieldOp) -> u32 {
    match op {
        FieldOp::Equal => AUDIT_EQUAL,
        FieldOp::NotEqual => AUDIT_NOT_EQUAL,
        FieldOp::GreaterThan => AUDIT_GREATER_THAN,
        FieldOp::LessThan => AUDIT_LESS_THAN,
        FieldOp::GreaterOrEqual => AUDIT_GREATER_THAN_OR_EQUAL,
        FieldOp::LessOrEqual => AUDIT_LESS_THAN_OR_EQUAL,
        FieldOp::BitmaskAnySet => AUDIT_BIT_MASK,
        FieldOp::BitmaskAllSet => AUDIT_BIT_TEST,
    }
}

/// Comparison operator of a wire code, if recognized.
pub open spec fn op_of(c: u32) -> Option<FieldOp> {
    if c == AUDIT_EQUAL {
        Some(FieldOp::Equal)
    } else if c == AUDIT_NOT_EQUAL {
        Some(FieldOp::NotEqual)
    } else if c == AUDIT_GREATER_THAN {
        Some(FieldOp::GreaterThan)
    } else if c == AUDIT_LESS_THAN {
        Some(FieldOp::LessThan)
    } else if c == AUDIT_GREATER_THAN_OR_EQUAL {
        Some(FieldOp::GreaterOrEqual)
    } else if c == AUDIT_LESS_THAN_OR_EQUAL {
        Some(FieldOp::LessOrEqual)
    } else if c == AUDIT_BIT_MASK {
        Some(FieldOp::BitmaskAnySet)
    } else if c == AUDIT_BIT_TEST {
        Some(FieldOp::BitmaskAllSet)
    } else {
        None
    }
}

impl RuleFilter {
    /// Wire code of this filter list.
    pub fn code(self) -> (r: u32)
        ensures
            r == filter_code(self),
    {
        match self {
            RuleFilter::User => AUDIT_FILTER_USER,
            RuleFilter::Task => AUDIT_FILTER_TASK,
            RuleFilter::Entry => AUDIT_FILTER_ENTRY,
            RuleFilter::Exit => AUDIT_FILTER_EXIT,
            RuleFilter::Exclude => AUDIT_FILTER_EXCLUDE,
        }
    }

    /// Filter list of a wire code, if recognized.
    pub fn from_code(c: u32) -> (r: Option<RuleFilter>)
        ensures
            r == filter_of(c),
    {
        if c == AUDIT_FILTER_USER {
            Some(RuleFilter::User)
        } else if c == AUDIT_FILTER_TASK {
            Some(RuleFilter::Task)
        } else if c == AUDIT_FILTER_ENTRY {
            Some(RuleFilter::Entry)
        } else if c == AUDIT_FILTER_EXIT {
            Some(RuleFilter::Exit)
        } else if c == AUDIT_FILTER_EXCLUDE {
            Some(RuleFilter::Exclude)
        } else {
            None
        }
    }
}

impl RuleAction {
    /// Wire code of this action.
    pub fn code(self) -> (r: u32)
        ensures
            r == action_code(self),
    {
        match self {
            RuleAction::Never => AUDIT_NEVER,
            RuleAction::Always => AUDIT_ALWAYS,
        }
    }

    /// Action of a wire code, if recognized.
    pub fn from_code(c: u32) -> (r: Option<RuleAction>)
        ensures
            r == action_of(c),
    {
        if c == AUDIT_NEVER {
            Some(RuleAction::Never)
        } else if c == AUDIT_ALWAYS {
            Some(RuleAction::Always)
        } else {
            None
        }
    }
}

impl FieldOp {
    /// Wire code of this operator.
    pub fn code(self) -> (r: u32)
        ensures
            r == op_code(self),
    {
        match self {
            FieldOp::Equal => AUDIT_EQUAL,
            FieldOp::NotEqual => AUDIT_NOT_EQUAL,
            FieldOp::GreaterThan => AUDIT_GREATER_THAN,
            FieldOp::LessThan => AUDIT_LESS_THAN,
            FieldOp::GreaterOrEqual => AUDIT_GREATER_THAN_OR_EQUAL,
            FieldOp::LessOrEqual => AUDIT_LESS_THAN_OR_EQUAL,
            FieldOp::BitmaskAnySet => AUDIT_BIT_MASK,
            FieldOp::BitmaskAllSet => AUDIT_BIT_TEST,
        }
    }

    /// Operator of a wire code, if recognized.
    pub fn from_code(c: u32) -> (r: Option<FieldOp>)
        ensures
            r == op_of(c),
    {
        if c == AUDIT_EQUAL {
            Some(FieldOp::Equal)
        } else if c == AUDIT_NOT_EQUAL {
            Some(FieldOp::NotEqual)
        } else if c == AUDIT_GREATER_THAN {
            Some(FieldOp::GreaterThan)
        } else if c == AUDIT_LESS_THAN {
            Some(FieldOp::LessThan)
        } else if c == AUDIT_GREATER_THAN_OR_EQUAL {
            Some(FieldOp::GreaterOrEqual)
        } else if c == AUDIT_LESS_THAN_OR_EQUAL {
            Some(FieldOp::LessOrEqual)
        } else if c == AUDIT_BIT_MASK {
            Some(FieldOp::BitmaskAnySet)
        } else if c == AUDIT_BIT_TEST {
            Some(FieldOp::BitmaskAllSet)
        } else {
            None
        }
    }
}

/// Whether `s` holds no NUL byte.
pub fn bytes_nul_free(s: &Vec<u8>) -> (r: bool)
    ensures
        r == nul_free(s@),
{
    let mut i: usize = 0;
    while i < s.len()
        invariant
            i <= s@.len(),
            forall|k: int| 0 <= k < i ==> s@[k] != 0u8,
        decreases s@.len() - i,
    {
        if s[i] == 0 {
            return false;
        }
        i = i + 1;
    }
    true
}

/// Whether `id` selects a string-valued field.
pub fn string_id(id: u32) -> (r: bool)
    ensures
        r == is_string_id(id),
{
    id == AUDIT_WATCH || id == AUDIT_DIR || id == AUDIT_EXE || id == AUDIT_FILTERKEY
}

/// Whether `id` has a semantic variant in this model.
pub fn known_id(id: u32) -> (r: bool)
    ensures
        r == known_field_id(id),
{
    string_id(id) || id == AUDIT_ARCH || id == AUDIT_PERM || id == AUDIT_PID || id == AUDIT_UID
        || id == AUDIT_EUID || id == AUDIT_GID || id == AUDIT_EGID || id == AUDIT_EXIT || id
        == AUDIT_SUCCESS
}

impl RuleField {
    /// Numeric selector id written to the field-id slot.
    pub fn id(&self) -> (r: u32)
        ensures
            r == field_id(self@),
    {
        match self {
            RuleField::Watch(_) => AUDIT_WATCH,
            RuleField::Dir(_) => AUDIT_DIR,
            RuleField::Exe(_) => AUDIT_EXE,
            RuleField::Filterkey(_) => AUDIT_FILTERKEY,
            RuleField::Arch(_) => AUDIT_ARCH,
            RuleField::Perm(_) => AUDIT_PERM,
            RuleField::Pid(_) => AUDIT_PID,
            RuleField::Uid(_) => AUDIT_UID,
            RuleField::Euid(_) => AUDIT_EUID,
            RuleField::Gid(_) => AUDIT_GID,
            RuleField::Egid(_) => AUDIT_EGID,
            RuleField::Exit(_) => AUDIT_EXIT,
            RuleField::Success(_) => AUDIT_SUCCESS,
            RuleField::Other(id, _) => *id,
        }
    }

    /// Word written to the value slot: numeric value, raw opaque value, or
    /// string byte length.
    pub fn value_word(&self) -> (r: u32)
        requires
            field_str(self@).len() <= AUDIT_MAX_BUFLEN,
        ensures
            r == field_val(self@),
    {
        match self {
            RuleField::Watch(s) => s.len() as u32,
            RuleField::Dir(s) => s.len() as u32,
            RuleField::Exe(s) => s.len() as u32,
            RuleField::Filterkey(s) => s.len() as u32,
            RuleField::Arch(v) => *v,
            RuleField::Perm(v) => *v,
            RuleField::Pid(v) => *v,
            RuleField::Uid(v) => *v,
            RuleField::Egid(v) => *v,
            RuleField::Gid(v) => *v,
            RuleField::Euid(v) => *v,
            RuleField::Exit(v) => *v,
            RuleField::Success(v) => *v,
            RuleField::Other(_, v) => *v,
        }
    }

    /// Whether this field is representable: strings NUL-free, an opaque id
    /// never shadowing a recognized selector.
    pub fn check_wf(&self) -> (r: bool)
        ensures
            r == field_wf(self@),
    {
        match self {
            RuleField::Watch(s) => bytes_nul_free(s),
            RuleField::Dir(s) => bytes_nul_free(s),
            RuleField::Exe(s) => bytes_nul_free(s),
            RuleField::Filterkey(s) => bytes_nul_free(s),
            RuleField::Other(id, _) => !known_id(*id),
            _ => true,
        }
    }

    /// Byte count this field contributes to the trailing buffer.
    pub fn str_len(&self) -> (r: usize)
        ensures
            r == field_str(self@).len(),
    {
        match self {
            RuleField::Watch(s) => s.len(),
            RuleField::Dir(s) => s.len(),
            RuleField::Exe(s) => s.len(),
            RuleField::Filterkey(s) => s.len(),
            _ => 0,
        }
    }

    /// The string bytes of this field, if it has any.
    pub fn str_bytes(&self) -> (r: Option<&Vec<u8>>)
        ensures
            match r {
                Some(s) => field_str(self@) == s@,
                None => field_str(self@).len() == 0,
            },
    {
        match self {
            RuleField::Watch(s) => Some(s),
            RuleField::Dir(s) => Some(s),
            RuleField::Exe(s) => Some(s),
            RuleField::Filterkey(s) => Some(s),
            _ => None,
        }
    }

    /// Reconstruct a string-valued field from its selector id and bytes.
    pub fn from_string_slot(id: u32, s: Vec<u8>) -> (r: RuleField)
        requires
            is_string_id(id),
        ensures
            r@ == string_field(id, s@),
    {
        if id == AUDIT_WATCH {
            RuleField::Watch(s)
        } else if id == AUDIT_DIR {
            RuleField::Dir(s)
        } else if id == AUDIT_EXE {
            RuleField::Exe(s)
        } else {
            RuleField::Filterkey(s)
        }
    }

    /// Reconstruct a numeric or opaque field from its selector id and value
    /// word.
    pub fn from_num_slot(id: u32, val: u32) -> (r: RuleField)
        requires
            !is_string_id(id),
        ensures
            r@ == num_field(id, val),
    {
        if id == AUDIT_ARCH {
            RuleField::Arch(val)
        } else if id == AUDIT_PERM {
            RuleField::Perm(val)
        } else if id == AUDIT_PID {
            RuleField::Pid(val)
        } else if id == AUDIT_UID {
            RuleField::Uid(val)
        } else if id == AUDIT_EUID {
            RuleField::Euid(val)
        } else if id == AUDIT_GID {
            RuleField::Gid(val)
        } else if id == AUDIT_EGID {
            RuleField::Egid(val)
        } else if id == AUDIT_EXIT {
            RuleField::Exit(val)
        } else if id == AUDIT_SUCCESS {
            RuleField::Success(val)
        } else {
            RuleField::Other(id, val)
        }
    }
}

/// Every filter code reads back as its filter.
pub proof fn lemma_filter_code_roundtrip(f: RuleFilter)
    ensures
        filter_of(filter_code(f)) == Some(f),
{
    match f {
        RuleFilter::User => assert(filter_of(AUDIT_FILTER_USER) == Some(RuleFilter::User)),
        RuleFilter::Task => assert(filter_of(AUDIT_FILTER_TASK) == Some(RuleFilter::Task)),
        RuleFilter::Entry => assert(filter_of(AUDIT_FILTER_ENTRY) == Some(RuleFilter::Entry)),
        RuleFilter::Exit => assert(filter_of(AUDIT_FILTER_EXIT) == Some(RuleFilter::Exit)),
        RuleFilter::Exclude => assert(filter_of(AUDIT_FILTER_EXCLUDE) == Some(RuleFilter::Exclude)),
    }
}

/// Every action code reads back as its action.
pub proof fn lemma_action_code_roundtrip(a: RuleAction)
    ensures
        action_of(action_code(a)) == Some(a),
{
    match a {
        RuleAction::Never => assert(action_of(AUDIT_NEVER) == Some(RuleAction::Never)),
        RuleAction::Always => assert(action_of(AUDIT_ALWAYS) == Some(RuleAction::Always)),
    }
}

/// Every operator code reads back as its operator.
pub proof fn lemma_op_code_roundtrip(op: FieldOp)
    ensures
        op_of(op_code(op)) == Some(op),
{
    match op {
        FieldOp::Equal => assert(op_of(AUDIT_EQUAL) == Some(FieldOp::Equal)),
        FieldOp::NotEqual => assert(op_of(AUDIT_NOT_EQUAL) == Some(FieldOp::NotEqual)),
        FieldOp::GreaterThan => assert(op_of(AUDIT_GREATER_THAN) == Some(FieldOp::GreaterThan)),
        FieldOp::LessThan => assert(op_of(AUDIT_LESS_THAN) == Some(FieldOp::LessThan)),
        FieldOp::GreaterOrEqual => assert(op_of(AUDIT_GREATER_THAN_OR_EQUAL) == Some(
            FieldOp::GreaterOrEqual,
        )),
        FieldOp::LessOrEqual => assert(op_of(AUDIT_LESS_THAN_OR_EQUAL) == Some(
            FieldOp::LessOrEqual,
        )),
        FieldOp::BitmaskAnySet => assert(op_of(AUDIT_BIT_MASK) == Some(FieldOp::BitmaskAnySet)),
        FieldOp::BitmaskAllSet => assert(op_of(AUDIT_BIT_TEST) == Some(FieldOp::BitmaskAllSet)),
    }
}

/// Every recognized filter wire code writes back as itself.
pub proof fn lemma_filter_of_inverse(c: u32)
    requires
        filter_of(c) is Some,
    ensures
        filter_code(filter_of(c)->Some_0) == c,
{
}

/// Every recognized action wire code writes back as itself.
pub proof fn lemma_action_of_inverse(c: u32)
    requires
        action_of(c) is Some,
    ensures
        action_code(action_of(c)->Some_0) == c,
{
}

/// Every recognized operator wire code writes back as itself.
pub proof fn lemma_op_of_inverse(c: u32)
    requires
        op_of(c) is Some,
    ensures
        op_code(op_of(c)->Some_0) == c,
{
}

/// A decoded field slot writes back as the id, value word and string bytes
/// it was decoded from.
pub proof fn lemma_decoded_field_slots(id: u32, val: u32, s: Seq<u8>)
    ensures
        is_string_id(id) ==> field_id(string_field(id, s)) == id && field_val(string_field(id, s))
            == s.len() as u32 && field_str(string_field(id, s)) == s,
        !is_string_id(id) ==> field_id(num_field(id, val)) == id && field_val(num_field(id, val))
            == val && field_str(num_field(id, val)) == Seq::<u8>::empty(),
{
}

/// A representable field reconstructs from its wire slot: the id of a
/// string-valued field selects the string path and the id plus bytes give the
/// field back; any other field reconstructs from id and value word alone.
pub proof fn lemma_field_slot_roundtrip(f: FieldSpec)
    requires
        field_wf(f),
    ensures
        is_string_id(field_id(f)) ==> string_field(field_id(f), field_str(f)) == f,
        is_string_id(field_id(f)) ==> field_val(f) == field_str(f).len() as u32,
        is_string_id(field_id(f)) ==> nul_free(field_str(f)),
        !is_string_id(field_id(f)) ==> num_field(field_id(f), field_val(f)) == f,
        !is_string_id(field_id(f)) ==> field_str(f) == Seq::<u8>::empty(),
{
    match f {
        FieldSpec::Watch(s) => assert(string_field(AUDIT_WATCH, s) == f),
        FieldSpec::Dir(s) => assert(string_field(AUDIT_DIR, s) == f),
        FieldSpec::Exe(s) => assert(string_field(AUDIT_EXE, s) == f),
        FieldSpec::Filterkey(s) => assert(string_field(AUDIT_FILTERKEY, s) == f),
        FieldSpec::Arch(v) => assert(num_field(AUDIT_ARCH, v) == f),
        FieldSpec::Perm(v) => assert(num_field(AUDIT_PERM, v) == f),
        FieldSpec::Pid(v) => assert(num_field(AUDIT_PID, v) == f),
        FieldSpec::Uid(v) => assert(num_field(AUDIT_UID, v) == f),
        FieldSpec::Euid(v) => assert(num_field(AUDIT_EUID, v) == f),
        FieldSpec::Gid(v) => assert(num_field(AUDIT_GID, v) == f),
        FieldSpec::Egid(v) => assert(num_field(AUDIT_EGID, v) == f),
        FieldSpec::Exit(v) => assert(num_field(AUDIT_EXIT, v) == f),
        FieldSpec::Success(v) => assert(num_field(AUDIT_SUCCESS, v) == f),
        FieldSpec::Other(id, v) => {
            assert(!known_field_id(id));
            assert(num_field(id, v) == f);
        },
    }
}

/// Mathematical model of a whole rule.
#[verifier::ext_equal]
pub ghost struct RuleModel {
    pub filter: RuleFilter,
    pub action: RuleAction,
    pub fields: Seq<(FieldSpec, FieldOp)>,
    pub mask: Seq<u32>,
}

/// Deep view of a field vector.
pub open spec fn fields_view(s: Seq<(RuleField, FieldOp)>) -> Seq<(FieldSpec, FieldOp)> {
    s.map_values(|p: (RuleField, FieldOp)| (p.0@, p.1))
}

/// An audit rule: criteria plus action. The field sequence is ordered;
/// evaluation and round-trip order match insertion order.
#[derive(Clone, Debug, PartialEq, Eq)]
pub struct RuleMessage {
    pub flags: RuleFilter,
    pub action: RuleAction,
    pub fields: Vec<(RuleField, FieldOp)>,
    pub syscalls: SyscallMask,
}

impl View for RuleMessage {
    type V = RuleModel;

    open spec fn view(&self) -> RuleModel {
        RuleModel {
            filter: self.flags,
            action: self.action,
            fields: fields_view(self.fields@),
            mask: self.syscalls@,
        }
    }
}

impl RuleMessage {
    /// A rule over the given filter list and action, with no condition field
    /// and no syscall selected.
    pub fn new(flags: RuleFilter, action: RuleAction) -> (r: Self)
        ensures
            r@.filter == flags,
            r@.action == action,
            r@.fields.len() == 0,
            r@.mask.len() == AUDIT_BITMASK_SIZE,
            forall|nr: int|
                0 <= nr < crate::mask::AUDIT_SYSCALL_BITS ==> !crate::mask::mask_sel(r@.mask, nr),
    {
        let r = RuleMessage {
            flags,
            action,
            fields: Vec::new(),
            syscalls: SyscallMask::select_none(),
        };
        proof {
            assert(fields_view(r.fields@) =~= Seq::<(FieldSpec, FieldOp)>::empty());
        }
        r
    }

    /// Append one condition field; fields keep their insertion order.
    pub fn push_field(&mut self, field: RuleField, op: FieldOp)
        ensures
            final(self)@.filter == old(self)@.filter,
            final(self)@.action == old(self)@.action,
            final(self)@.mask == old(self)@.mask,
            final(self)@.fields == old(self)@.fields.push((field@, op)),
    {
        self.fields.push((field, op));
        proof {
            assert(fields_view(self.fields@) =~= fields_view(old(self).fields@).push(
                (field@, op),
            ));
        }
    }
}

} // verus!
