//! Operation descriptors: the closed set of operations the executor runs,
//! their wire text and the checks made before one is run.
use crate::flags::{flags_known, known_flags};
use crate::json::{
    chars_of, decode_record, encode_record, lemma_record_round_trip, members_view, num_of,
    parse_record, record_text, same_chars, string_of, JVal, Member, Value,
};
use crate::verdict::OpKind;
use vstd::prelude::*;

verus! {

/// One invocable operation with its parameters.
pub enum Operation {
    /// Metadata query (`fstatat`), relative to the directory `dir` when given.
    Fstatat { path: String, dir: Option<String>, flags: i32 },
    /// Ownership change (`fchownat`); an absent owner or group is left as it is.
    Fchownat {
        path: String,
        dir: Option<String>,
        owner: Option<u32>,
        group: Option<u32>,
        flags: i32,
    },
}

/// An operation as mathematics.
pub ghost enum SyscallModel {
    Fstatat { path: Seq<char>, dir: Option<Seq<char>>, flags: i32 },
    Fchownat {
        path: Seq<char>,
        dir: Option<Seq<char>>,
        owner: Option<u32>,
        group: Option<u32>,
        flags: i32,
    },
}

pub open spec fn opt_view(o: Option<String>) -> Option<Seq<char>> {
    match o {
        Some(s) => Some(s@),
        None => None,
    }
}

impl View for Operation {
    type V = SyscallModel;

    open spec fn view(&self) -> SyscallModel {
        match self {
            Operation::Fstatat { path, dir, flags } => SyscallModel::Fstatat {
                path: path@,
                dir: opt_view(*dir),
                flags: *flags,
            },
            Operation::Fchownat { path, dir, owner, group, flags } => SyscallModel::Fchownat {
                path: path@,
                dir: opt_view(*dir),
                owner: *owner,
                group: *group,
                flags: *flags,
            },
        }
    }
}

/// Why a descriptor text could not be read.
pub enum DecodeError {
    /// The text is a record whose `type` names no known operation.
    UnknownTag(String),
    /// The text is not a descriptor.
    Malformed,
}

/// Why an operation failed.
#[derive(PartialEq, Eq, Structural, Clone, Copy, Debug)]
pub enum OperationError {
    /// The flag set holds a bit that the platform does not name.
    InvalidArgument,
    /// The OS call failed with this error number.
    Os(i32),
}

// ---------------------------------------------------------------- wire text

pub open spec fn tag_fstatat() -> Seq<char> {
    seq!['F', 's', 't', 'a', 't', 'a', 't']
}

pub open spec fn tag_fchownat() -> Seq<char> {
    seq!['F', 'c', 'h', 'o', 'w', 'n', 'a', 't']
}

/// The tags of the registry: one per operation kind.
pub open spec fn is_known_tag(t: Seq<char>) -> bool {
    t == tag_fstatat() || t == tag_fchownat()
}

pub open spec fn key_type() -> Seq<char> {
    seq!['t', 'y', 'p', 'e']
}

pub open spec fn key_path() -> Seq<char> {
    seq!['p', 'a', 't', 'h']
}

pub open spec fn key_dir() -> Seq<char> {
    seq!['d', 'i', 'r']
}

pub open spec fn key_owner() -> Seq<char> {
    seq!['o', 'w', 'n', 'e', 'r']
}

pub open spec fn key_group() -> Seq<char> {
    seq!['g', 'r', 'o', 'u', 'p']
}

pub open spec fn key_flags() -> Seq<char> {
    seq!['f', 'l', 'a', 'g', 's']
}

pub open spec fn opt_text(o: Option<Seq<char>>) -> JVal {
    match o {
        Some(t) => JVal::Str(t),
        None => JVal::Null,
    }
}

pub open spec fn opt_num(o: Option<u32>) -> JVal {
    match o {
        Some(n) => JVal::Num(n as int),
        None => JVal::Null,
    }
}

/// The members of an operation's record, `type` first and then the
/// parameters in their fixed order.
pub open spec fn members_of(m: SyscallModel) -> Seq<(Seq<char>, JVal)> {
    match m {
        SyscallModel::Fstatat { path, dir, flags } => seq![
            (key_type(), JVal::Str(tag_fstatat())),
            (key_path(), JVal::Str(path)),
            (key_dir(), opt_text(dir)),
            (key_flags(), JVal::Num(flags as int)),
        ],
        SyscallModel::Fchownat { path, dir, owner, group, flags } => seq![
            (key_type(), JVal::Str(tag_fchownat())),
            (key_path(), JVal::Str(path)),
            (key_dir(), opt_text(dir)),
            (key_owner(), opt_num(owner)),
            (key_group(), opt_num(group)),
            (key_flags(), JVal::Num(flags as int)),
        ],
    }
}

/// The wire text of an operation.
pub open spec fn encoding(m: SyscallModel) -> Seq<char> {
    record_text(members_of(m))
}

/// The text a value holds, when it is a string.
pub open spec fn text_of(v: JVal) -> Option<Seq<char>> {
    match v {
        JVal::Str(t) => Some(t),
        _ => None,
    }
}

pub open spec fn is_opt_text(v: JVal) -> bool {
    v is Null || v is Str
}

pub open spec fn is_i32(v: JVal) -> bool {
    v matches JVal::Num(n) && i32::MIN <= n <= i32::MAX
}

pub open spec fn is_opt_u32(v: JVal) -> bool {
    v is Null || (v matches JVal::Num(n) && 0 <= n <= u32::MAX)
}

pub open spec fn opt_u32_of(v: JVal) -> Option<u32> {
    match v {
        JVal::Num(n) => Some(n as u32),
        _ => None,
    }
}

/// The tag of a record: the text of its first member when that is `type`.
pub open spec fn record_tag(ms: Seq<(Seq<char>, JVal)>) -> Option<Seq<char>> {
    if ms.len() >= 1 && ms[0].0 == key_type() {
        text_of(ms[0].1)
    } else {
        None
    }
}

/// The operation that a record describes, when it describes one.
pub open spec fn from_members(ms: Seq<(Seq<char>, JVal)>) -> Option<SyscallModel> {
    if record_tag(ms) == Some(tag_fstatat()) && ms.len() == 4 && ms[1].0 == key_path()
        && ms[1].1 is Str && ms[2].0 == key_dir() && is_opt_text(ms[2].1) && ms[3].0 == key_flags()
        && is_i32(ms[3].1) {
        Some(
            SyscallModel::Fstatat {
                path: text_of(ms[1].1)->0,
                dir: text_of(ms[2].1),
                flags: num_of(ms[3].1) as i32,
            },
        )
    } else if record_tag(ms) == Some(tag_fchownat()) && ms.len() == 6 && ms[1].0 == key_path()
        && ms[1].1 is Str && ms[2].0 == key_dir() && is_opt_text(ms[2].1) && ms[3].0 == key_owner()
        && is_opt_u32(ms[3].1) && ms[4].0 == key_group() && is_opt_u32(ms[4].1) && ms[5].0
        == key_flags() && is_i32(ms[5].1) {
        Some(
            SyscallModel::Fchownat {
                path: text_of(ms[1].1)->0,
                dir: text_of(ms[2].1),
                owner: opt_u32_of(ms[3].1),
                group: opt_u32_of(ms[4].1),
                flags: num_of(ms[5].1) as i32,
            },
        )
    } else {
        None
    }
}

/// The operation that a wire text describes, when it describes one.
pub open spec fn parse_syscall(s: Seq<char>) -> Option<SyscallModel> {
    match parse_record(s) {
        Some(ms) => from_members(ms),
        None => None,
    }
}

/// A text that is a record naming a tag outside the registry.
pub open spec fn has_unknown_tag(s: Seq<char>, t: Seq<char>) -> bool {
    parse_record(s) matches Some(ms) && record_tag(ms) == Some(t) && !is_known_tag(t)
}

/// Decoding the wire text of any operation gives that operation back.
pub proof fn lemma_decode_encode(m: SyscallModel)
    ensures
        parse_syscall(encoding(m)) == Some(m),
{
    lemma_record_round_trip(members_of(m));
    assert(tag_fchownat() != tag_fstatat()) by {
        assert(tag_fchownat().len() != tag_fstatat().len());
    }
}

/// A record whose tag is not in the registry describes no operation, so
/// decoding it can never lead to an OS call.
pub proof fn lemma_unknown_tag_rejected(s: Seq<char>, t: Seq<char>)
    requires
        has_unknown_tag(s, t),
    ensures
        parse_syscall(s) is None,
{
}

/// Whether a text is a record whose numbers all fit the decoder's range.
pub open spec fn record_fits(s: Seq<char>) -> bool {
    parse_record(s) matches Some(ms) && crate::json::all_fit(ms)
}

pub open spec fn model_flags(m: SyscallModel) -> i32 {
    match m {
        SyscallModel::Fstatat { flags, .. } => flags,
        SyscallModel::Fchownat { flags, .. } => flags,
    }
}

fn lit_type() -> (r: Vec<char>)
    ensures
        r@ == key_type(),
{
    vec!['t', 'y', 'p', 'e']
}

fn lit_path() -> (r: Vec<char>)
    ensures
        r@ == key_path(),
{
    vec!['p', 'a', 't', 'h']
}

fn lit_dir() -> (r: Vec<char>)
    ensures
        r@ == key_dir(),
{
    vec!['d', 'i', 'r']
}

fn lit_owner() -> (r: Vec<char>)
    ensures
        r@ == key_owner(),
{
    vec!['o', 'w', 'n', 'e', 'r']
}

fn lit_group() -> (r: Vec<char>)
    ensures
        r@ == key_group(),
{
    vec!['g', 'r', 'o', 'u', 'p']
}

fn lit_flags() -> (r: Vec<char>)
    ensures
        r@ == key_flags(),
{
    vec!['f', 'l', 'a', 'g', 's']
}

fn lit_fstatat() -> (r: Vec<char>)
    ensures
        r@ == tag_fstatat(),
{
    vec!['F', 's', 't', 'a', 't', 'a', 't']
}

fn lit_fchownat() -> (r: Vec<char>)
    ensures
        r@ == tag_fchownat(),
{
    vec!['F', 'c', 'h', 'o', 'w', 'n', 'a', 't']
}

fn text_value(s: &String) -> (r: Value)
    ensures
        r@ == JVal::Str(s@),
{
    Value::Text(chars_of(s.as_str()))
}

fn opt_text_value(o: &Option<String>) -> (r: Value)
    ensures
        r@ == opt_text(opt_view(*o)),
{
    match o {
        Some(s) => text_value(s),
        None => Value::Null,
    }
}

fn opt_num_value(o: Option<u32>) -> (r: Value)
    ensures
        r@ == opt_num(o),
{
    match o {
        Some(n) => Value::Num(n as i128),
        None => Value::Null,
    }
}

fn take_text(v: &Value) -> (r: Option<String>)
    ensures
        match r {
            Some(s) => text_of(v@) == Some(s@),
            None => text_of(v@) is None,
        },
{
    match v {
        Value::Text(t) => Some(string_of(t)),
        _ => None,
    }
}

fn take_opt_text(v: &Value) -> (r: Option<Option<String>>)
    ensures
        match r {
            Some(o) => is_opt_text(v@) && opt_view(o) == text_of(v@),
            None => !is_opt_text(v@),
        },
{
    match v {
        Value::Text(t) => Some(Some(string_of(t))),
        Value::Null => Some(None),
        _ => None,
    }
}

fn take_i32(v: &Value) -> (r: Option<i32>)
    ensures
        match r {
            Some(n) => is_i32(v@) && n == num_of(v@) as i32,
            None => !is_i32(v@),
        },
{
    match v {
        Value::Num(n) => if i32::MIN as i128 <= *n && *n <= i32::MAX as i128 {
            Some(*n as i32)
        } else {
            None
        },
        _ => None,
    }
}

fn take_opt_u32(v: &Value) -> (r: Option<Option<u32>>)
    ensures
        match r {
            Some(o) => is_opt_u32(v@) && o == opt_u32_of(v@),
            None => !is_opt_u32(v@),
        },
{
    match v {
        Value::Num(n) => if 0 <= *n && *n <= u32::MAX as i128 {
            Some(Some(*n as u32))
        } else {
            None
        },
        Value::Null => Some(None),
        _ => None,
    }
}

fn from_members_exec(ms: &Vec<Member>) -> (r: Result<Operation, DecodeError>)
    ensures
        match r {
            Ok(op) => from_members(members_view(ms@)) == Some(op@),
            Err(DecodeError::UnknownTag(t)) => from_members(members_view(ms@)) is None
                && record_tag(members_view(ms@)) == Some(t@) && !is_known_tag(t@),
            Err(DecodeError::Malformed) => from_members(members_view(ms@)) is None && (
            record_tag(members_view(ms@)) matches Some(t) ==> is_known_tag(t)),
        },
{
    let ghost w = members_view(ms@);
    if ms.len() == 0 || !same_chars(&ms[0].key, &lit_type()) {
        return Err(DecodeError::Malformed);
    }
    assert(w[0] == (ms@[0].key@, ms@[0].value@));
    let tag = match &ms[0].value {
        Value::Text(t) => t,
        _ => {
            return Err(DecodeError::Malformed);
        },
    };
    assert(record_tag(w) == Some(tag@));
    if same_chars(tag, &lit_fstatat()) {
        if ms.len() != 4 || !same_chars(&ms[1].key, &lit_path()) || !same_chars(
            &ms[2].key,
            &lit_dir(),
        ) || !same_chars(&ms[3].key, &lit_flags()) {
            return Err(DecodeError::Malformed);
        }
        assert(w[1] == (ms@[1].key@, ms@[1].value@));
        assert(w[2] == (ms@[2].key@, ms@[2].value@));
        assert(w[3] == (ms@[3].key@, ms@[3].value@));
        let path = match take_text(&ms[1].value) {
            Some(p) => p,
            None => {
                return Err(DecodeError::Malformed);
            },
        };
        let dir = match take_opt_text(&ms[2].value) {
            Some(d) => d,
            None => {
                return Err(DecodeError::Malformed);
            },
        };
        let flags = match take_i32(&ms[3].value) {
            Some(f) => f,
            None => {
                return Err(DecodeError::Malformed);
            },
        };
        Ok(Operation::Fstatat { path, dir, flags })
    } else if same_chars(tag, &lit_fchownat()) {
        if ms.len() != 6 || !same_chars(&ms[1].key, &lit_path()) || !same_chars(
            &ms[2].key,
            &lit_dir(),
        ) || !same_chars(&ms[3].key, &lit_owner()) || !same_chars(&ms[4].key, &lit_group())
            || !same_chars(&ms[5].key, &lit_flags()) {
            return Err(DecodeError::Malformed);
        }
        assert(w[1] == (ms@[1].key@, ms@[1].value@));
        assert(w[2] == (ms@[2].key@, ms@[2].value@));
        assert(w[3] == (ms@[3].key@, ms@[3].value@));
        assert(w[4] == (ms@[4].key@, ms@[4].value@));
        assert(w[5] == (ms@[5].key@, ms@[5].value@));
        let path = match take_text(&ms[1].value) {
            Some(p) => p,
            None => {
                return Err(DecodeError::Malformed);
            },
        };
        let dir = match take_opt_text(&ms[2].value) {
            Some(d) => d,
            None => {
                return Err(DecodeError::Malformed);
            },
        };
        let owner = match take_opt_u32(&ms[3].value) {
            Some(o) => o,
            None => {
                return Err(DecodeError::Malformed);
            },
        };
        let group = match take_opt_u32(&ms[4].value) {
            Some(g) => g,
            None => {
                return Err(DecodeError::Malformed);
            },
        };
        let flags = match take_i32(&ms[5].value) {
            Some(f) => f,
            None => {
                return Err(DecodeError::Malformed);
            },
        };
        Ok(Operation::Fchownat { path, dir, owner, group, flags })
    } else {
        Err(DecodeError::UnknownTag(string_of(tag)))
    }
}

/// The interface of an invocable operation: its kind, its wire text and the
/// checks made before it runs.
pub trait Syscall: View<V = SyscallModel> {
    /// The kind of the operation, which fixes its result shape.
    fn kind(&self) -> (r: OpKind)
        ensures
            r == kind_of(self@),
    ;

    /// The wire text of this operation.
    fn encode(&self) -> (r: String)
        ensures
            r@ == encoding(self@),
    ;

    /// The flag set this operation carries.
    fn flags(&self) -> (r: i32)
        ensures
            r == model_flags(self@),
    ;

    /// The checks made before the OS call: a flag set with a bit that the
    /// platform does not name is an invalid argument.
    fn validate(&self) -> (r: Result<(), OperationError>)
        ensures
            r is Ok <==> flags_known(model_flags(self@)),
            r matches Err(e) ==> e == OperationError::InvalidArgument,
    ;
}

pub open spec fn kind_of(m: SyscallModel) -> OpKind {
    match m {
        SyscallModel::Fstatat { .. } => OpKind::MetadataQuery,
        SyscallModel::Fchownat { .. } => OpKind::OwnershipChange,
    }
}

impl Operation {
    /// Reads one operation from its wire text. A record whose `type` is not in
    /// the registry is refused as `UnknownTag`, anything else that is not a
    /// descriptor as `Malformed`.
    pub fn decode(text: &str) -> (r: Result<Operation, DecodeError>)
        ensures
            match r {
                Ok(op) => parse_syscall(text@) == Some(op@),
                Err(DecodeError::UnknownTag(t)) => parse_syscall(text@) is None && has_unknown_tag(
                    text@,
                    t@,
                ),
                Err(DecodeError::Malformed) => parse_syscall(text@) is None && (forall|t: Seq<char>|
                    #[trigger] has_unknown_tag(text@, t) ==> !record_fits(text@)),
            },
    {
        let s = chars_of(text);
        match decode_record(&s) {
            Some(ms) => from_members_exec(&ms),
            None => Err(DecodeError::Malformed),
        }
    }
}

impl Syscall for Operation {
    fn kind(&self) -> (r: OpKind) {
        match self {
            Operation::Fstatat { .. } => OpKind::MetadataQuery,
            Operation::Fchownat { .. } => OpKind::OwnershipChange,
        }
    }

    fn encode(&self) -> (r: String) {
        let mut ms: Vec<Member> = Vec::new();
        match self {
            Operation::Fstatat { path, dir, flags } => {
                ms.push(Member { key: lit_type(), value: Value::Text(lit_fstatat()) });
                ms.push(Member { key: lit_path(), value: text_value(path) });
                ms.push(Member { key: lit_dir(), value: opt_text_value(dir) });
                ms.push(Member { key: lit_flags(), value: Value::Num(*flags as i128) });
            },
            Operation::Fchownat { path, dir, owner, group, flags } => {
                ms.push(Member { key: lit_type(), value: Value::Text(lit_fchownat()) });
                ms.push(Member { key: lit_path(), value: text_value(path) });
                ms.push(Member { key: lit_dir(), value: opt_text_value(dir) });
                ms.push(Member { key: lit_owner(), value: opt_num_value(*owner) });
                ms.push(Member { key: lit_group(), value: opt_num_value(*group) });
                ms.push(Member { key: lit_flags(), value: Value::Num(*flags as i128) });
            },
        }
        assert(members_view(ms@) =~= members_of(self@));
        string_of(&encode_record(&ms))
    }

    fn flags(&self) -> (r: i32) {
        match self {
            Operation::Fstatat { flags, .. } => *flags,
            Operation::Fchownat { flags, .. } => *flags,
        }
    }

    fn validate(&self) -> (r: Result<(), OperationError>) {
        if known_flags(self.flags()) {
            Ok(())
        } else {
            Err(OperationError::InvalidArgument)
        }
    }
}

} // verus!
