//! Reading the nodes of an FBX ASCII file from its tokens: a node is a
//! name followed by values (numbers and strings, or the elements of an
//! array) and, in braces, its children. Numbers come with the readings the
//! lexer gave them; the nodes are kept in a list, each after its children.
use vstd::prelude::*;
use crate::ascii_token::AsciiTokenKind;
use crate::node_values::{NodeValue, Sanitized, MAX_NON_ARRAY_VALUES};
use crate::parse_state::{
    ParseState, ArrayNodeOpts, is_array_node, spec_array_info, update_parse_state,
    spec_update_parse_state, is_raw_string, spec_is_raw_string, ARRAY_FLAG_PAD_BEGIN,
};
use crate::values::{ValueType, ArrayValue, spec_val_type, normalize_array_type, spec_normalize_array_type};
use crate::obj::copy_bytes;
use crate::base64::{decode_base64, spec_base64_value, spec_base64_content, spec_base64_bad};

verus! {

/// The deepest a node may be nested.
pub const MAX_NODE_DEPTH: usize = 32;

/// A token as the lexer hands it on: its kind and text, the readings of a
/// number (an integer token's value, a float truncated toward zero, a bare
/// word's first byte taken as signed, zero for a bare `inf` or `nan`) as
/// an integer and as the bits of a real, and for a string its text with
/// invalid UTF-8 replaced as the string pool does it.
#[derive(Clone, Debug)]
pub struct LexedToken {
    pub kind: AsciiTokenKind,
    pub text: Vec<u8>,
    pub integer: i64,
    pub real_bits: u64,
    pub sanitized: Vec<u8>,
}

/// One element of an array: a number token, by its position (the caller
/// converts it to the array's element type), or the bytes of a string: as
/// written, sanitized, or decoded from base64, as the array's type asks.
#[derive(Clone, Debug)]
pub enum ArrayElem {
    Token(usize),
    Bytes(Vec<u8>),
}

/// An array element as mathematical values.
pub enum ArrayElemView {
    Token(usize),
    Bytes(Seq<u8>),
}

impl View for ArrayElem {
    type V = ArrayElemView;

    open spec fn view(&self) -> ArrayElemView {
        match self {
            ArrayElem::Token(i) => ArrayElemView::Token(*i),
            ArrayElem::Bytes(b) => ArrayElemView::Bytes(b@),
        }
    }
}

/// A node value as mathematical values.
pub enum ValueView {
    Number { integer: i64, real_bits: u64 },
    Text { raw: Seq<u8>, sanitized: Option<Seq<u8>> },
}

/// The mathematical form of a value: a string's sanitized form is its raw
/// bytes, a copy, or none.
pub open spec fn value_view(v: NodeValue) -> ValueView {
    match v {
        NodeValue::Number { integer, real_bits } => ValueView::Number { integer, real_bits },
        NodeValue::Text { raw, sanitized } => ValueView::Text {
            raw: raw@,
            sanitized: match sanitized {
                Sanitized::SameAsRaw => Some(raw@),
                Sanitized::Copy(s) => Some(s@),
                Sanitized::Unusable => None,
            },
        },
    }
}

/// Why a node cannot be read.
#[derive(Clone, Copy, Debug, PartialEq, Eq, Structural)]
pub enum AsciiNodeError {
    /// The input ends inside a node.
    TruncatedFile,
    /// Nodes are nested deeper than `MAX_NODE_DEPTH`.
    TooDeep,
    /// The first token of a file not known to be FBX is no name.
    NotFbx,
    /// A node does not start with a name.
    ExpectedName,
    /// A node name is longer than 255 bytes.
    NameTooLong,
    /// An array marker `*` inside an array.
    NestedArray,
    /// An array marker `*` not followed by its count.
    ExpectedCount,
    /// An array's `{` not followed by its `a:` name.
    ExpectedArrayName,
    /// An array's `{` without its `}`.
    UnclosedArray,
    /// The input ends while an ignored array is skipped.
    UnexpectedEnd,
    /// A number in an array of strings.
    BadArrayType,
    /// More values than a 32-bit count holds.
    TooManyValues,
}

/// The kind of the token at `i`; past the end, the end of input.
pub open spec fn kind_at(toks: Seq<LexedToken>, i: int) -> AsciiTokenKind {
    if 0 <= i < toks.len() {
        toks[i].kind
    } else {
        AsciiTokenKind::Char(0u8)
    }
}

fn kind_of(toks: &Vec<LexedToken>, i: usize) -> (r: AsciiTokenKind)
    ensures
        r == kind_at(toks@, i as int),
{
    if i < toks.len() {
        toks[i].kind
    } else {
        AsciiTokenKind::Char(0u8)
    }
}

/// Whether a token kind is a value: a string, a number or a bare word.
pub open spec fn is_value_kind(k: AsciiTokenKind) -> bool {
    k == AsciiTokenKind::Text || k == AsciiTokenKind::Int || k == AsciiTokenKind::Float || k
        == AsciiTokenKind::BareWord
}

/// Whether an array type code takes numbers: booleans, bytes, integers
/// and reals.
pub open spec fn is_number_array(t: u8) -> bool {
    t == 0x62u8 || t == 0x63u8 || t == 0x69u8 || t == 0x6cu8 || t == 0x66u8 || t == 0x64u8
}

/// Whether an array type code takes strings: raw (`s`), sanitized (`S`) or
/// base64 content (`C`).
pub open spec fn is_string_array(t: u8) -> bool {
    t == 0x73u8 || t == 0x53u8 || t == 0x43u8
}

/// Whether some byte is outside ASCII.
pub open spec fn has_non_ascii(s: Seq<u8>) -> bool {
    exists|i: int| 0 <= i < s.len() && s[i] >= 0x80u8
}

/// What is fixed while the values of one node are read: its array type
/// (zero when it holds no array), its state, its parent's state and its
/// name.
pub struct ValueCtx {
    pub arr_type: u8,
    pub state: ParseState,
    pub parent: ParseState,
    pub name: Seq<u8>,
}

/// Where the reading of values stands: the position, the count of values
/// (with the padding of an array), the values kept (at most
/// `MAX_NON_ARRAY_VALUES`), the array elements, whether an array block is
/// open, whether base64 content was bad, and whether the file version was
/// found and what it is.
pub struct ValueState {
    pub pos: int,
    pub count: u32,
    pub values: Seq<ValueView>,
    pub elements: Seq<ArrayElemView>,
    pub in_array: bool,
    pub arr_error: bool,
    pub found_version: bool,
    pub version: u32,
}

/// The value a string token gives outside arrays: an empty string is its
/// own sanitized form; an ASCII one too; a non-ASCII one kept raw (as the
/// node's name and parent ask) has none, otherwise it is the token's
/// sanitized text.
pub open spec fn spec_text_value(tok: LexedToken, raw_node: bool) -> ValueView {
    let t = tok.text@;
    if t.len() == 0 || !has_non_ascii(t) {
        ValueView::Text { raw: t, sanitized: Some(t) }
    } else if raw_node {
        ValueView::Text { raw: t, sanitized: None }
    } else {
        ValueView::Text { raw: t, sanitized: Some(tok.sanitized@) }
    }
}

/// Reading the value token at `s.pos`: outside arrays the first
/// `MAX_NON_ARRAY_VALUES` values are kept (an integer `6000..=10000` as
/// the first value of an `FBXVersion` node sets the version, once); in a
/// number array numbers become elements and strings are passed over; in a
/// string array strings become elements (base64 content decoded, bad
/// content marked) and a number is refused; an ignored array passes over
/// everything. The count grows by one for every value not passed over.
pub open spec fn spec_take_value(toks: Seq<LexedToken>, cx: ValueCtx, s: ValueState) -> Result<ValueState, AsciiNodeError> {
    let tok = toks[s.pos];
    let next = ValueState { pos: s.pos + 1, ..s };
    if tok.kind == AsciiTokenKind::Text {
        if cx.arr_type != 0 {
            if is_string_array(cx.arr_type) {
                let t = tok.text@;
                let e = if cx.arr_type == 0x73u8 {
                    t
                } else if cx.arr_type == 0x53u8 {
                    tok.sanitized@
                } else {
                    spec_base64_content(t)
                };
                Ok(ValueState {
                    count: (s.count + 1) as u32,
                    elements: s.elements.push(ArrayElemView::Bytes(e)),
                    arr_error: s.arr_error || (cx.arr_type == 0x43u8 && spec_base64_bad(t)),
                    ..next
                })
            } else {
                Ok(next)
            }
        } else {
            let values = if s.count < MAX_NON_ARRAY_VALUES {
                s.values.push(spec_text_value(tok, spec_is_raw_string(cx.parent, cx.name, s.version)))
            } else {
                s.values
            };
            Ok(ValueState { count: (s.count + 1) as u32, values, ..next })
        }
    } else if cx.arr_type == 0 {
        let found = !s.found_version && cx.state == ParseState::FbxVersion && s.count == 0 && tok.kind
            == AsciiTokenKind::Int && 6000 <= tok.integer <= 10000;
        let values = if s.count < MAX_NON_ARRAY_VALUES {
            s.values.push(ValueView::Number { integer: tok.integer, real_bits: tok.real_bits })
        } else {
            s.values
        };
        Ok(ValueState {
            count: (s.count + 1) as u32,
            values,
            found_version: s.found_version || found,
            version: if found { tok.integer as u32 } else { s.version },
            ..next
        })
    } else if is_number_array(cx.arr_type) {
        Ok(ValueState {
            count: (s.count + 1) as u32,
            elements: s.elements.push(ArrayElemView::Token(s.pos as usize)),
            ..next
        })
    } else if cx.arr_type == 0x2du8 {
        Ok(next)
    } else {
        Err(AsciiNodeError::BadArrayType)
    }
}

/// The position of the first `}` token at or after `i`, if any.
pub open spec fn spec_next_close(toks: Seq<LexedToken>, i: int) -> Option<int>
    decreases toks.len() - i,
{
    if i < 0 || i >= toks.len() {
        None
    } else if toks[i].kind == AsciiTokenKind::Char(0x7du8) {
        Some(i)
    } else {
        spec_next_close(toks, i + 1)
    }
}

/// Closing an array block after its values: its `}` must follow.
pub open spec fn spec_close_array(toks: Seq<LexedToken>, s: ValueState) -> Result<ValueState, AsciiNodeError> {
    if s.in_array {
        if kind_at(toks, s.pos) == AsciiTokenKind::Char(0x7du8) {
            Ok(ValueState { pos: s.pos + 1, in_array: false, ..s })
        } else {
            Err(AsciiNodeError::UnclosedArray)
        }
    } else {
        Ok(s)
    }
}

/// The block of an ignored array, from its first token at `s.pos`: the
/// input is passed over from the token after it up to the next `}`, so
/// that a first value is dropped and that `}` closes the block, while a
/// first `}` closes it at once and leaves the next `}` to follow.
pub open spec fn spec_skip_ignored(toks: Seq<LexedToken>, s: ValueState) -> Result<ValueState, AsciiNodeError> {
    match spec_next_close(toks, s.pos + 1) {
        None => Err(AsciiNodeError::UnexpectedEnd),
        Some(c) => {
            let k = kind_at(toks, s.pos);
            if is_value_kind(k) {
                Ok(ValueState { pos: c + 1, ..s })
            } else if k == AsciiTokenKind::Char(0x2au8) {
                Err(AsciiNodeError::NestedArray)
            } else if k == AsciiTokenKind::Char(0x7du8) {
                Ok(ValueState { pos: c, ..s })
            } else {
                Err(AsciiNodeError::UnclosedArray)
            }
        },
    }
}

/// What one step of reading values leads to: reading goes on from a new
/// state, or it is over, with its outcome.
pub enum ValueStep {
    Next(ValueState),
    Done(Result<ValueState, AsciiNodeError>),
}

/// One step of reading values at `s.pos`: a value (see
/// `spec_take_value`), after which a comma lets reading go on, the count
/// staying below `u32::MAX`; or `*N`, announcing an array, or `*N { a:`,
/// opening an array block (the block of an ignored array is passed over,
/// see `spec_skip_ignored`); anything else ends the values, and an open
/// block must then be closed.
pub open spec fn spec_value_step(toks: Seq<LexedToken>, cx: ValueCtx, s: ValueState) -> ValueStep {
    let k = kind_at(toks, s.pos);
    if s.pos < 0 || s.pos >= toks.len() {
        ValueStep::Done(spec_close_array(toks, s))
    } else if is_value_kind(k) {
        match spec_take_value(toks, cx, s) {
            Err(e) => ValueStep::Done(Err(e)),
            Ok(s1) => {
                if s1.count == u32::MAX {
                    ValueStep::Done(Err(AsciiNodeError::TooManyValues))
                } else if kind_at(toks, s.pos + 1) == AsciiTokenKind::Char(0x2cu8) {
                    ValueStep::Next(ValueState { pos: s.pos + 2, ..s1 })
                } else {
                    ValueStep::Done(spec_close_array(toks, s1))
                }
            },
        }
    } else if k == AsciiTokenKind::Char(0x2au8) {
        if s.in_array {
            ValueStep::Done(Err(AsciiNodeError::NestedArray))
        } else if kind_at(toks, s.pos + 1) != AsciiTokenKind::Int {
            ValueStep::Done(Err(AsciiNodeError::ExpectedCount))
        } else if kind_at(toks, s.pos + 2) == AsciiTokenKind::Char(0x7bu8) {
            if kind_at(toks, s.pos + 3) != AsciiTokenKind::Name {
                ValueStep::Done(Err(AsciiNodeError::ExpectedArrayName))
            } else if cx.arr_type == 0x2du8 {
                ValueStep::Done(spec_skip_ignored(toks, ValueState { pos: s.pos + 4, ..s }))
            } else {
                ValueStep::Next(ValueState { pos: s.pos + 4, in_array: true, ..s })
            }
        } else {
            ValueStep::Next(ValueState { pos: s.pos + 2, ..s })
        }
    } else {
        ValueStep::Done(spec_close_array(toks, s))
    }
}

/// Reading the values of a node from `s.pos`, step by step (see
/// `spec_value_step`) until reading is over.
pub open spec fn spec_values(toks: Seq<LexedToken>, cx: ValueCtx, s: ValueState) -> Result<ValueState, AsciiNodeError>
    decreases toks.len() - s.pos,
{
    match spec_value_step(toks, cx, s) {
        ValueStep::Next(n) => spec_values(toks, cx, n),
        ValueStep::Done(r) => r,
    }
}

/// The reading of values as the executable code keeps it.
pub struct ValueRead {
    pub pos: usize,
    pub count: u32,
    pub values: Vec<NodeValue>,
    pub elements: Vec<ArrayElem>,
    pub in_array: bool,
    pub arr_error: bool,
    pub found_version: bool,
    pub version: u32,
}

impl ValueRead {
    /// The reading as mathematical values.
    pub open spec fn state(&self) -> ValueState {
        ValueState {
            pos: self.pos as int,
            count: self.count,
            values: self.values@.map_values(|v: NodeValue| value_view(v)),
            elements: self.elements@.map_values(|e: ArrayElem| e@),
            in_array: self.in_array,
            arr_error: self.arr_error,
            found_version: self.found_version,
            version: self.version,
        }
    }
}

fn non_ascii(s: &Vec<u8>) -> (r: bool)
    ensures
        r == has_non_ascii(s@),
{
    let mut i: usize = 0;
    while i < s.len()
        invariant
            i <= s.len(),
            forall|j: int| 0 <= j < i ==> s@[j] < 0x80u8,
        decreases s.len() - i,
    {
        if s[i] >= 0x80u8 {
            return true;
        }
        i = i + 1;
    }
    false
}

fn text_value(tok: &LexedToken, raw_node: bool) -> (r: NodeValue)
    ensures
        value_view(r) == spec_text_value(*tok, raw_node),
{
    let raw = copy_bytes(&tok.text);
    if tok.text.len() == 0 || !non_ascii(&tok.text) {
        NodeValue::Text { raw, sanitized: Sanitized::SameAsRaw }
    } else if raw_node {
        NodeValue::Text { raw, sanitized: Sanitized::Unusable }
    } else {
        NodeValue::Text { raw, sanitized: Sanitized::Copy(copy_bytes(&tok.sanitized)) }
    }
}

/// Reads the value token at `s.pos` (see `spec_take_value`).
fn take_value(
    toks: &Vec<LexedToken>,
    arr_type: u8,
    state: ParseState,
    parent: ParseState,
    name: &[u8],
    table: &[u8],
    s: &mut ValueRead,
) -> (r: Result<(), AsciiNodeError>)
    requires
        old(s).pos < toks.len(),
        is_value_kind(toks@[old(s).pos as int].kind),
        old(s).count < u32::MAX,
        read_bounded(*old(s)),
        table@.len() == 256,
        forall|c: u8| #[trigger] table@[c as int] == spec_base64_value(c),
    ensures
        match spec_take_value(toks@, ValueCtx { arr_type, state, parent, name: name@ }, old(s).state()) {
            Ok(n) => r is Ok && final(s).state() == n,
            Err(e) => r == Err::<(), AsciiNodeError>(e),
        },
        final(s).pos == old(s).pos + 1,
        read_bounded(*final(s)),
{
    let ghost s0 = s.state();
    let p = s.pos;
    let tok = &toks[p];
    s.pos = p + 1;
    if tok.kind == AsciiTokenKind::Text {
        if arr_type != 0 {
            if arr_type == 0x73u8 || arr_type == 0x53u8 || arr_type == 0x43u8 {
                let e = if arr_type == 0x73u8 {
                    copy_bytes(&tok.text)
                } else if arr_type == 0x53u8 {
                    copy_bytes(&tok.sanitized)
                } else {
                    let (bytes, warn) = decode_base64(table, tok.text.as_slice(), s.arr_error);
                    if warn {
                        s.arr_error = true;
                    }
                    bytes
                };
                s.count = s.count + 1;
                s.elements.push(ArrayElem::Bytes(e));
                proof {
                    assert(s.state().elements =~= s0.elements.push(ArrayElemView::Bytes(e@)));
                    assert(s.state().values =~= s0.values);
                }
            } else {
                proof {
                    assert(s.state().elements =~= s0.elements);
                    assert(s.state().values =~= s0.values);
                }
            }
        } else {
            if (s.count as usize) < MAX_NON_ARRAY_VALUES {
                let raw_node = is_raw_string(parent, name, s.version);
                let v = text_value(tok, raw_node);
                s.values.push(v);
                proof {
                    assert(s.state().values =~= s0.values.push(value_view(v)));
                }
            } else {
                proof {
                    assert(s.state().values =~= s0.values);
                }
            }
            s.count = s.count + 1;
            proof {
                assert(s.state().elements =~= s0.elements);
            }
        }
        Ok(())
    } else if arr_type == 0 {
        let found = !s.found_version && state == ParseState::FbxVersion && s.count == 0 && tok.kind
            == AsciiTokenKind::Int && 6000 <= tok.integer && tok.integer <= 10000;
        if found {
            s.found_version = true;
            s.version = tok.integer as u32;
        }
        if (s.count as usize) < MAX_NON_ARRAY_VALUES {
            let v = NodeValue::Number { integer: tok.integer, real_bits: tok.real_bits };
            s.values.push(v);
            proof {
                assert(s.state().values =~= s0.values.push(value_view(v)));
            }
        } else {
            proof {
                assert(s.state().values =~= s0.values);
            }
        }
        s.count = s.count + 1;
        proof {
            assert(s.state().elements =~= s0.elements);
        }
        Ok(())
    } else if arr_type == 0x62u8 || arr_type == 0x63u8 || arr_type == 0x69u8 || arr_type == 0x6cu8 || arr_type
        == 0x66u8 || arr_type == 0x64u8 {
        s.count = s.count + 1;
        s.elements.push(ArrayElem::Token(p));
        proof {
            assert(s.state().elements =~= s0.elements.push(ArrayElemView::Token(p)));
            assert(s.state().values =~= s0.values);
        }
        Ok(())
    } else if arr_type == 0x2du8 {
        proof {
            assert(s.state().elements =~= s0.elements);
            assert(s.state().values =~= s0.values);
        }
        Ok(())
    } else {
        Err(AsciiNodeError::BadArrayType)
    }
}

fn next_close(toks: &Vec<LexedToken>, i: usize) -> (r: Option<usize>)
    requires
        i <= toks.len(),
    ensures
        match spec_next_close(toks@, i as int) {
            Some(c) => r == Some(c as usize) && i <= c < toks.len(),
            None => r is None,
        },
{
    let mut j = i;
    while j < toks.len()
        invariant
            i <= j <= toks.len(),
            spec_next_close(toks@, j as int) == spec_next_close(toks@, i as int),
        decreases toks.len() - j,
    {
        if toks[j].kind == AsciiTokenKind::Char(0x7du8) {
            return Some(j);
        }
        j = j + 1;
    }
    None
}

/// Whether a reading keeps its values within bounds: at most
/// `MAX_NON_ARRAY_VALUES`, and no more than counted while the count is
/// below that.
pub open spec fn read_bounded(s: ValueRead) -> bool {
    &&& s.values.len() <= MAX_NON_ARRAY_VALUES
    &&& s.count < MAX_NON_ARRAY_VALUES ==> s.values.len() <= s.count
}

fn close_array(toks: &Vec<LexedToken>, s: &mut ValueRead) -> (r: Result<(), AsciiNodeError>)
    requires
        old(s).pos <= toks.len(),
    ensures
        match spec_close_array(toks@, old(s).state()) {
            Ok(n) => r is Ok && final(s).state() == n,
            Err(e) => r == Err::<(), AsciiNodeError>(e),
        },
        final(s).pos <= toks.len(),
        final(s).count == old(s).count,
        read_bounded(*old(s)) ==> read_bounded(*final(s)),
{
    if s.in_array {
        if kind_of(toks, s.pos) == AsciiTokenKind::Char(0x7du8) {
            s.pos = s.pos + 1;
            s.in_array = false;
            Ok(())
        } else {
            Err(AsciiNodeError::UnclosedArray)
        }
    } else {
        Ok(())
    }
}

/// One step of reading values (see `spec_value_step`): `Ok(true)` when
/// reading goes on, `Ok(false)` when it is over.
fn value_step(
    toks: &Vec<LexedToken>,
    arr_type: u8,
    state: ParseState,
    parent: ParseState,
    name: &[u8],
    table: &[u8],
    s: &mut ValueRead,
) -> (r: Result<bool, AsciiNodeError>)
    requires
        old(s).pos <= toks.len(),
        old(s).count < u32::MAX,
        read_bounded(*old(s)),
        table@.len() == 256,
        forall|c: u8| #[trigger] table@[c as int] == spec_base64_value(c),
    ensures
        match spec_value_step(toks@, ValueCtx { arr_type, state, parent, name: name@ }, old(s).state()) {
            ValueStep::Next(n) => r == Ok::<bool, AsciiNodeError>(true) && final(s).state() == n,
            ValueStep::Done(Ok(n)) => r == Ok::<bool, AsciiNodeError>(false) && final(s).state() == n,
            ValueStep::Done(Err(e)) => r == Err::<bool, AsciiNodeError>(e),
        },
        final(s).pos <= toks.len(),
        r is Ok ==> final(s).count < u32::MAX,
        read_bounded(*final(s)),
{
    let p = s.pos;
    if p >= toks.len() {
        return match close_array(toks, s) {
            Ok(()) => Ok(false),
            Err(e) => Err(e),
        };
    }
    let k = toks[p].kind;
    if k == AsciiTokenKind::Text || k == AsciiTokenKind::Int || k == AsciiTokenKind::Float || k
        == AsciiTokenKind::BareWord {
        match take_value(toks, arr_type, state, parent, name, table, s) {
            Err(e) => {
                return Err(e);
            },
            Ok(()) => {},
        }
        if s.count == u32::MAX {
            return Err(AsciiNodeError::TooManyValues);
        }
        if kind_of(toks, p + 1) == AsciiTokenKind::Char(0x2cu8) {
            s.pos = p + 2;
            Ok(true)
        } else {
            match close_array(toks, s) {
                Ok(()) => Ok(false),
                Err(e) => Err(e),
            }
        }
    } else if k == AsciiTokenKind::Char(0x2au8) {
        if s.in_array {
            return Err(AsciiNodeError::NestedArray);
        }
        if kind_of(toks, p + 1) != AsciiTokenKind::Int {
            return Err(AsciiNodeError::ExpectedCount);
        }
        if kind_of(toks, p + 2) == AsciiTokenKind::Char(0x7bu8) {
            if kind_of(toks, p + 3) != AsciiTokenKind::Name {
                return Err(AsciiNodeError::ExpectedArrayName);
            }
            if arr_type == 0x2du8 {
                let a = p + 4;
                if a >= toks.len() {
                    return Err(AsciiNodeError::UnexpectedEnd);
                }
                match next_close(toks, a + 1) {
                    None => Err(AsciiNodeError::UnexpectedEnd),
                    Some(c) => {
                        let ka = toks[a].kind;
                        if ka == AsciiTokenKind::Text || ka == AsciiTokenKind::Int || ka == AsciiTokenKind::Float || ka
                            == AsciiTokenKind::BareWord {
                            s.pos = c + 1;
                            Ok(false)
                        } else if ka == AsciiTokenKind::Char(0x2au8) {
                            Err(AsciiNodeError::NestedArray)
                        } else if ka == AsciiTokenKind::Char(0x7du8) {
                            s.pos = c;
                            Ok(false)
                        } else {
                            Err(AsciiNodeError::UnclosedArray)
                        }
                    },
                }
            } else {
                s.pos = p + 4;
                s.in_array = true;
                Ok(true)
            }
        } else {
            s.pos = p + 2;
            Ok(true)
        }
    } else {
        match close_array(toks, s) {
            Ok(()) => Ok(false),
            Err(e) => Err(e),
        }
    }
}

/// Reads the values of a node (see `spec_values`).
fn read_values(
    toks: &Vec<LexedToken>,
    arr_type: u8,
    state: ParseState,
    parent: ParseState,
    name: &[u8],
    table: &[u8],
    start: ValueRead,
) -> (r: Result<ValueRead, AsciiNodeError>)
    requires
        start.pos <= toks.len(),
        start.count < u32::MAX,
        read_bounded(start),
        table@.len() == 256,
        forall|c: u8| #[trigger] table@[c as int] == spec_base64_value(c),
    ensures
        match spec_values(toks@, ValueCtx { arr_type, state, parent, name: name@ }, start.state()) {
            Ok(n) => r matches Ok(v) && v.state() == n && v.pos <= toks.len() && read_bounded(v),
            Err(e) => r matches Err(f) && f == e,
        },
{
    let ghost cx = ValueCtx { arr_type, state, parent, name: name@ };
    let ghost goal = spec_values(toks@, cx, start.state());
    let mut s = start;
    loop
        invariant
            s.pos <= toks.len(),
            s.count < u32::MAX,
            read_bounded(s),
            table@.len() == 256,
            forall|c: u8| #[trigger] table@[c as int] == spec_base64_value(c),
            cx == (ValueCtx { arr_type, state, parent, name: name@ }),
            goal == spec_values(toks@, cx, start.state()),
            spec_values(toks@, cx, s.state()) == goal,
        decreases toks.len() - s.pos,
    {
        let step = value_step(toks, arr_type, state, parent, name, table, &mut s);
        match step {
            Err(e) => {
                return Err(e);
            },
            Ok(false) => {
                return Ok(s);
            },
            Ok(true) => {},
        }
    }
}

/// A node read from the tokens: its name, the value type mask and values
/// of a node without an array, the array of an array node (element type,
/// size and the flags it is read with) and its elements, and the positions
/// of its children in the node list.
#[derive(Clone, Debug)]
pub struct AsciiNode {
    pub name: Vec<u8>,
    pub value_type_mask: u16,
    pub values: Vec<NodeValue>,
    pub array: Option<ArrayValue>,
    pub array_flags: u8,
    pub elements: Vec<ArrayElem>,
    pub children: Vec<usize>,
}

/// A node as mathematical values.
pub struct AsciiNodeView {
    pub name: Seq<u8>,
    pub value_type_mask: u16,
    pub values: Seq<ValueView>,
    pub array: Option<ArrayValue>,
    pub array_flags: u8,
    pub elements: Seq<ArrayElemView>,
    pub children: Seq<usize>,
}

impl View for AsciiNode {
    type V = AsciiNodeView;

    open spec fn view(&self) -> AsciiNodeView {
        AsciiNodeView {
            name: self.name@,
            value_type_mask: self.value_type_mask,
            values: self.values@.map_values(|v: NodeValue| value_view(v)),
            array: self.array,
            array_flags: self.array_flags,
            elements: self.elements@.map_values(|e: ArrayElem| e@),
            children: self.children@,
        }
    }
}

/// A node list as mathematical values.
pub open spec fn arena_view(arena: Seq<AsciiNode>) -> Seq<AsciiNodeView> {
    arena.map_values(|n: AsciiNode| n@)
}

/// The 2-bit type tag of a value: 1 for a number, 2 for a string.
pub open spec fn value_tag(v: ValueView) -> u32 {
    match v {
        ValueView::Number { .. } => 1u32,
        ValueView::Text { .. } => 2u32,
    }
}

/// The value type mask of the first `n` values: the tag of value `i` in
/// bits `2*i` and `2*i + 1`.
pub open spec fn spec_mask(values: Seq<ValueView>, n: int) -> u32
    decreases n,
{
    if n <= 0 {
        0u32
    } else {
        spec_mask(values, n - 1) | (value_tag(values[n - 1]) << ((2 * (n - 1)) as u32))
    }
}

proof fn lemma_set_tag(m: u32, t: u32, k: u32, j: u32)
    by (bit_vector)
    requires
        t < 4,
        k < 8,
        j < 8,
        m >> (2 * k) == 0,
    ensures
        ((m | (t << (2 * k))) >> (2 * j)) & 3 == if j == k { t } else { (m >> (2 * j)) & 3 },
        (m | (t << (2 * k))) >> (2 * (k + 1)) == 0,
        (m | (t << (2 * k))) >> 16u32 == 0,
{
}

proof fn lemma_empty_mask(j: u32)
    by (bit_vector)
    requires
        j < 8,
    ensures
        (0u32 >> (2 * j)) & 3 == 0,
        0u32 >> (2 * j) == 0,
{
}

proof fn lemma_mask_prefix(values: Seq<ValueView>, n: int)
    requires
        0 <= n <= values.len(),
        n <= 8,
    ensures
        spec_mask(values, n) >> ((2 * n) as u32) == 0,
        spec_mask(values, n) >> 16u32 == 0,
        forall|j: u32| j < 8 ==> #[trigger] ((spec_mask(values, n) >> (2 * j)) & 3) == if j < n {
            value_tag(values[j as int])
        } else {
            0u32
        },
    decreases n,
{
    if n == 0 {
        lemma_empty_mask(0);
        assert forall|j: u32| j < 8 implies #[trigger] ((spec_mask(values, n) >> (2 * j)) & 3) == 0u32 by {
            lemma_empty_mask(j);
        }
        assert(0u32 >> 16u32 == 0) by (bit_vector);
    } else {
        lemma_mask_prefix(values, n - 1);
        let m = spec_mask(values, n - 1);
        let t = value_tag(values[n - 1]);
        let k = (n - 1) as u32;
        assert(m >> (2 * k) == 0);
        assert forall|j: u32| j < 8 implies #[trigger] ((spec_mask(values, n) >> (2 * j)) & 3) == if j < n {
            value_tag(values[j as int])
        } else {
            0u32
        } by {
            lemma_set_tag(m, t, k, j);
        }
        lemma_set_tag(m, t, k, 0);
    }
}

/// The tag type of a value: a number or a string.
pub open spec fn value_type_of(v: ValueView) -> ValueType {
    match v {
        ValueView::Number { .. } => ValueType::Number,
        ValueView::Text { .. } => ValueType::String,
    }
}

/// The value type mask of a node tags each of its values, in order, as a
/// number or a string, and tags the rest absent.
pub proof fn law_mask_tags_values(values: Seq<ValueView>, j: int)
    requires
        values.len() <= MAX_NON_ARRAY_VALUES,
        0 <= j < MAX_NON_ARRAY_VALUES,
    ensures
        spec_val_type(spec_mask(values, values.len() as int) as u16, j) == if j < values.len() {
            value_type_of(values[j])
        } else {
            ValueType::Absent
        },
{
    lemma_mask_prefix(values, values.len() as int);
    let m = spec_mask(values, values.len() as int);
    let ju = j as u32;
    assert(((m >> (2 * ju)) & 3) == if ju < values.len() { value_tag(values[j]) } else { 0u32 });
    assert((m as u16) as u32 == m) by (bit_vector)
        requires
            m >> 16u32 == 0,
    ;
    assert((2 * j) as u32 == 2 * ju);
}

/// The size an array ends with: its count without the four padding
/// elements, or nothing (before the padding) when its base64 content was
/// bad; the count is a 32-bit one.
pub open spec fn spec_array_size(count: u32, pad: bool, arr_error: bool) -> u32 {
    let n: u32 = if arr_error { 0u32 } else { count };
    if !pad {
        n
    } else if n >= 4 {
        (n - 4) as u32
    } else {
        (n + 0x1_0000_0000 - 4) as u32
    }
}

/// The node made from a name, the node's array type and flags (type zero
/// for no array), whether its array is padded, the values read and its
/// children: an ignored array is empty; an array whose base64 content was
/// bad loses its elements; a node without an array keeps its values and
/// their type mask.
pub open spec fn spec_make_node(name: Seq<u8>, arr_type: u8, flags: u8, pad: bool, s: ValueState, children: Seq<usize>) -> AsciiNodeView {
    if arr_type == 0 {
        AsciiNodeView {
            name,
            value_type_mask: spec_mask(s.values, s.values.len() as int) as u16,
            values: s.values,
            array: None,
            array_flags: 0u8,
            elements: Seq::empty(),
            children,
        }
    } else if arr_type == 0x2du8 {
        AsciiNodeView {
            name,
            value_type_mask: 3u16,
            values: Seq::empty(),
            array: Some(ArrayValue { size: 0, type_code: arr_type }),
            array_flags: flags,
            elements: Seq::empty(),
            children,
        }
    } else {
        AsciiNodeView {
            name,
            value_type_mask: 3u16,
            values: Seq::empty(),
            array: Some(ArrayValue { size: spec_array_size(s.count, pad, s.arr_error) as usize, type_code: arr_type }),
            array_flags: flags,
            elements: if s.arr_error { Seq::empty() } else { s.elements },
            children,
        }
    }
}

/// What is fixed while nodes are read: the rules for arrays (their
/// `version` is replaced by the version known when a node is read) and
/// whether the input is known to be FBX.
#[derive(Clone, Copy, Debug)]
pub struct AsciiNodeOpts {
    pub arrays: ArrayNodeOpts,
    pub sure_fbx: bool,
}

/// Where the reading of a node leaves off: whether it met the end of its
/// parent's children instead of a node, the position after it, whether
/// the version was found and which it is, whether a `{` followed the node
/// (its children follow), and the node list.
pub struct NodeOutcome {
    pub ended: bool,
    pub pos: int,
    pub found_version: bool,
    pub version: u32,
    pub has_children: bool,
    pub arena: Seq<AsciiNodeView>,
}

/// Where reading the children of a node leaves off: the position after
/// its `}`, the version, the node list and the positions of the children.
pub struct ChildrenOutcome {
    pub pos: int,
    pub found_version: bool,
    pub version: u32,
    pub arena: Seq<AsciiNodeView>,
    pub children: Seq<usize>,
}

/// The array a node named `name` holds under a node of state `parent`,
/// given the version known: its normalized element type (zero for none),
/// its flags, and whether it starts with four padding elements.
pub open spec fn spec_node_array(o: AsciiNodeOpts, version: u32, parent: ParseState, name: Seq<u8>) -> (u8, u8, bool) {
    match spec_array_info(ArrayNodeOpts { version, ..o.arrays }, parent, name) {
        None => (0u8, 0u8, false),
        Some(info) => {
            let t = spec_normalize_array_type(info.type_code, 0x62u8);
            (t, info.flags, t != 0x2du8 && info.flags & ARRAY_FLAG_PAD_BEGIN != 0)
        },
    }
}

/// A reading of values ends no earlier than it starts.
pub proof fn lemma_values_pos(toks: Seq<LexedToken>, cx: ValueCtx, s: ValueState)
    requires
        0 <= s.pos,
    ensures
        spec_values(toks, cx, s) matches Ok(n) ==> s.pos <= n.pos,
    decreases toks.len() - s.pos,
{
    if 0 <= s.pos < toks.len() {
        let k = toks[s.pos].kind;
        if k == AsciiTokenKind::Char(0x2au8) && !s.in_array && kind_at(toks, s.pos + 1) == AsciiTokenKind::Int
            && kind_at(toks, s.pos + 2) == AsciiTokenKind::Char(0x7bu8) && kind_at(toks, s.pos + 3)
            == AsciiTokenKind::Name && cx.arr_type == 0x2du8 {
            lemma_next_close_bounds(toks, s.pos + 5);
        }
        match spec_value_step(toks, cx, s) {
            ValueStep::Next(n) => lemma_values_pos(toks, cx, n),
            ValueStep::Done(_) => {},
        }
    }
}

/// A `}` found from `i` on lies at or after `i`.
pub proof fn lemma_next_close_bounds(toks: Seq<LexedToken>, i: int)
    ensures
        spec_next_close(toks, i) matches Some(c) ==> i <= c < toks.len(),
    decreases toks.len() - i,
{
    if 0 <= i < toks.len() && toks[i].kind != AsciiTokenKind::Char(0x7du8) {
        lemma_next_close_bounds(toks, i + 1);
    }
}

/// What a node's name and values are read as: the name, the node's array
/// type, flags and padding (see `spec_node_array`), the node's state, and
/// the reading of its values.
pub struct NodeHead {
    pub name: Seq<u8>,
    pub arr_type: u8,
    pub flags: u8,
    pub pad: bool,
    pub state: ParseState,
    pub values: ValueState,
}

/// Reading the name at `p` and the values after it (one leading comma is
/// passed over) of a node under a node of state `parent`, the version
/// being known as given.
pub open spec fn spec_node_head(
    toks: Seq<LexedToken>,
    p: int,
    parent: ParseState,
    o: AsciiNodeOpts,
    found_version: bool,
    version: u32,
) -> Result<NodeHead, AsciiNodeError> {
    let name = toks[p].text@;
    let (arr_type, flags, pad) = spec_node_array(o, version, parent, name);
    let q = if kind_at(toks, p + 1) == AsciiTokenKind::Char(0x2cu8) { p + 2 } else { p + 1 };
    let st = spec_update_parse_state(parent, name);
    let s0 = ValueState {
        pos: q,
        count: if pad { 4u32 } else { 0u32 },
        values: Seq::empty(),
        elements: Seq::empty(),
        in_array: false,
        arr_error: false,
        found_version,
        version,
    };
    match spec_values(toks, ValueCtx { arr_type, state: st, parent, name }, s0) {
        Err(e) => Err(e),
        Ok(s1) => Ok(NodeHead { name, arr_type, flags, pad, state: st, values: s1 }),
    }
}

/// Reading one node at `p`, `depth` levels deep under a node of state
/// `parent`: a `}` ends the parent's children; the end of the input ends
/// them at the top level and is an error below; otherwise a name (at most
/// 255 bytes; a file not known to be FBX must start with one) and the
/// node's values follow (see `spec_node_head`). A `{` after the values
/// opens the children, which are read (when `recursive`) up to their `}`.
/// The node joins the list after its children. Nodes may not be nested
/// deeper than `MAX_NODE_DEPTH`.
pub open spec fn spec_parse_node(
    toks: Seq<LexedToken>,
    p: int,
    depth: int,
    parent: ParseState,
    recursive: bool,
    o: AsciiNodeOpts,
    found_version: bool,
    version: u32,
    arena: Seq<AsciiNodeView>,
) -> Result<NodeOutcome, AsciiNodeError>
    decreases toks.len() - p, 0int,
{
    let k = kind_at(toks, p);
    let end = NodeOutcome { ended: true, pos: p, found_version, version, has_children: false, arena };
    if p < 0 || p > toks.len() {
        Err(AsciiNodeError::TruncatedFile)
    } else if k == AsciiTokenKind::Char(0x7du8) {
        Ok(NodeOutcome { pos: p + 1, ..end })
    } else if k == AsciiTokenKind::Char(0u8) {
        if depth == 0 {
            Ok(end)
        } else {
            Err(AsciiNodeError::TruncatedFile)
        }
    } else if depth >= MAX_NODE_DEPTH {
        Err(AsciiNodeError::TooDeep)
    } else if !o.sure_fbx && depth == 0 && k != AsciiTokenKind::Name {
        Err(AsciiNodeError::NotFbx)
    } else if k != AsciiTokenKind::Name {
        Err(AsciiNodeError::ExpectedName)
    } else if toks[p].text.len() > 255 {
        Err(AsciiNodeError::NameTooLong)
    } else {
        match spec_node_head(toks, p, parent, o, found_version, version) {
            Err(e) => Err(e),
            Ok(h) => {
                let s1 = h.values;
                let node = spec_make_node(h.name, h.arr_type, h.flags, h.pad, s1, Seq::empty());
                let done = NodeOutcome {
                    ended: false,
                    pos: s1.pos,
                    found_version: s1.found_version,
                    version: s1.version,
                    has_children: false,
                    arena: arena.push(node),
                };
                if kind_at(toks, s1.pos) != AsciiTokenKind::Char(0x7bu8) {
                    Ok(done)
                } else if !recursive {
                    Ok(NodeOutcome { pos: s1.pos + 1, has_children: true, ..done })
                } else {
                    proof {
                        lemma_head_pos(toks, p, parent, o, found_version, version);
                    }
                    match spec_parse_children(
                        toks,
                        s1.pos + 1,
                        depth + 1,
                        h.state,
                        o,
                        s1.found_version,
                        s1.version,
                        arena,
                        Seq::empty(),
                    ) {
                        Err(e) => Err(e),
                        Ok(c) => Ok(NodeOutcome {
                            ended: false,
                            pos: c.pos,
                            found_version: c.found_version,
                            version: c.version,
                            has_children: true,
                            arena: c.arena.push(spec_make_node(h.name, h.arr_type, h.flags, h.pad, s1, c.children)),
                        }),
                    }
                }
            },
        }
    }
}

/// Reading the children of a node from `p`, `depth` levels deep under a
/// node of state `parent`, node after node up to the `}` that ends them;
/// `children` are the positions of those read so far.
pub open spec fn spec_parse_children(
    toks: Seq<LexedToken>,
    p: int,
    depth: int,
    parent: ParseState,
    o: AsciiNodeOpts,
    found_version: bool,
    version: u32,
    arena: Seq<AsciiNodeView>,
    children: Seq<usize>,
) -> Result<ChildrenOutcome, AsciiNodeError>
    decreases toks.len() - p, 1int,
{
    if p < 0 || p > toks.len() {
        Err(AsciiNodeError::TruncatedFile)
    } else {
        match spec_parse_node(toks, p, depth, parent, true, o, found_version, version, arena) {
            Err(e) => Err(e),
            Ok(r) => {
                if r.ended {
                    Ok(ChildrenOutcome {
                        pos: r.pos,
                        found_version: r.found_version,
                        version: r.version,
                        arena: r.arena,
                        children,
                    })
                } else if p < r.pos <= toks.len() {
                    spec_parse_children(
                        toks,
                        r.pos,
                        depth,
                        parent,
                        o,
                        r.found_version,
                        r.version,
                        r.arena,
                        children.push((r.arena.len() - 1) as usize),
                    )
                } else {
                    Err(AsciiNodeError::TruncatedFile)
                }
            },
        }
    }
}

fn node_mask(values: &Vec<NodeValue>) -> (r: u16)
    requires
        values.len() <= MAX_NON_ARRAY_VALUES,
    ensures
        r == spec_mask(values@.map_values(|v: NodeValue| value_view(v)), values.len() as int) as u16,
{
    let ghost vs = values@.map_values(|v: NodeValue| value_view(v));
    let mut mask: u32 = 0;
    let mut i: usize = 0;
    while i < values.len()
        invariant
            i <= values.len() <= MAX_NON_ARRAY_VALUES,
            vs == values@.map_values(|v: NodeValue| value_view(v)),
            mask == spec_mask(vs, i as int),
        decreases values.len() - i,
    {
        let tag: u32 = match &values[i] {
            NodeValue::Number { .. } => 1u32,
            NodeValue::Text { .. } => 2u32,
        };
        assert(tag == value_tag(vs[i as int]));
        mask = mask | (tag << ((2 * i) as u32));
        i = i + 1;
    }
    mask as u16
}

fn make_node(name: Vec<u8>, arr_type: u8, flags: u8, pad: bool, s: ValueRead, children: Vec<usize>) -> (r: AsciiNode)
    requires
        read_bounded(s),
    ensures
        r@ == spec_make_node(name@, arr_type, flags, pad, s.state(), children@),
{
    if arr_type == 0 {
        let mask = node_mask(&s.values);
        let r = AsciiNode {
            name,
            value_type_mask: mask,
            values: s.values,
            array: None,
            array_flags: 0,
            elements: Vec::new(),
            children,
        };
        assert(r@.elements =~= Seq::<ArrayElemView>::empty());
        r
    } else if arr_type == 0x2du8 {
        let r = AsciiNode {
            name,
            value_type_mask: 3,
            values: Vec::new(),
            array: Some(ArrayValue { size: 0, type_code: arr_type }),
            array_flags: flags,
            elements: Vec::new(),
            children,
        };
        assert(r@.values =~= Seq::<ValueView>::empty());
        assert(r@.elements =~= Seq::<ArrayElemView>::empty());
        r
    } else {
        let n: u32 = if s.arr_error { 0 } else { s.count };
        let size: u32 = if !pad {
            n
        } else if n >= 4 {
            n - 4
        } else {
            n + 0xffff_fffcu32
        };
        let elements = if s.arr_error { Vec::new() } else { s.elements };
        let r = AsciiNode {
            name,
            value_type_mask: 3,
            values: Vec::new(),
            array: Some(ArrayValue { size: size as usize, type_code: arr_type }),
            array_flags: flags,
            elements,
            children,
        };
        assert(r@.values =~= Seq::<ValueView>::empty());
        assert(r@.elements =~= if s.arr_error { Seq::<ArrayElemView>::empty() } else { s.state().elements });
        r
    }
}

fn node_array(o: &AsciiNodeOpts, version: u32, parent: ParseState, name: &[u8]) -> (r: (u8, u8, bool))
    ensures
        r == spec_node_array(*o, version, parent, name@),
{
    let ao = ArrayNodeOpts { version, ..o.arrays };
    match is_array_node(&ao, parent, name) {
        None => (0, 0, false),
        Some(info) => {
            let t = normalize_array_type(info.type_code, 0x62u8);
            (t, info.flags, t != 0x2du8 && info.flags & ARRAY_FLAG_PAD_BEGIN != 0)
        },
    }
}


/// The values of a node are read up to a position after its name.
pub proof fn lemma_head_pos(toks: Seq<LexedToken>, p: int, parent: ParseState, o: AsciiNodeOpts, found_version: bool, version: u32)
    requires
        0 <= p,
    ensures
        spec_node_head(toks, p, parent, o, found_version, version) matches Ok(h) ==> p < h.values.pos,
{
    let name = toks[p].text@;
    let (arr_type, flags, pad) = spec_node_array(o, version, parent, name);
    let q = if kind_at(toks, p + 1) == AsciiTokenKind::Char(0x2cu8) { p + 2 } else { p + 1 };
    let st = spec_update_parse_state(parent, name);
    let s0 = ValueState {
        pos: q,
        count: if pad { 4u32 } else { 0u32 },
        values: Seq::empty(),
        elements: Seq::empty(),
        in_array: false,
        arr_error: false,
        found_version,
        version,
    };
    lemma_values_pos(toks, ValueCtx { arr_type, state: st, parent, name }, s0);
}

/// A node that is read, rather than the end of its parent's children,
/// takes at least its name; an end takes at most its `}`.
pub proof fn lemma_node_advances(
    toks: Seq<LexedToken>,
    p: int,
    depth: int,
    parent: ParseState,
    recursive: bool,
    o: AsciiNodeOpts,
    found_version: bool,
    version: u32,
    arena: Seq<AsciiNodeView>,
)
    ensures
        spec_parse_node(toks, p, depth, parent, recursive, o, found_version, version, arena) matches Ok(r) ==> {
            &&& r.ended ==> p <= r.pos
            &&& !r.ended ==> p < r.pos
        },
    decreases toks.len() - p, 0int,
{
    if 0 <= p <= toks.len() {
        lemma_head_pos(toks, p, parent, o, found_version, version);
        match spec_node_head(toks, p, parent, o, found_version, version) {
            Ok(h) => {
                let s1 = h.values;
                if recursive && kind_at(toks, s1.pos) == AsciiTokenKind::Char(0x7bu8) {
                    lemma_children_advances(toks, s1.pos + 1, depth + 1, h.state, o, s1.found_version, s1.version, arena, Seq::empty());
                }
            },
            Err(_) => {},
        }
    }
}

/// Children end no earlier than they start.
pub proof fn lemma_children_advances(
    toks: Seq<LexedToken>,
    p: int,
    depth: int,
    parent: ParseState,
    o: AsciiNodeOpts,
    found_version: bool,
    version: u32,
    arena: Seq<AsciiNodeView>,
    children: Seq<usize>,
)
    ensures
        spec_parse_children(toks, p, depth, parent, o, found_version, version, arena, children) matches Ok(c) ==> p <= c.pos,
    decreases toks.len() - p, 1int,
{
    if 0 <= p <= toks.len() {
        lemma_node_advances(toks, p, depth, parent, true, o, found_version, version, arena);
        match spec_parse_node(toks, p, depth, parent, true, o, found_version, version, arena) {
            Ok(r) => {
                if !r.ended && p < r.pos <= toks.len() {
                    lemma_children_advances(toks, r.pos, depth, parent, o, r.found_version, r.version, r.arena,
                        children.push((r.arena.len() - 1) as usize));
                }
            },
            Err(_) => {},
        }
    }
}

/// Whether every node of `arena` from position `from` on has its children
/// among the nodes before it, from `from` on.
pub open spec fn children_before(arena: Seq<AsciiNodeView>, from: int) -> bool {
    forall|i: int, j: int|
        from <= i < arena.len() && 0 <= j < arena[i].children.len() ==> from <= #[trigger] arena[i].children[j] < i
}

/// Reading a node keeps the nodes already in the list and adds the node
/// (unless the children of its parent end there) after its descendants,
/// at most one node for each token read; the children of every node
/// added stand before it in the list. (The list is taken to have room for
/// a node for every token left.)
pub proof fn law_node_list(
    toks: Seq<LexedToken>,
    p: int,
    depth: int,
    parent: ParseState,
    recursive: bool,
    o: AsciiNodeOpts,
    found_version: bool,
    version: u32,
    arena: Seq<AsciiNodeView>,
    from: int,
)
    requires
        0 <= p <= toks.len(),
        arena.len() + toks.len() - p <= usize::MAX,
        0 <= from <= arena.len(),
        children_before(arena, from),
    ensures
        spec_parse_node(toks, p, depth, parent, recursive, o, found_version, version, arena) matches Ok(r) ==> {
            &&& r.ended ==> r.arena == arena
            &&& !r.ended ==> arena.len() < r.arena.len()
            &&& r.arena.len() - arena.len() <= r.pos - p
            &&& r.arena.subrange(0, arena.len() as int) == arena
            &&& children_before(r.arena, from)
        },
    decreases toks.len() - p, 0int,
{
    lemma_head_pos(toks, p, parent, o, found_version, version);
    match spec_node_head(toks, p, parent, o, found_version, version) {
        Ok(h) => {
            let s1 = h.values;
            let node = spec_make_node(h.name, h.arr_type, h.flags, h.pad, s1, Seq::empty());
            assert(arena.push(node).subrange(0, arena.len() as int) =~= arena);
            if recursive && kind_at(toks, s1.pos) == AsciiTokenKind::Char(0x7bu8) {
                lemma_children_list(toks, s1.pos + 1, depth + 1, h.state, o, s1.found_version, s1.version, arena, Seq::empty(), from);
                match spec_parse_children(toks, s1.pos + 1, depth + 1, h.state, o, s1.found_version, s1.version, arena, Seq::empty()) {
                    Ok(c) => {
                        let full = spec_make_node(h.name, h.arr_type, h.flags, h.pad, s1, c.children);
                        assert(c.arena.push(full).subrange(0, arena.len() as int) =~= c.arena.subrange(0, arena.len() as int));
                    },
                    Err(_) => {},
                }
            }
        },
        Err(_) => {},
    }
}

/// Reading children keeps the nodes already in the list, adding at most
/// one node for each token read; the children read, like those before,
/// stand in the list from `from` on.
pub proof fn lemma_children_list(
    toks: Seq<LexedToken>,
    p: int,
    depth: int,
    parent: ParseState,
    o: AsciiNodeOpts,
    found_version: bool,
    version: u32,
    arena: Seq<AsciiNodeView>,
    children: Seq<usize>,
    from: int,
)
    requires
        0 <= p <= toks.len(),
        arena.len() + toks.len() - p <= usize::MAX,
        0 <= from <= arena.len(),
        children_before(arena, from),
        forall|k: int| 0 <= k < children.len() ==> from <= #[trigger] children[k] < arena.len(),
    ensures
        spec_parse_children(toks, p, depth, parent, o, found_version, version, arena, children) matches Ok(c) ==> {
            &&& arena.len() <= c.arena.len()
            &&& c.arena.len() - arena.len() <= c.pos - p
            &&& c.arena.subrange(0, arena.len() as int) == arena
            &&& children_before(c.arena, from)
            &&& forall|k: int| 0 <= k < c.children.len() ==> from <= #[trigger] c.children[k] < c.arena.len()
        },
    decreases toks.len() - p, 1int,
{
    law_node_list(toks, p, depth, parent, true, o, found_version, version, arena, from);
    match spec_parse_node(toks, p, depth, parent, true, o, found_version, version, arena) {
        Ok(r) => {
            if !r.ended && p < r.pos <= toks.len() {
                let kids = children.push((r.arena.len() - 1) as usize);
                assert forall|k: int| 0 <= k < kids.len() implies from <= #[trigger] kids[k] < r.arena.len() by {
                    if k < children.len() {
                        assert(kids[k] == children[k]);
                    }
                }
                lemma_children_list(toks, r.pos, depth, parent, o, r.found_version, r.version, r.arena, kids, from);
                match spec_parse_children(toks, r.pos, depth, parent, o, r.found_version, r.version, r.arena, kids) {
                    Ok(c) => {
                        assert(c.arena.subrange(0, arena.len() as int) =~= c.arena.subrange(0, r.arena.len() as int).subrange(0, arena.len() as int));
                    },
                    Err(_) => {},
                }
            }
        },
        Err(_) => {},
    }
}

/// A node's name and values as the executable code keeps them.
struct Head {
    arr_type: u8,
    flags: u8,
    pad: bool,
    state: ParseState,
    values: ValueRead,
}

/// Reads the name at `p` and the values of a node (see `spec_node_head`).
fn node_head(
    toks: &Vec<LexedToken>,
    p: usize,
    parent: ParseState,
    o: &AsciiNodeOpts,
    table: &[u8],
    found_version: bool,
    version: u32,
) -> (r: Result<Head, AsciiNodeError>)
    requires
        p < toks.len(),
        table@.len() == 256,
        forall|c: u8| #[trigger] table@[c as int] == spec_base64_value(c),
    ensures
        match spec_node_head(toks@, p as int, parent, *o, found_version, version) {
            Ok(h) => r matches Ok(x) && x.arr_type == h.arr_type && x.flags == h.flags && x.pad == h.pad && x.state
                == h.state && x.values.state() == h.values && x.values.pos <= toks.len() && read_bounded(x.values),
            Err(e) => r matches Err(f) && f == e,
        },
{
    let name = toks[p].text.as_slice();
    let (arr_type, flags, pad) = node_array(o, version, parent, name);
    let q = if kind_of(toks, p + 1) == AsciiTokenKind::Char(0x2cu8) { p + 2 } else { p + 1 };
    let q = if q > toks.len() { toks.len() } else { q };
    let st = update_parse_state(parent, name);
    let s0 = ValueRead {
        pos: q,
        count: if pad { 4 } else { 0 },
        values: Vec::new(),
        elements: Vec::new(),
        in_array: false,
        arr_error: false,
        found_version,
        version,
    };
    proof {
        assert(s0.state().values =~= Seq::<ValueView>::empty());
        assert(s0.state().elements =~= Seq::<ArrayElemView>::empty());
    }
    match read_values(toks, arr_type, st, parent, name, table, s0) {
        Err(e) => Err(e),
        Ok(v) => Ok(Head { arr_type, flags, pad, state: st, values: v }),
    }
}

/// Where the reading of a node leaves off (see `NodeOutcome`).
#[derive(Clone, Copy, Debug)]
pub struct NodeRead {
    pub ended: bool,
    pub pos: usize,
    pub found_version: bool,
    pub version: u32,
    pub has_children: bool,
}

/// Where reading children leaves off: the position after their `}`, the
/// version, and the positions of the children.
struct ChildrenRead {
    pos: usize,
    found_version: bool,
    version: u32,
    children: Vec<usize>,
}

/// Reads the children of a node (see `spec_parse_children`).
fn parse_children(
    toks: &Vec<LexedToken>,
    start: usize,
    depth: usize,
    parent: ParseState,
    o: &AsciiNodeOpts,
    table: &[u8],
    found_version: bool,
    version: u32,
    arena: &mut Vec<AsciiNode>,
) -> (r: Result<ChildrenRead, AsciiNodeError>)
    requires
        start <= toks.len(),
        depth <= MAX_NODE_DEPTH,
        table@.len() == 256,
        forall|c: u8| #[trigger] table@[c as int] == spec_base64_value(c),
    ensures
        match spec_parse_children(toks@, start as int, depth as int, parent, *o, found_version, version, arena_view(old(arena)@), Seq::empty()) {
            Ok(n) => r matches Ok(x) && x.pos == n.pos && x.found_version == n.found_version && x.version == n.version
                && x.children@ == n.children && arena_view(final(arena)@) == n.arena,
            Err(e) => r matches Err(f) && f == e,
        },
    decreases toks.len() - start, 1int,
{
    let ghost goal = spec_parse_children(toks@, start as int, depth as int, parent, *o, found_version, version, arena_view(arena@), Seq::empty());
    let mut c = start;
    let mut fv = found_version;
    let mut ver = version;
    let mut kids: Vec<usize> = Vec::new();
    let mut end_pos: usize = 0;
    loop
        invariant_except_break
            start <= c <= toks.len(),
            spec_parse_children(toks@, c as int, depth as int, parent, *o, fv, ver, arena_view(arena@), kids@) == goal,
        invariant
            depth <= MAX_NODE_DEPTH,
            table@.len() == 256,
            forall|ch: u8| #[trigger] table@[ch as int] == spec_base64_value(ch),
            goal == spec_parse_children(toks@, start as int, depth as int, parent, *o, found_version, version, arena_view(old(arena)@), Seq::empty()),
        ensures
            goal == Ok::<ChildrenOutcome, AsciiNodeError>(ChildrenOutcome {
                pos: end_pos as int,
                found_version: fv,
                version: ver,
                arena: arena_view(arena@),
                children: kids@,
            }),
        decreases toks.len() - c,
    {
        let r = match ascii_parse_node(toks, c, depth, parent, true, o, table, fv, ver, arena) {
            Err(e) => {
                return Err(e);
            },
            Ok(x) => x,
        };
        fv = r.found_version;
        ver = r.version;
        if r.ended {
            end_pos = r.pos;
            break;
        }
        if r.pos <= c || r.pos > toks.len() {
            return Err(AsciiNodeError::TruncatedFile);
        }
        kids.push(arena.len() - 1);
        c = r.pos;
    }
    Ok(ChildrenRead { pos: end_pos, found_version: fv, version: ver, children: kids })
}

/// Reads one node (see `spec_parse_node`), adding it, after its children,
/// to `arena`. `table` is the base64 decoding table of `setup_base64`.
#[verifier::rlimit(60)]
pub fn ascii_parse_node(
    toks: &Vec<LexedToken>,
    p: usize,
    depth: usize,
    parent: ParseState,
    recursive: bool,
    o: &AsciiNodeOpts,
    table: &[u8],
    found_version: bool,
    version: u32,
    arena: &mut Vec<AsciiNode>,
) -> (r: Result<NodeRead, AsciiNodeError>)
    requires
        table@.len() == 256,
        forall|c: u8| #[trigger] table@[c as int] == spec_base64_value(c),
    ensures
        match spec_parse_node(toks@, p as int, depth as int, parent, recursive, *o, found_version, version, arena_view(old(arena)@)) {
            Ok(n) => r matches Ok(x) && x.ended == n.ended && x.pos == n.pos && x.found_version == n.found_version
                && x.version == n.version && x.has_children == n.has_children && arena_view(final(arena)@) == n.arena,
            Err(e) => r matches Err(f) && f == e,
        },
    decreases toks.len() - p, 0int,
{
    if p > toks.len() {
        return Err(AsciiNodeError::TruncatedFile);
    }
    let k = kind_of(toks, p);
    if k == AsciiTokenKind::Char(0x7du8) {
        return Ok(NodeRead { ended: true, pos: p + 1, found_version, version, has_children: false });
    }
    if k == AsciiTokenKind::Char(0u8) {
        if depth == 0 {
            return Ok(NodeRead { ended: true, pos: p, found_version, version, has_children: false });
        } else {
            return Err(AsciiNodeError::TruncatedFile);
        }
    }
    if depth >= MAX_NODE_DEPTH {
        return Err(AsciiNodeError::TooDeep);
    }
    if !o.sure_fbx && depth == 0 && k != AsciiTokenKind::Name {
        return Err(AsciiNodeError::NotFbx);
    }
    if k != AsciiTokenKind::Name {
        return Err(AsciiNodeError::ExpectedName);
    }
    if toks[p].text.len() > 255 {
        return Err(AsciiNodeError::NameTooLong);
    }
    let h = match node_head(toks, p, parent, o, table, found_version, version) {
        Err(e) => {
            return Err(e);
        },
        Ok(h) => h,
    };
    let after = h.values.pos;
    let fv1 = h.values.found_version;
    let v1 = h.values.version;
    if kind_of(toks, after) != AsciiTokenKind::Char(0x7bu8) {
        let node = make_node(copy_bytes(&toks[p].text), h.arr_type, h.flags, h.pad, h.values, Vec::new());
        arena.push(node);
        return Ok(NodeRead { ended: false, pos: after, found_version: fv1, version: v1, has_children: false });
    }
    if !recursive {
        let node = make_node(copy_bytes(&toks[p].text), h.arr_type, h.flags, h.pad, h.values, Vec::new());
        arena.push(node);
        return Ok(NodeRead { ended: false, pos: after + 1, found_version: fv1, version: v1, has_children: true });
    }
    proof {
        lemma_head_pos(toks@, p as int, parent, *o, found_version, version);
    }
    let c = match parse_children(toks, after + 1, depth + 1, h.state, o, table, fv1, v1, arena) {
        Err(e) => {
            return Err(e);
        },
        Ok(c) => c,
    };
    let node = make_node(copy_bytes(&toks[p].text), h.arr_type, h.flags, h.pad, h.values, c.children);
    arena.push(node);
    Ok(NodeRead { ended: false, pos: c.pos, found_version: c.found_version, version: c.version, has_children: true })
}

} // verus!
