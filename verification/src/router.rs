//! The call router: selector resolution, payload decoding, dispatch, and
//! result encoding.
//!
//! An incoming call carries an opaque selector and a raw byte payload. The
//! router resolves the selector to exactly one operation, decodes the
//! payload into that operation's input, invokes the operation, and encodes
//! the result for the caller. An unrecognized selector or a malformed
//! payload rejects the call before any logic runs, so a failing call never
//! leaves a partial state change.
//!
//! Wire layout. Multi-byte integers are little-endian. A character is its
//! Unicode scalar value in four bytes; a text is an eight-byte character
//! count followed by its characters; an optional field is a flag byte, `0`
//! for absent or `1` followed by the field. Each operation's payload is,
//! exactly:
//! `set_puzzle` hint text, word text, reward text (the word non-empty);
//! `get_puzzle_info` an address; `challenge` an address and an optional
//! character; `guess` an address and an optional text.

use vstd::prelude::*;

use crate::error::CallError;
use crate::logic::{challenge, get_puzzle_info, set_puzzle, spec_challenge, spec_get_puzzle_info,
    spec_guess, spec_set_puzzle, guess};
use crate::puzzle::{Puzzle, PuzzleInfo, PuzzleInfoView, PuzzleView};
use crate::store::{Address, PuzzleStore, ADDRESS_LEN};

verus! {

/// The selector the execution environment derives from `set_puzzle`.
pub const SET_PUZZLE_SELECTOR: u32 = 0x7370_7a6c;

/// The selector the execution environment derives from `get_puzzle_info`.
pub const GET_PUZZLE_INFO_SELECTOR: u32 = 0x7069_6e66;

/// The selector the execution environment derives from `challenge`.
pub const CHALLENGE_SELECTOR: u32 = 0x6368_616c;

/// The selector the execution environment derives from `guess`.
pub const GUESS_SELECTOR: u32 = 0x6775_6573;

/// The four operations the contract exposes.
#[derive(Clone, Copy, Debug, PartialEq, Eq, Structural)]
pub enum Operation {
    SetPuzzle,
    GetPuzzleInfo,
    Challenge,
    Guess,
}

/// Which operation a selector names, if any.
pub open spec fn spec_resolve(selector: u32) -> Option<Operation> {
    if selector == SET_PUZZLE_SELECTOR {
        Some(Operation::SetPuzzle)
    } else if selector == GET_PUZZLE_INFO_SELECTOR {
        Some(Operation::GetPuzzleInfo)
    } else if selector == CHALLENGE_SELECTOR {
        Some(Operation::Challenge)
    } else if selector == GUESS_SELECTOR {
        Some(Operation::Guess)
    } else {
        None
    }
}

/// Resolves a selector to the operation it names.
pub fn resolve(selector: u32) -> (r: Option<Operation>)
    ensures
        r == spec_resolve(selector),
{
    if selector == SET_PUZZLE_SELECTOR {
        Some(Operation::SetPuzzle)
    } else if selector == GET_PUZZLE_INFO_SELECTOR {
        Some(Operation::GetPuzzleInfo)
    } else if selector == CHALLENGE_SELECTOR {
        Some(Operation::Challenge)
    } else if selector == GUESS_SELECTOR {
        Some(Operation::Guess)
    } else {
        None
    }
}

/// The little-endian value of the four bytes at `pos`.
pub open spec fn le32_at(b: Seq<u8>, pos: int) -> int
    recommends
        0 <= pos,
        pos + 4 <= b.len(),
{
    b[pos] + 0x100 * b[pos + 1] + 0x1_0000 * b[pos + 2] + 0x100_0000 * b[pos + 3]
}

/// The little-endian value of the eight bytes at `pos`.
pub open spec fn le64_at(b: Seq<u8>, pos: int) -> int
    recommends
        0 <= pos,
        pos + 8 <= b.len(),
{
    b[pos] + 0x100 * b[pos + 1] + 0x1_0000 * b[pos + 2] + 0x100_0000 * b[pos + 3] + 0x1_0000_0000
        * b[pos + 4] + 0x100_0000_0000 * b[pos + 5] + 0x1_0000_0000_0000 * b[pos + 6]
        + 0x100_0000_0000_0000 * b[pos + 7]
}

/// Whether `v` is a Unicode scalar value, the code of some `char`.
pub open spec fn is_scalar_value(v: int) -> bool {
    (0 <= v < 0xD800) || (0xE000 <= v <= 0x10_FFFF)
}

/// The character whose scalar value stands at `pos` in four bytes.
pub open spec fn char_at(b: Seq<u8>, pos: int) -> char
    recommends
        0 <= pos,
        pos + 4 <= b.len(),
        is_scalar_value(le32_at(b, pos)),
{
    le32_at(b, pos) as char
}

/// The character count of the text at `pos`.
pub open spec fn text_len(b: Seq<u8>, pos: int) -> int
    recommends
        0 <= pos,
        pos + 8 <= b.len(),
{
    le64_at(b, pos)
}

/// The scalar value of the `i`-th character of the text at `pos`.
pub open spec fn char_unit_at(b: Seq<u8>, pos: int, i: int) -> int {
    le32_at(b, pos + 8 + 4 * i)
}

/// Whether a whole well-formed text stands at `pos`.
pub open spec fn text_ok(b: Seq<u8>, pos: int) -> bool {
    &&& 0 <= pos
    &&& pos + 8 <= b.len()
    &&& pos + 8 + 4 * text_len(b, pos) <= b.len()
    &&& forall|i: int|
        0 <= i < text_len(b, pos) ==> is_scalar_value(#[trigger] char_unit_at(b, pos, i))
}

/// The text at `pos`.
pub open spec fn text_at(b: Seq<u8>, pos: int) -> Seq<char>
    recommends
        text_ok(b, pos),
{
    Seq::new(text_len(b, pos) as nat, |i: int| char_unit_at(b, pos, i) as char)
}

/// The position just after the text at `pos`.
pub open spec fn text_end(b: Seq<u8>, pos: int) -> int
    recommends
        0 <= pos,
        pos + 8 <= b.len(),
{
    pos + 8 + 4 * text_len(b, pos)
}

/// Relies on `char::from_u32`: it returns the character with scalar value
/// `v`, and `None` exactly when `v` is a surrogate code point or above the
/// Unicode range.
pub assume_specification[ char::from_u32 ](v: u32) -> (r: Option<char>)
    ensures
        (r is Some) == is_scalar_value(v as int),
        r is Some ==> r->0 == v as char && r->0 as u32 == v,
;

/// Reads the little-endian `u32` at `pos`, if four bytes are there.
fn read_u32(b: &Vec<u8>, pos: usize) -> (r: Option<u32>)
    requires
        pos <= b@.len(),
    ensures
        match r {
            Some(v) => pos + 4 <= b@.len() && v as int == le32_at(b@, pos as int),
            None => pos + 4 > b@.len(),
        },
{
    if b.len() - pos < 4 {
        return None;
    }
    let v: u32 = (b[pos] as u32) + 0x100 * (b[pos + 1] as u32) + 0x1_0000 * (b[pos + 2] as u32)
        + 0x100_0000 * (b[pos + 3] as u32);
    Some(v)
}

/// Reads the little-endian `u64` at `pos`, if eight bytes are there.
fn read_u64(b: &Vec<u8>, pos: usize) -> (r: Option<u64>)
    requires
        pos <= b@.len(),
    ensures
        match r {
            Some(v) => pos + 8 <= b@.len() && v as int == le64_at(b@, pos as int),
            None => pos + 8 > b@.len(),
        },
{
    if b.len() - pos < 8 {
        return None;
    }
    let v: u64 = (b[pos] as u64) + 0x100 * (b[pos + 1] as u64) + 0x1_0000 * (b[pos + 2] as u64)
        + 0x100_0000 * (b[pos + 3] as u64) + 0x1_0000_0000 * (b[pos + 4] as u64)
        + 0x100_0000_0000 * (b[pos + 5] as u64) + 0x1_0000_0000_0000 * (b[pos + 6] as u64)
        + 0x100_0000_0000_0000 * (b[pos + 7] as u64);
    Some(v)
}

/// Reads the character whose scalar value stands at `pos`.
fn read_char(b: &Vec<u8>, pos: usize) -> (r: Option<char>)
    requires
        pos <= b@.len(),
    ensures
        match r {
            Some(c) => pos + 4 <= b@.len() && is_scalar_value(le32_at(b@, pos as int)) && c
                == char_at(b@, pos as int),
            None => pos + 4 > b@.len() || !is_scalar_value(le32_at(b@, pos as int)),
        },
{
    match read_u32(b, pos) {
        Some(v) => char::from_u32(v),
        None => None,
    }
}

/// Reads the text at `pos`; `Some` carries the text and the position just
/// after it.
fn read_text(b: &Vec<u8>, pos: usize) -> (r: Option<(Vec<char>, usize)>)
    requires
        pos <= b@.len(),
    ensures
        match r {
            Some(te) => text_ok(b@, pos as int) && te.0@ == text_at(b@, pos as int) && te.1 as int
                == text_end(b@, pos as int) && te.1 <= b@.len(),
            None => !text_ok(b@, pos as int),
        },
{
    let n: u64 = match read_u64(b, pos) {
        Some(n) => n,
        None => {
            return None;
        },
    };
    let blen: usize = b.len();
    let mut out: Vec<char> = Vec::new();
    let mut cur: usize = pos + 8;
    let mut i: u64 = 0;
    while i < n
        invariant
            pos + 8 <= b@.len(),
            n as int == text_len(b@, pos as int),
            i <= n,
            cur as int == pos + 8 + 4 * i,
            cur <= b@.len(),
            out@.len() == i,
            forall|j: int|
                0 <= j < i ==> is_scalar_value(#[trigger] char_unit_at(b@, pos as int, j))
                    && out@[j] == char_unit_at(b@, pos as int, j) as char,
        decreases n - i,
    {
        if b.len() - cur < 4 {
            proof {
                assert(pos + 8 + 4 * text_len(b@, pos as int) > b@.len());
            }
            return None;
        }
        match read_char(b, cur) {
            Some(c) => {
                out.push(c);
            },
            None => {
                proof {
                    assert(!is_scalar_value(char_unit_at(b@, pos as int, i as int)));
                }
                return None;
            },
        }
        cur = cur + 4;
        i = i + 1;
    }
    proof {
        assert(text_ok(b@, pos as int));
        assert(out@ =~= text_at(b@, pos as int));
    }
    Some((out, cur))
}

/// Reads the fixed-width address that starts the payload.
fn read_address(b: &Vec<u8>) -> (r: Option<Address>)
    ensures
        match r {
            Some(a) => b@.len() >= ADDRESS_LEN && a@ == b@.subrange(0, ADDRESS_LEN as int)
                && a.wf(),
            None => b@.len() < ADDRESS_LEN,
        },
{
    if b.len() < ADDRESS_LEN {
        return None;
    }
    let mut bytes: Vec<u8> = Vec::new();
    let mut i: usize = 0;
    while i < ADDRESS_LEN
        invariant
            b@.len() >= ADDRESS_LEN,
            i <= ADDRESS_LEN,
            bytes@ == b@.subrange(0, i as int),
        decreases ADDRESS_LEN - i,
    {
        bytes.push(b[i]);
        i = i + 1;
        proof {
            assert(bytes@ =~= b@.subrange(0, i as int));
        }
    }
    Some(Address { bytes })
}

/// The puzzle record that a `set_puzzle` payload holds, if it is well
/// formed: three texts, the word non-empty, nothing after them.
pub open spec fn spec_decode_puzzle(b: Seq<u8>) -> Option<PuzzleView> {
    if text_ok(b, 0) {
        let p1 = text_end(b, 0);
        if text_ok(b, p1) {
            let p2 = text_end(b, p1);
            if text_ok(b, p2) && text_end(b, p2) == b.len() && text_at(b, p1).len() > 0 {
                Some(
                    PuzzleView {
                        hint: text_at(b, 0),
                        word: text_at(b, p1),
                        reward: text_at(b, p2),
                    },
                )
            } else {
                None
            }
        } else {
            None
        }
    } else {
        None
    }
}

/// The address that a `get_puzzle_info` payload holds, if it is exactly one.
pub open spec fn spec_decode_address(b: Seq<u8>) -> Option<Seq<u8>> {
    if b.len() == ADDRESS_LEN {
        Some(b.subrange(0, ADDRESS_LEN as int))
    } else {
        None
    }
}

/// The address and optional letter that a `challenge` payload holds.
pub open spec fn spec_decode_challenge(b: Seq<u8>) -> Option<(Seq<u8>, Option<char>)> {
    if b.len() >= ADDRESS_LEN + 1 {
        let a = b.subrange(0, ADDRESS_LEN as int);
        let flag = b[ADDRESS_LEN as int];
        if flag == 0 && b.len() == ADDRESS_LEN + 1 {
            Some((a, None))
        } else if flag == 1 && b.len() == ADDRESS_LEN + 5 && is_scalar_value(
            le32_at(b, ADDRESS_LEN + 1),
        ) {
            Some((a, Some(char_at(b, ADDRESS_LEN + 1))))
        } else {
            None
        }
    } else {
        None
    }
}

/// The address and optional attempt that a `guess` payload holds.
pub open spec fn spec_decode_guess(b: Seq<u8>) -> Option<(Seq<u8>, Option<Seq<char>>)> {
    if b.len() >= ADDRESS_LEN + 1 {
        let a = b.subrange(0, ADDRESS_LEN as int);
        let flag = b[ADDRESS_LEN as int];
        if flag == 0 && b.len() == ADDRESS_LEN + 1 {
            Some((a, None))
        } else if flag == 1 && text_ok(b, ADDRESS_LEN + 1) && text_end(b, ADDRESS_LEN + 1)
            == b.len() {
            Some((a, Some(text_at(b, ADDRESS_LEN + 1))))
        } else {
            None
        }
    } else {
        None
    }
}

/// Decodes a `set_puzzle` payload into the puzzle record it carries.
fn decode_puzzle(b: &Vec<u8>) -> (r: Result<Puzzle, CallError>)
    ensures
        match spec_decode_puzzle(b@) {
            Some(pv) => r is Ok && r->Ok_0@ == pv && r->Ok_0.wf(),
            None => r == Err::<Puzzle, CallError>(CallError::DecodeError),
        },
{
    let (hint, p1) = match read_text(b, 0) {
        Some(te) => te,
        None => {
            return Err(CallError::DecodeError);
        },
    };
    let (word, p2) = match read_text(b, p1) {
        Some(te) => te,
        None => {
            return Err(CallError::DecodeError);
        },
    };
    let (reward, p3) = match read_text(b, p2) {
        Some(te) => te,
        None => {
            return Err(CallError::DecodeError);
        },
    };
    if p3 != b.len() || word.len() == 0 {
        return Err(CallError::DecodeError);
    }
    Ok(Puzzle { hint, word, reward })
}

/// Decodes a `get_puzzle_info` payload into the queried address.
fn decode_address(b: &Vec<u8>) -> (r: Result<Address, CallError>)
    ensures
        match spec_decode_address(b@) {
            Some(av) => r is Ok && r->Ok_0@ == av && r->Ok_0.wf(),
            None => r == Err::<Address, CallError>(CallError::DecodeError),
        },
{
    if b.len() != ADDRESS_LEN {
        return Err(CallError::DecodeError);
    }
    match read_address(b) {
        Some(a) => {
            proof {
                assert(a@ =~= b@);
            }
            Ok(a)
        },
        None => Err(CallError::DecodeError),
    }
}

/// Decodes a `challenge` payload into the address and the optional letter.
fn decode_challenge(b: &Vec<u8>) -> (r: Result<(Address, Option<char>), CallError>)
    ensures
        match spec_decode_challenge(b@) {
            Some(in_v) => r is Ok && r->Ok_0.0@ == in_v.0 && r->Ok_0.0.wf() && r->Ok_0.1 == in_v.1,
            None => r == Err::<(Address, Option<char>), CallError>(CallError::DecodeError),
        },
{
    let a = match read_address(b) {
        Some(a) => a,
        None => {
            return Err(CallError::DecodeError);
        },
    };
    if b.len() < ADDRESS_LEN + 1 {
        return Err(CallError::DecodeError);
    }
    let flag = b[ADDRESS_LEN];
    if flag == 0 && b.len() == ADDRESS_LEN + 1 {
        Ok((a, None))
    } else if flag == 1 && b.len() == ADDRESS_LEN + 5 {
        match read_char(b, ADDRESS_LEN + 1) {
            Some(c) => Ok((a, Some(c))),
            None => Err(CallError::DecodeError),
        }
    } else {
        Err(CallError::DecodeError)
    }
}

/// Decodes a `guess` payload into the address and the optional attempt.
fn decode_guess(b: &Vec<u8>) -> (r: Result<(Address, Option<Vec<char>>), CallError>)
    ensures
        match spec_decode_guess(b@) {
            Some(in_v) => r is Ok && r->Ok_0.0@ == in_v.0 && r->Ok_0.0.wf() && (match r->Ok_0.1 {
                Some(t) => in_v.1 is Some && t@ == in_v.1->0,
                None => in_v.1 is None,
            }),
            None => r == Err::<(Address, Option<Vec<char>>), CallError>(CallError::DecodeError),
        },
{
    let a = match read_address(b) {
        Some(a) => a,
        None => {
            return Err(CallError::DecodeError);
        },
    };
    if b.len() < ADDRESS_LEN + 1 {
        return Err(CallError::DecodeError);
    }
    let flag = b[ADDRESS_LEN];
    if flag == 0 && b.len() == ADDRESS_LEN + 1 {
        Ok((a, None))
    } else if flag == 1 {
        match read_text(b, ADDRESS_LEN + 1) {
            Some((t, end)) => {
                if end == b.len() {
                    Ok((a, Some(t)))
                } else {
                    Err(CallError::DecodeError)
                }
            },
            None => Err(CallError::DecodeError),
        }
    } else {
        Err(CallError::DecodeError)
    }
}

/// The little-endian bytes of a value below `2^32`.
pub open spec fn le32_seq(v: int) -> Seq<u8> {
    seq![
        (v % 0x100) as u8,
        ((v / 0x100) % 0x100) as u8,
        ((v / 0x1_0000) % 0x100) as u8,
        ((v / 0x100_0000) % 0x100) as u8,
    ]
}

/// The little-endian bytes of a value below `2^64`.
pub open spec fn le64_seq(v: int) -> Seq<u8> {
    seq![
        (v % 0x100) as u8,
        ((v / 0x100) % 0x100) as u8,
        ((v / 0x1_0000) % 0x100) as u8,
        ((v / 0x100_0000) % 0x100) as u8,
        ((v / 0x1_0000_0000) % 0x100) as u8,
        ((v / 0x100_0000_0000) % 0x100) as u8,
        ((v / 0x1_0000_0000_0000) % 0x100) as u8,
        ((v / 0x100_0000_0000_0000) % 0x100) as u8,
    ]
}

/// The characters of a text on the wire, four bytes each.
pub open spec fn enc_chars(t: Seq<char>) -> Seq<u8>
    decreases t.len(),
{
    if t.len() == 0 {
        Seq::empty()
    } else {
        enc_chars(t.drop_last()) + le32_seq((t.last() as u32) as int)
    }
}

/// A text on the wire: its character count, then its characters.
pub open spec fn enc_text(t: Seq<char>) -> Seq<u8> {
    le64_seq(t.len() as int) + enc_chars(t)
}

/// Appends the little-endian bytes of `v`.
fn push_le32(out: &mut Vec<u8>, v: u32)
    ensures
        final(out)@ == old(out)@ + le32_seq(v as int),
{
    out.push((v % 0x100) as u8);
    out.push(((v / 0x100) % 0x100) as u8);
    out.push(((v / 0x1_0000) % 0x100) as u8);
    out.push(((v / 0x100_0000) % 0x100) as u8);
    proof {
        assert(out@ =~= old(out)@ + le32_seq(v as int));
    }
}

/// Appends the little-endian bytes of `v`.
fn push_le64(out: &mut Vec<u8>, v: u64)
    ensures
        final(out)@ == old(out)@ + le64_seq(v as int),
{
    out.push((v % 0x100) as u8);
    out.push(((v / 0x100) % 0x100) as u8);
    out.push(((v / 0x1_0000) % 0x100) as u8);
    out.push(((v / 0x100_0000) % 0x100) as u8);
    out.push(((v / 0x1_0000_0000) % 0x100) as u8);
    out.push(((v / 0x100_0000_0000) % 0x100) as u8);
    out.push(((v / 0x1_0000_0000_0000) % 0x100) as u8);
    out.push(((v / 0x100_0000_0000_0000) % 0x100) as u8);
    proof {
        assert(out@ =~= old(out)@ + le64_seq(v as int));
    }
}

/// Appends a text in wire form.
fn encode_text_into(out: &mut Vec<u8>, t: &Vec<char>)
    ensures
        final(out)@ == old(out)@ + enc_text(t@),
{
    push_le64(out, t.len() as u64);
    let mut i: usize = 0;
    while i < t.len()
        invariant
            i <= t@.len(),
            out@ == old(out)@ + le64_seq(t@.len() as int) + enc_chars(t@.subrange(0, i as int)),
        decreases t@.len() - i,
    {
        let c: char = t[i];
        let u: u32 = c as u32;
        push_le32(out, u);
        i = i + 1;
        proof {
            let pre = t@.subrange(0, i as int);
            assert(pre.drop_last() =~= t@.subrange(0, i - 1));
            assert(pre.last() == t@[i - 1]);
            assert(pre.len() > 0);
            assert(enc_chars(pre) == enc_chars(pre.drop_last()) + le32_seq(
                (pre.last() as u32) as int,
            ));
            assert(out@ =~= old(out)@ + le64_seq(t@.len() as int) + enc_chars(pre));
        }
    }
    proof {
        assert(t@.subrange(0, t@.len() as int) =~= t@);
        assert(out@ =~= old(out)@ + enc_text(t@));
    }
}

/// The value of an operation's successful output.
pub ghost enum OutputView {
    Empty,
    Info(PuzzleInfoView),
    Masked(Seq<char>),
    Reward(Seq<char>),
}

/// An operation's successful output: nothing for a mutation, the puzzle
/// projection for a lookup, the masked word for a challenge, the reward for
/// a successful guess.
pub enum Output {
    Empty,
    Info(PuzzleInfo),
    Masked(Vec<char>),
    Reward(Vec<char>),
}

impl View for Output {
    type V = OutputView;

    open spec fn view(&self) -> OutputView {
        match self {
            Output::Empty => OutputView::Empty,
            Output::Info(info) => OutputView::Info(info@),
            Output::Masked(t) => OutputView::Masked(t@),
            Output::Reward(t) => OutputView::Reward(t@),
        }
    }
}

/// The wire form of an output: an empty reply, or the info's size and hint,
/// or a bare text.
pub open spec fn spec_encode_output(o: OutputView) -> Seq<u8> {
    match o {
        OutputView::Empty => Seq::empty(),
        OutputView::Info(info) => le64_seq(info.size as int) + enc_text(info.hint),
        OutputView::Masked(t) => enc_text(t),
        OutputView::Reward(t) => enc_text(t),
    }
}

/// Encodes an output for the external caller.
pub fn encode_output(o: &Output) -> (r: Vec<u8>)
    ensures
        r@ == spec_encode_output(o@),
{
    let mut out: Vec<u8> = Vec::new();
    match o {
        Output::Empty => {},
        Output::Info(info) => {
            push_le64(&mut out, info.size as u64);
            encode_text_into(&mut out, &info.hint);
        },
        Output::Masked(t) => {
            encode_text_into(&mut out, t);
        },
        Output::Reward(t) => {
            encode_text_into(&mut out, t);
        },
    }
    proof {
        assert(out@ =~= spec_encode_output(o@));
    }
    out
}

/// The value of a dispatch result.
pub open spec fn output_result_view(r: Result<Output, CallError>) -> Result<
    OutputView,
    CallError,
> {
    match r {
        Ok(o) => Ok(o@),
        Err(e) => Err(e),
    }
}

/// The store's state after a routed call: only a `set_puzzle` call whose
/// payload decodes mutates it, and only by that one upsert.
pub open spec fn spec_dispatch_state(
    m: Map<Seq<u8>, PuzzleView>,
    caller: Seq<u8>,
    selector: u32,
    payload: Seq<u8>,
) -> Map<Seq<u8>, PuzzleView> {
    if spec_resolve(selector) == Some(Operation::SetPuzzle) {
        match spec_decode_puzzle(payload) {
            Some(p) => spec_set_puzzle(m, caller, p),
            None => m,
        }
    } else {
        m
    }
}

/// What a routed call returns: the resolved operation's model applied to
/// the decoded input, or the rejection that stopped the call.
pub open spec fn spec_dispatch_outcome(
    m: Map<Seq<u8>, PuzzleView>,
    caller: Seq<u8>,
    selector: u32,
    payload: Seq<u8>,
) -> Result<OutputView, CallError> {
    match spec_resolve(selector) {
        Option::None => Err(CallError::UnknownOperation),
        Option::Some(Operation::SetPuzzle) => match spec_decode_puzzle(payload) {
            Some(_) => Ok(OutputView::Empty),
            None => Err(CallError::DecodeError),
        },
        Option::Some(Operation::GetPuzzleInfo) => match spec_decode_address(payload) {
            Some(a) => match spec_get_puzzle_info(m, a) {
                Ok(info) => Ok(OutputView::Info(info)),
                Err(e) => Err(e),
            },
            None => Err(CallError::DecodeError),
        },
        Option::Some(Operation::Challenge) => match spec_decode_challenge(payload) {
            Some(in_v) => match spec_challenge(m, in_v.0, in_v.1) {
                Ok(t) => Ok(OutputView::Masked(t)),
                Err(e) => Err(e),
            },
            None => Err(CallError::DecodeError),
        },
        Option::Some(Operation::Guess) => match spec_decode_guess(payload) {
            Some(in_v) => match spec_guess(m, in_v.0, in_v.1) {
                Ok(t) => Ok(OutputView::Reward(t)),
                Err(e) => Err(e),
            },
            None => Err(CallError::DecodeError),
        },
    }
}

/// Routes one incoming call: resolves the selector, decodes the payload,
/// and runs the operation. A failing call leaves the store unchanged.
pub fn dispatch(
    store: &mut PuzzleStore,
    caller: &Address,
    selector: u32,
    payload: &Vec<u8>,
) -> (r: Result<Output, CallError>)
    requires
        old(store).wf(),
        caller.wf(),
    ensures
        final(store).wf(),
        final(store)@ == spec_dispatch_state(old(store)@, caller@, selector, payload@),
        output_result_view(r) == spec_dispatch_outcome(old(store)@, caller@, selector, payload@),
{
    match resolve(selector) {
        Option::None => Err(CallError::UnknownOperation),
        Option::Some(Operation::SetPuzzle) => {
            match decode_puzzle(payload) {
                Ok(p) => {
                    set_puzzle(store, caller, p);
                    Ok(Output::Empty)
                },
                Err(e) => Err(e),
            }
        },
        Option::Some(Operation::GetPuzzleInfo) => {
            match decode_address(payload) {
                Ok(a) => {
                    match get_puzzle_info(&*store, &a) {
                        Ok(info) => Ok(Output::Info(info)),
                        Err(e) => Err(e),
                    }
                },
                Err(e) => Err(e),
            }
        },
        Option::Some(Operation::Challenge) => {
            match decode_challenge(payload) {
                Ok(in_v) => {
                    match challenge(&*store, &in_v.0, in_v.1) {
                        Ok(t) => Ok(Output::Masked(t)),
                        Err(e) => Err(e),
                    }
                },
                Err(e) => Err(e),
            }
        },
        Option::Some(Operation::Guess) => {
            match decode_guess(payload) {
                Ok(in_v) => {
                    match guess(&*store, &in_v.0, in_v.1) {
                        Ok(t) => Ok(Output::Reward(t)),
                        Err(e) => Err(e),
                    }
                },
                Err(e) => Err(e),
            }
        },
    }
}

/// Routes one incoming call and encodes what it returns.
pub fn handle_call(
    store: &mut PuzzleStore,
    caller: &Address,
    selector: u32,
    payload: &Vec<u8>,
) -> (r: Result<Vec<u8>, CallError>)
    requires
        old(store).wf(),
        caller.wf(),
    ensures
        final(store).wf(),
        final(store)@ == spec_dispatch_state(old(store)@, caller@, selector, payload@),
        match spec_dispatch_outcome(old(store)@, caller@, selector, payload@) {
            Ok(o) => r is Ok && r->Ok_0@ == spec_encode_output(o),
            Err(e) => r == Err::<Vec<u8>, CallError>(e),
        },
{
    match dispatch(store, caller, selector, payload) {
        Ok(o) => Ok(encode_output(&o)),
        Err(e) => Err(e),
    }
}

} // verus!
