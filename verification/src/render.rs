//! Bounded, human-readable rendering of byte values.

use vstd::prelude::*;

verus! {

use vstd::utf8::{valid_utf8, decode_utf8};
use crate::classify::{is_valid_utf8, decode_valid_utf8};

/// Marker appended to a rendering whose input was truncated to the budget.
pub const TRUNCATION_MARK: char = '…';

/// The printable one-character image of a byte: ASCII graphic bytes stand for
/// themselves, every other byte is shown as `.`.
pub open spec fn ascii_char(b: u8) -> char {
    if 0x21 <= b <= 0x7e {
        b as char
    } else {
        '.'
    }
}

/// Byte-wise printable image of a whole sequence.
pub open spec fn ascii_of(v: Seq<u8>) -> Seq<char> {
    v.map(|_i: int, b: u8| ascii_char(b))
}

/// The printable one-character image of a byte.
pub fn format_ascii_u8(v: u8) -> (c: char)
    ensures
        c == ascii_char(v),
{
    if 0x21 <= v && v <= 0x7e {
        v as char
    } else {
        '.'
    }
}

/// Relies on `String::push`: it appends exactly one character.
#[verifier::external_body]
pub(crate) fn push_char(s: &mut String, c: char)
    ensures
        final(s)@ == old(s)@.push(c),
{
    s.push(c);
}

/// Render every byte of `val` as its printable one-character image.
pub fn format_ascii(val: &[u8]) -> (r: String)
    ensures
        r@ == ascii_of(val@),
{
    let mut result = String::new();
    let len = val.len();
    for i in 0..len
        invariant
            len == val@.len(),
            result@ =~= ascii_of(val@.take(i as int)),
    {
        push_char(&mut result, format_ascii_u8(val[i]));
        assert(result@ =~= ascii_of(val@.take(i + 1)));
    }
    assert(val@.take(len as int) =~= val@);
    result
}

/// How a value is to be shown, with the truncation budget in bytes where one
/// applies.
#[derive(Clone, Copy, PartialEq, Eq, Structural, Debug)]
pub enum DisplayMode {
    /// Decoded text if the retained prefix is valid UTF-8, else byte images.
    Plain(usize),
    /// Pretty-printed JSON of the whole value; never truncated.
    Json,
    /// Fixed-width hex dump of the retained prefix.
    Hex(usize),
}

/// The one recoverable rendering failure: `Json` mode on a value that is not
/// UTF-8 text or does not parse as JSON.
#[derive(Clone, Copy, PartialEq, Eq, Structural, Debug)]
pub enum RenderError {
    NotJson,
}

/// Append the truncation marker when the input was cut.
pub open spec fn with_mark(s: Seq<char>, cut: bool) -> Seq<char> {
    if cut {
        s.push(TRUNCATION_MARK)
    } else {
        s
    }
}

/// The byte prefix retained under a truncation budget of `n` bytes.
pub open spec fn retained(v: Seq<u8>, n: int) -> Seq<u8> {
    if v.len() > n {
        v.take(n)
    } else {
        v
    }
}

/// The rendering of `v` under `Plain(n)`: the retained prefix, decoded when it
/// is valid UTF-8 and shown byte by byte otherwise, with the truncation marker
/// appended when bytes were dropped.
pub open spec fn plain_rendering(v: Seq<u8>, n: int) -> Seq<char> {
    let p = retained(v, n);
    if valid_utf8(p) {
        with_mark(decode_utf8(p), v.len() > n)
    } else {
        with_mark(ascii_of(p), v.len() > n)
    }
}

/// The rendering of `v` under `Hex(n)`: the hex dump of the retained prefix,
/// with the truncation marker appended when bytes were dropped.
pub open spec fn hex_rendering(v: Seq<u8>, n: int) -> Seq<char> {
    with_mark(crate::hex::hex_dump(retained(v, n)), v.len() > n)
}

/// What `formatjson::format_json` returns on a given string: `Some` with the
/// pretty-printed form when the input is acceptable JSON, `None` otherwise.
/// The outcome depends on the input characters alone.
pub uninterp spec fn json_formatted(s: Seq<char>) -> Option<Seq<char>>;

/// Relies on `formatjson::format_json`: it pretty-prints its input when that
/// tokenizes as JSON and fails otherwise, deciding by the input alone.
#[verifier::external_body]
fn format_json_call(s: &str) -> (r: Option<String>)
    ensures
        r is Some <==> json_formatted(s@) is Some,
        r is Some ==> r->0@ == json_formatted(s@)->0,
{
    formatjson::format_json(s).ok()
}

/// Law: the length of a plain rendering, not counting the truncation marker,
/// never exceeds the byte budget when the retained prefix is a blob, and is
/// exactly the decoded length of the retained prefix when it is text.
pub proof fn lemma_plain_rendering_len(v: Seq<u8>, n: int)
    requires
        n >= 0,
    ensures
        plain_rendering(v, n).len() == (if valid_utf8(retained(v, n)) {
            decode_utf8(retained(v, n)).len() as int
        } else {
            retained(v, n).len() as int
        }) + (if v.len() > n {
            1int
        } else {
            0int
        }),
        !valid_utf8(retained(v, n)) ==> plain_rendering(v, n).len() - (if v.len() > n {
            1int
        } else {
            0int
        }) <= n,
{
}

/// Law: a text value within the budget renders exactly as its decoded
/// characters, with no truncation marker.
pub proof fn lemma_plain_text_round_trip(v: Seq<u8>, n: int)
    requires
        valid_utf8(v),
        v.len() <= n,
    ensures
        plain_rendering(v, n) == decode_utf8(v),
{
}

/// Law: a blob within the budget renders as the one-character image of each
/// of its bytes, in order, with no truncation marker.
pub proof fn lemma_plain_blob_bytewise(v: Seq<u8>, n: int)
    requires
        !valid_utf8(v),
        v.len() <= n,
    ensures
        plain_rendering(v, n) == ascii_of(v),
        plain_rendering(v, n).len() == v.len(),
{
}

/// Everything rendering says about its result: `Plain` and `Hex` always
/// succeed with the marked rendering of the retained prefix; `Json` succeeds
/// with the pretty-printed form exactly when the whole value is UTF-8 text
/// that `formatjson` accepts, and fails with `NotJson` otherwise.
pub open spec fn render_post(v: Seq<u8>, mode: DisplayMode, r: Result<String, RenderError>) -> bool {
    match mode {
        DisplayMode::Plain(n) => r is Ok && r->Ok_0@ == plain_rendering(v, n as int),
        DisplayMode::Hex(n) => r is Ok && r->Ok_0@ == hex_rendering(v, n as int),
        DisplayMode::Json => {
            &&& (r is Ok <==> valid_utf8(v) && json_formatted(decode_utf8(v)) is Some)
            &&& (r is Ok ==> r->Ok_0@ == json_formatted(decode_utf8(v))->0)
            &&& (r is Err ==> r->Err_0 == RenderError::NotJson)
        },
    }
}

/// Render a byte value under the given mode.
///
/// `Plain` and `Hex` are total: they truncate to the budget, render the
/// retained prefix, and mark the cut. `Json` uses the whole value and fails
/// with `NotJson` exactly when the value is not UTF-8 text whose content
/// `formatjson` accepts.
pub fn render(val: &[u8], mode: DisplayMode) -> (r: Result<String, RenderError>)
    ensures
        render_post(val@, mode, r),
{
    match mode {
        DisplayMode::Plain(n) => {
            let cut = val.len() > n;
            let p: &[u8] = if cut {
                vstd::slice::slice_subrange(val, 0, n)
            } else {
                val
            };
            assert(p@ == retained(val@, n as int));
            let mut out = if is_valid_utf8(p) {
                decode_valid_utf8(p).to_owned()
            } else {
                format_ascii(p)
            };
            if cut {
                push_char(&mut out, TRUNCATION_MARK);
            }
            Ok(out)
        },
        DisplayMode::Hex(n) => {
            let cut = val.len() > n;
            let p: &[u8] = if cut {
                vstd::slice::slice_subrange(val, 0, n)
            } else {
                val
            };
            assert(p@ == retained(val@, n as int));
            let mut out = crate::hex::format_hex_ascii(p);
            if cut {
                push_char(&mut out, TRUNCATION_MARK);
            }
            Ok(out)
        },
        DisplayMode::Json => {
            if is_valid_utf8(val) {
                match format_json_call(decode_valid_utf8(val)) {
                    Some(out) => Ok(out),
                    None => Err(RenderError::NotJson),
                }
            } else {
                Err(RenderError::NotJson)
            }
        },
    }
}

} // verus!
