//! The frame codec: `Content-Length: <n>\r\n\r\n<n bytes of body>`.
use vstd::prelude::*;
use vstd::slice::{slice_subrange, slice_to_vec};
use vstd::string::StringExecFns;
use vstd::utf8::{decode_utf8, encode_utf8, valid_utf8};

verus! {

broadcast use vstd::utf8::group_utf8_lib;

/// Why a frame could not be read.
#[derive(Clone, Copy, Debug, PartialEq, Eq, Structural)]
pub enum FrameError {
    /// The `Content-Length` header is missing, zero, or not a number.
    HeaderInvalid,
    /// The stream ended before the blank line that closes the header block.
    EndOfStream,
    /// The stream ended before the declared number of body bytes.
    Truncated,
    /// The body is not valid UTF-8.
    NotUtf8,
}

impl FrameError {
    /// A human-readable description of the error.
    pub fn message(&self) -> (r: String)
        ensures
            *self == FrameError::HeaderInvalid ==> r@ == "Content-Length: not defined or invalid."@,
            *self == FrameError::EndOfStream ==> r@ == "End of stream reached."@,
            *self == FrameError::Truncated ==> r@ == "Stream ended inside the message body."@,
            *self == FrameError::NotUtf8 ==> r@ == "Message body is not valid UTF-8."@,
    {
        let s = match self {
            FrameError::HeaderInvalid => "Content-Length: not defined or invalid.",
            FrameError::EndOfStream => "End of stream reached.",
            FrameError::Truncated => "Stream ended inside the message body.",
            FrameError::NotUtf8 => "Message body is not valid UTF-8.",
        };
        String::from_str(s)
    }
}

/// One message read from a stream: its body and how many bytes it took.
pub struct Frame {
    pub body: String,
    pub consumed: usize,
}

/// The bytes of the header name `Content-Length:`.
pub open spec fn length_header_name() -> Seq<u8> {
    seq![67u8, 111, 110, 116, 101, 110, 116, 45, 76, 101, 110, 103, 116, 104, 58]
}

pub open spec fn crlf() -> Seq<u8> {
    seq![13u8, 10]
}

pub open spec fn is_digit(b: u8) -> bool {
    48 <= b <= 57
}

/// ASCII whitespace: tab, line feed, vertical tab, form feed, carriage return, space.
pub open spec fn is_space(b: u8) -> bool {
    (9 <= b <= 13) || b == 32
}

/// The number of bytes of the whitespace character whose UTF-8 encoding
/// starts at `i`, or zero where none does. Whitespace is Unicode's
/// `White_Space`: the ASCII whitespace, U+0085, U+00A0, U+1680,
/// U+2000 to U+200A, U+2028, U+2029, U+202F, U+205F and U+3000.
pub open spec fn space_width(s: Seq<u8>, i: int) -> int {
    if !(0 <= i < s.len()) {
        0
    } else if is_space(s[i]) {
        1
    } else if i + 1 < s.len() && s[i] == 0xC2 && (s[i + 1] == 0x85 || s[i + 1] == 0xA0) {
        2
    } else if i + 2 < s.len() && ((s[i] == 0xE1 && s[i + 1] == 0x9A && s[i + 2] == 0x80) || (
    s[i] == 0xE2 && s[i + 1] == 0x80 && ((0x80 <= s[i + 2] <= 0x8A) || s[i + 2] == 0xA8
        || s[i + 2] == 0xA9 || s[i + 2] == 0xAF)) || (s[i] == 0xE2 && s[i + 1] == 0x81 && s[i
        + 2] == 0x9F) || (s[i] == 0xE3 && s[i + 1] == 0x80 && s[i + 2] == 0x80)) {
        3
    } else {
        0
    }
}

/// The decimal digits of `n`, most significant first, without leading zeros.
pub open spec fn decimal(n: nat) -> Seq<u8>
    decreases n,
{
    if n < 10 {
        seq![(48 + n) as u8]
    } else {
        decimal(n / 10).push((48 + n % 10) as u8)
    }
}

/// The number that a sequence of decimal digits denotes.
pub open spec fn digits_value(d: Seq<u8>) -> nat
    decreases d.len(),
{
    if d.len() == 0 {
        0
    } else {
        digits_value(d.drop_last()) * 10 + (d.last() - 48) as nat
    }
}

/// The header block that announces a body of `n` bytes.
pub open spec fn header_block(n: nat) -> Seq<u8> {
    length_header_name() + seq![32u8] + decimal(n) + crlf() + crlf()
}

/// A whole frame around `body`.
pub open spec fn frame(body: Seq<u8>) -> Seq<u8> {
    header_block(body.len()) + body
}

/// The end (exclusive) of the line that starts at `pos`: just past the next
/// line feed, or the end of the input where none follows.
pub open spec fn line_end(s: Seq<u8>, pos: int) -> int
    decreases s.len() - pos,
{
    if pos >= s.len() {
        pos
    } else if s[pos] == 10 {
        pos + 1
    } else {
        line_end(s, pos + 1)
    }
}

pub proof fn lemma_line_end_bounds(s: Seq<u8>, pos: int)
    requires
        0 <= pos < s.len(),
    ensures
        pos < line_end(s, pos) <= s.len(),
    decreases s.len() - pos,
{
    if s[pos] != 10 {
        if pos + 1 < s.len() {
            lemma_line_end_bounds(s, pos + 1);
        } else {
            assert(line_end(s, pos + 1) == pos + 1);
        }
    }
}

/// The first index at or after `i` that does not start a whitespace character.
pub open spec fn skip_spaces(s: Seq<u8>, i: int) -> int
    decreases s.len() - i,
{
    if space_width(s, i) > 0 {
        skip_spaces(s, i + space_width(s, i))
    } else {
        i
    }
}

/// The first index at or after `i` that does not hold a digit.
pub open spec fn skip_digits(s: Seq<u8>, i: int) -> int
    decreases s.len() - i,
{
    if 0 <= i < s.len() && is_digit(s[i]) {
        skip_digits(s, i + 1)
    } else {
        i
    }
}

/// The value after the header name: optional whitespace, an optional `+`,
/// one or more digits, optional whitespace, and a number that fits in 32 bits.
pub open spec fn length_value(v: Seq<u8>) -> Option<nat> {
    let a = skip_spaces(v, 0);
    let d = if a < v.len() && v[a] == 43 { a + 1 } else { a };
    let b = skip_digits(v, d);
    if d < b && skip_spaces(v, b) == v.len() && digits_value(v.subrange(d, b)) <= u32::MAX {
        Some(digits_value(v.subrange(d, b)))
    } else {
        None
    }
}

pub open spec fn is_length_line(line: Seq<u8>) -> bool {
    line.len() >= 15 && line.subrange(0, 15) == length_header_name()
}

/// Reads header lines from `pos` on, with `len` the length announced so far.
/// On reaching the blank line, gives the start of the body and the length
/// announced last (zero where none was).
pub open spec fn scan_headers(s: Seq<u8>, pos: int, len: nat) -> Result<(int, nat), FrameError>
    decreases s.len() - pos,
{
    if pos < 0 || pos >= s.len() {
        Err(FrameError::EndOfStream)
    } else {
        let e = line_end(s, pos);
        let line = s.subrange(pos, e);
        proof {
            lemma_line_end_bounds(s, pos);
        }
        if is_length_line(line) {
            match length_value(line.subrange(15, line.len() as int)) {
                Some(n) => scan_headers(s, e, n),
                None => Err(FrameError::HeaderInvalid),
            }
        } else if line == crlf() {
            Ok((e, len))
        } else {
            scan_headers(s, e, len)
        }
    }
}

/// What reading one frame from the start of `s` gives: the body bytes and
/// the number of bytes taken, or the error.
pub open spec fn read_frame(s: Seq<u8>) -> Result<(Seq<u8>, nat), FrameError> {
    match scan_headers(s, 0, 0) {
        Err(e) => Err(e),
        Ok((start, len)) => if len == 0 {
            Err(FrameError::HeaderInvalid)
        } else if start + len > s.len() {
            Err(FrameError::Truncated)
        } else {
            Ok((s.subrange(start, start + len), (start + len) as nat))
        },
    }
}

/// Appends the decimal digits of `n`.
fn push_decimal(n: usize, out: &mut Vec<u8>)
    ensures
        final(out)@ == old(out)@ + decimal(n as nat),
    decreases n,
{
    if n < 10 {
        out.push((48 + n) as u8);
        assert(final(out)@ =~= old(out)@ + decimal(n as nat));
    } else {
        push_decimal(n / 10, out);
        out.push((48 + n % 10) as u8);
        assert(final(out)@ =~= old(out)@ + decimal(n as nat));
    }
}

/// Appends the header block for a body of `n` bytes.
fn push_header_block(n: usize, out: &mut Vec<u8>)
    ensures
        final(out)@ == old(out)@ + header_block(n as nat),
{
    let name: Vec<u8> = vec![67u8, 111, 110, 116, 101, 110, 116, 45, 76, 101, 110, 103, 116, 104, 58];
    out.extend_from_slice(name.as_slice());
    out.push(32u8);
    push_decimal(n, out);
    out.push(13u8);
    out.push(10u8);
    out.push(13u8);
    out.push(10u8);
    assert(name@ =~= length_header_name());
    assert(final(out)@ =~= old(out)@ + header_block(n as nat));
}

/// Appends one framed message with the bytes `body` as its body.
fn push_frame(body: &[u8], out: &mut Vec<u8>)
    ensures
        final(out)@ == old(out)@ + frame(body@),
{
    push_header_block(body.len(), out);
    out.extend_from_slice(body);
    assert(final(out)@ =~= old(out)@ + frame(body@));
}

/// Appends one framed request that calls `method` with identifier `id` and
/// the JSON text `message` as its parameters.
pub fn write_method_message(method: &str, id: usize, message: &str, out: &mut Vec<u8>)
    ensures
        final(out)@ == old(out)@ + frame(
            method_call_body(encode_utf8(method@), id as nat, encode_utf8(message@)),
        ),
{
    let mut body: Vec<u8> = vec![123u8, 34, 106, 115, 111, 110, 114, 112, 99, 34, 58, 32, 34, 50, 46, 48, 34, 44, 32, 34, 109, 101, 116, 104, 111, 100, 34, 58, 32, 34];
    assert(body@ =~= call_opening());
    body.extend_from_slice(method.as_bytes());
    let label: Vec<u8> = vec![34u8, 44, 32, 34, 105, 100, 34, 58, 32];
    assert(label@ =~= call_id_label());
    body.extend_from_slice(label.as_slice());
    push_decimal(id, &mut body);
    let label: Vec<u8> = vec![44u8, 32, 34, 112, 97, 114, 97, 109, 115, 34, 58, 32];
    assert(label@ =~= call_params_label());
    body.extend_from_slice(label.as_slice());
    body.extend_from_slice(message.as_bytes());
    body.push(125u8);
    assert(body@ =~= method_call_body(encode_utf8(method@), id as nat, encode_utf8(message@)));
    push_frame(body.as_slice(), out);
}

/// Appends one framed message with `message` as its body: the header name, a
/// space, the body's length in bytes in decimal, a blank line, and the body.
pub fn write_transport_message(message: &str, out: &mut Vec<u8>)
    ensures
        final(out)@ == old(out)@ + frame(encode_utf8(message@)),
{
    push_frame(message.as_bytes(), out);
}

proof fn lemma_decimal(n: nat)
    ensures
        decimal(n).len() >= 1,
        forall|i: int| 0 <= i < decimal(n).len() ==> is_digit(#[trigger] decimal(n)[i]),
        digits_value(decimal(n)) == n,
    decreases n,
{
    if n >= 10 {
        lemma_decimal(n / 10);
        assert(decimal(n).drop_last() =~= decimal(n / 10));
        assert(decimal(n).last() == (48 + n % 10) as u8);
        assert(digits_value(decimal(n)) == (n / 10) * 10 + n % 10);
    } else {
        assert(decimal(n).drop_last() =~= Seq::<u8>::empty());
        assert(digits_value(Seq::<u8>::empty()) == 0);
    }
}

proof fn lemma_line_end_at(s: Seq<u8>, pos: int, k: int)
    requires
        0 <= pos <= k < s.len(),
        s[k] == 10,
        forall|i: int| pos <= i < k ==> s[i] != 10,
    ensures
        line_end(s, pos) == k + 1,
    decreases k - pos,
{
    if pos < k {
        lemma_line_end_at(s, pos + 1, k);
    }
}

proof fn lemma_skip_digits_to(s: Seq<u8>, i: int, k: int)
    requires
        0 <= i <= k <= s.len(),
        forall|j: int| i <= j < k ==> is_digit(s[j]),
        k < s.len() ==> !is_digit(s[k]),
    ensures
        skip_digits(s, i) == k,
    decreases k - i,
{
    if i < k {
        lemma_skip_digits_to(s, i + 1, k);
    }
}

proof fn lemma_skip_spaces_to(s: Seq<u8>, i: int, k: int)
    requires
        0 <= i <= k <= s.len(),
        forall|j: int| i <= j < k ==> is_space(s[j]),
        space_width(s, k) == 0,
    ensures
        skip_spaces(s, i) == k,
    decreases k - i,
{
    if i < k {
        lemma_skip_spaces_to(s, i + 1, k);
    }
}

/// The value part of the length line is read back as `n`.
proof fn lemma_length_value_of_decimal(n: nat)
    requires
        n <= u32::MAX,
    ensures
        length_value(seq![32u8] + decimal(n) + crlf()) == Some(n),
{
    let d = decimal(n);
    let l = d.len() as int;
    let v = seq![32u8] + d + crlf();
    lemma_decimal(n);
    lemma_skip_spaces_to(v, 0, 1);
    assert forall|j: int| 1 <= j < 1 + l implies is_digit(v[j]) by {
        assert(v[j] == d[j - 1]);
    }
    lemma_skip_digits_to(v, 1, 1 + l);
    lemma_skip_spaces_to(v, 1 + l, 3 + l);
    assert(v.subrange(1, 1 + l) =~= d);
}

/// The header block that announces `n` bytes is read back as announcing `n`,
/// whatever follows it.
proof fn lemma_scan_header_block(n: nat, tail: Seq<u8>)
    requires
        n <= u32::MAX,
    ensures
        scan_headers(header_block(n) + tail, 0, 0) == Ok::<(int, nat), FrameError>(
            (header_block(n).len() as int, n),
        ),
{
    let d = decimal(n);
    let l = d.len() as int;
    let first = length_header_name() + seq![32u8] + d + crlf();
    let s = header_block(n) + tail;
    lemma_decimal(n);
    assert(s =~= first + (crlf() + tail));
    assert(first.len() == 18 + l);
    assert forall|i: int| 0 <= i < 17 + l implies s[i] != 10 by {
        assert(s[i] == first[i]);
        if 16 <= i < 16 + l {
            assert(first[i] == d[i - 16]);
        }
    }
    lemma_line_end_at(s, 0, 17 + l);
    let line = s.subrange(0, 18 + l);
    assert(line =~= first);
    assert(line.subrange(0, 15) =~= length_header_name());
    assert(line.subrange(15, line.len() as int) =~= seq![32u8] + d + crlf());
    lemma_length_value_of_decimal(n);
    lemma_line_end_at(s, 18 + l, 19 + l);
    assert(s.subrange(18 + l, 20 + l) =~= crlf());
    assert(scan_headers(s, 18 + l, n) == Ok::<(int, nat), FrameError>((20 + l, n)));
}

/// Writing a non-empty text as a frame and reading the stream back gives the
/// same text, and takes exactly the bytes of that frame, whatever follows it.
pub proof fn lemma_frame_round_trip(text: Seq<char>, rest: Seq<u8>)
    requires
        text.len() > 0,
        encode_utf8(text).len() <= u32::MAX,
    ensures
        read_frame(frame(encode_utf8(text)) + rest) matches Ok((body, n)) && valid_utf8(body)
            && decode_utf8(body) == text && n == frame(encode_utf8(text)).len(),
{
    let b = encode_utf8(text);
    let h = header_block(b.len());
    lemma_scan_header_block(b.len(), b + rest);
    assert(frame(b) + rest =~= h + (b + rest));
    assert((frame(b) + rest).subrange(h.len() as int, (h.len() + b.len()) as int) =~= b);
}

/// A stream that ends before the announced number of body bytes is rejected
/// as truncated, never read as a shorter message.
pub proof fn lemma_short_body_rejected(n: nat, body: Seq<u8>)
    requires
        body.len() < n <= u32::MAX,
    ensures
        read_frame(header_block(n) + body) == Err::<(Seq<u8>, nat), FrameError>(
            FrameError::Truncated,
        ),
{
    lemma_scan_header_block(n, body);
}

/// A header block that is only the blank line announces no length, and is
/// rejected as invalid.
pub proof fn lemma_missing_length_rejected(rest: Seq<u8>)
    ensures
        read_frame(crlf() + rest) == Err::<(Seq<u8>, nat), FrameError>(FrameError::HeaderInvalid),
{
    let s = crlf() + rest;
    lemma_line_end_at(s, 0, 1);
    assert(s.subrange(0, 2) =~= crlf());
}

/// A length of zero is never a valid message.
pub proof fn lemma_zero_length_rejected(rest: Seq<u8>)
    ensures
        read_frame(header_block(0) + rest) == Err::<(Seq<u8>, nat), FrameError>(
            FrameError::HeaderInvalid,
        ),
{
    lemma_scan_header_block(0, rest);
}

/// `{"jsonrpc": "2.0", "method": "`
pub open spec fn call_opening() -> Seq<u8> {
    seq![123u8, 34, 106, 115, 111, 110, 114, 112, 99, 34, 58, 32, 34, 50, 46, 48, 34, 44, 32, 34, 109, 101, 116, 104, 111, 100, 34, 58, 32, 34]
}

/// `", "id": `
pub open spec fn call_id_label() -> Seq<u8> {
    seq![34u8, 44, 32, 34, 105, 100, 34, 58, 32]
}

/// `, "params": `
pub open spec fn call_params_label() -> Seq<u8> {
    seq![44u8, 32, 34, 112, 97, 114, 97, 109, 115, 34, 58, 32]
}

/// The JSON-RPC request that calls `method` with identifier `id` and the
/// JSON text `params` as its parameters. The method name is written as it is.
pub open spec fn method_call_body(method: Seq<u8>, id: nat, params: Seq<u8>) -> Seq<u8> {
    call_opening() + method + call_id_label() + decimal(id) + call_params_label() + params
        + seq![125u8]
}

/// Finds `line_end(s, pos)`.
fn find_line_end(s: &[u8], pos: usize) -> (e: usize)
    requires
        pos < s@.len(),
    ensures
        e == line_end(s@, pos as int),
{
    let mut j: usize = pos;
    while j < s.len()
        invariant
            pos <= j <= s@.len(),
            line_end(s@, j as int) == line_end(s@, pos as int),
        decreases s@.len() - j,
    {
        if s[j] == 10 {
            return j + 1;
        }
        j = j + 1;
    }
    j
}

/// Finds `space_width(v, j)`.
fn space_width_at(v: &[u8], j: usize) -> (r: usize)
    requires
        j <= v@.len(),
    ensures
        r == space_width(v@, j as int),
        r <= v@.len() - j,
{
    let n = v.len();
    if j >= n {
        return 0;
    }
    let b = v[j];
    if 9 <= b && b <= 13 || b == 32 {
        1
    } else if n - j > 1 && b == 0xC2 && (v[j + 1] == 0x85 || v[j + 1] == 0xA0) {
        2
    } else if n - j > 2 {
        let (c, d) = (v[j + 1], v[j + 2]);
        if b == 0xE1 && c == 0x9A && d == 0x80 || b == 0xE2 && c == 0x80 && (0x80 <= d && d
            <= 0x8A || d == 0xA8 || d == 0xA9 || d == 0xAF) || b == 0xE2 && c == 0x81 && d
            == 0x9F || b == 0xE3 && c == 0x80 && d == 0x80 {
            3
        } else {
            0
        }
    } else {
        0
    }
}

/// Finds `skip_spaces(v, i)`.
fn find_non_space(v: &[u8], i: usize) -> (r: usize)
    requires
        i <= v@.len(),
    ensures
        r == skip_spaces(v@, i as int),
        i <= r <= v@.len(),
{
    let n = v.len();
    let mut j: usize = i;
    loop
        invariant
            n == v@.len(),
            i <= j <= v@.len(),
            skip_spaces(v@, j as int) == skip_spaces(v@, i as int),
        decreases v@.len() - j,
    {
        let w = space_width_at(v, j);
        if w == 0 {
            return j;
        }
        j = j + w;
    }
}

/// Reads the value of a `Content-Length` header: `length_value`.
fn parse_length_value(v: &[u8]) -> (r: Option<u32>)
    ensures
        match length_value(v@) {
            Some(n) => r == Some(n as u32),
            None => r is None,
        },
{
    let a = find_non_space(v, 0);
    let d: usize = if a < v.len() && v[a] == 43 { a + 1 } else { a };
    let mut j: usize = d;
    let mut acc: u64 = 0;
    let mut big = false;
    while j < v.len() && 48 <= v[j] && v[j] <= 57
        invariant
            d <= j <= v@.len(),
            skip_digits(v@, j as int) == skip_digits(v@, d as int),
            big <==> digits_value(v@.subrange(d as int, j as int)) > u32::MAX,
            !big ==> acc == digits_value(v@.subrange(d as int, j as int)),
        decreases v@.len() - j,
    {
        let ghost before = digits_value(v@.subrange(d as int, j as int));
        let dig = (v[j] - 48) as u64;
        assert(v@.subrange(d as int, j + 1).drop_last() =~= v@.subrange(d as int, j as int));
        assert(digits_value(v@.subrange(d as int, j + 1)) == before * 10 + dig);
        if !big {
            let next = acc * 10 + dig;
            if next > 4294967295 {
                big = true;
            } else {
                acc = next;
            }
        } else {
            assert(before * 10 + dig > u32::MAX) by (nonlinear_arith)
                requires
                    before > u32::MAX,
            ;
        }
        j = j + 1;
    }
    let b = j;
    let c = find_non_space(v, b);
    if d < b && c == v.len() && !big {
        Some(acc as u32)
    } else {
        None
    }
}

/// Whether the line `s[pos..e]` starts with the header name.
fn starts_with_length_name(s: &[u8], pos: usize, e: usize) -> (r: bool)
    requires
        pos <= e <= s@.len(),
    ensures
        r == is_length_line(s@.subrange(pos as int, e as int)),
{
    let name: Vec<u8> = vec![67u8, 111, 110, 116, 101, 110, 116, 45, 76, 101, 110, 103, 116, 104, 58];
    assert(name@ =~= length_header_name());
    if e - pos < 15 {
        return false;
    }
    let mut i: usize = 0;
    while i < 15
        invariant
            0 <= i <= 15,
            pos + 15 <= e <= s@.len(),
            name@ == length_header_name(),
            forall|k: int| 0 <= k < i ==> s@[pos + k] == name@[k],
        decreases 15 - i,
    {
        if s[pos + i] != name[i] {
            assert(s@.subrange(pos as int, e as int).subrange(0, 15)[i as int] != name@[i as int]);
            return false;
        }
        i = i + 1;
    }
    assert(s@.subrange(pos as int, e as int).subrange(0, 15) =~= length_header_name());
    true
}

/// Decodes UTF-8 bytes into a string.
///
/// Relies on `String::from_utf8`, which fails exactly on bytes that are not
/// valid UTF-8 and otherwise holds the characters they encode.
#[verifier::external_body]
fn utf8_string(bytes: Vec<u8>) -> (r: Option<String>)
    ensures
        match r {
            Some(t) => valid_utf8(bytes@) && t@ == decode_utf8(bytes@),
            None => !valid_utf8(bytes@),
        },
{
    String::from_utf8(bytes).ok()
}

/// What one header line does to the reading of a frame.
#[derive(Clone, Copy, Debug, PartialEq, Eq, Structural)]
pub enum HeaderStep {
    /// Read the next header line; the length announced so far is this.
    Continue(u32),
    /// The header block is over: read this many body bytes.
    Body(u32),
    /// The frame is rejected.
    Fail(FrameError),
}

/// The step that the header line `line` (with its line feed, if any) takes
/// when `len` is the length announced so far; an empty line is the end of
/// the stream.
pub open spec fn header_step(len: u32, line: Seq<u8>) -> HeaderStep {
    if line.len() == 0 {
        HeaderStep::Fail(FrameError::EndOfStream)
    } else if is_length_line(line) {
        match length_value(line.subrange(15, line.len() as int)) {
            Some(n) => HeaderStep::Continue(n as u32),
            None => HeaderStep::Fail(FrameError::HeaderInvalid),
        }
    } else if line == crlf() {
        if len == 0 {
            HeaderStep::Fail(FrameError::HeaderInvalid)
        } else {
            HeaderStep::Body(len)
        }
    } else {
        HeaderStep::Continue(len)
    }
}

/// Takes one header line of a frame being read from a stream.
pub fn next_header(len: u32, line: &[u8]) -> (r: HeaderStep)
    ensures
        r == header_step(len, line@),
{
    if line.len() == 0 {
        return HeaderStep::Fail(FrameError::EndOfStream);
    }
    if starts_with_length_name(line, 0, line.len()) {
        assert(line@.subrange(0, line@.len() as int) =~= line@);
        let rest = slice_subrange(line, 15, line.len());
        match parse_length_value(rest) {
            Some(n) => HeaderStep::Continue(n),
            None => HeaderStep::Fail(FrameError::HeaderInvalid),
        }
    } else {
        assert(line@.subrange(0, line@.len() as int) =~= line@);
        if line.len() == 2 && line[0] == 13 && line[1] == 10 {
            assert(line@ =~= crlf());
            if len == 0 {
                HeaderStep::Fail(FrameError::HeaderInvalid)
            } else {
                HeaderStep::Body(len)
            }
        } else {
            assert(line@ != crlf()) by {
                if line@ == crlf() {
                    assert(line@.len() == 2 && line@[0] == 13 && line@[1] == 10);
                }
            }
            HeaderStep::Continue(len)
        }
    }
}

/// Decodes the body bytes of a frame.
pub fn decode_body(bytes: Vec<u8>) -> (r: Result<String, FrameError>)
    ensures
        valid_utf8(bytes@) ==> (r matches Ok(t) && t@ == decode_utf8(bytes@)),
        !valid_utf8(bytes@) ==> r == Err::<String, FrameError>(FrameError::NotUtf8),
{
    match utf8_string(bytes) {
        Some(text) => Ok(text),
        None => Err(FrameError::NotUtf8),
    }
}

/// Reads one framed message from the start of `input`.
///
/// Header lines end with a line feed; any line other than a `Content-Length`
/// header and the blank line `\r\n` is ignored, and where the header comes
/// twice the later value counts. A missing, zero or malformed length is
/// `HeaderInvalid`; input that ends before the blank line is `EndOfStream`;
/// fewer body bytes than announced is `Truncated`.
pub fn parse_transport_message(input: &[u8]) -> (r: Result<Frame, FrameError>)
    ensures
        match read_frame(input@) {
            Err(e) => r == Err::<Frame, FrameError>(e),
            Ok((body, n)) => if valid_utf8(body) {
                r matches Ok(f) && f.body@ == decode_utf8(body) && f.consumed == n
            } else {
                r == Err::<Frame, FrameError>(FrameError::NotUtf8)
            },
        },
{
    let mut pos: usize = 0;
    let mut len: u32 = 0;
    loop
        invariant
            pos <= input@.len(),
            scan_headers(input@, pos as int, len as nat) == scan_headers(input@, 0, 0),
        decreases input@.len() - pos,
    {
        if pos >= input.len() {
            return Err(FrameError::EndOfStream);
        }
        let e = find_line_end(input, pos);
        proof {
            lemma_line_end_bounds(input@, pos as int);
        }
        let line = slice_subrange(input, pos, e);
        match next_header(len, line) {
            HeaderStep::Continue(n) => {
                len = n;
            },
            HeaderStep::Fail(err) => {
                return Err(err);
            },
            HeaderStep::Body(n) => {
                let size = n as usize;
                if size > input.len() - e {
                    return Err(FrameError::Truncated);
                }
                let body = slice_to_vec(slice_subrange(input, e, e + size));
                return match decode_body(body) {
                    Ok(text) => Ok(Frame { body: text, consumed: e + size }),
                    Err(err) => Err(err),
                };
            },
        }
        pos = e;
    }
}

} // verus!
