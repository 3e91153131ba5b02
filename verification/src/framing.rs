//! Language Server Protocol message framing: a `Content-Length` header block,
//! a blank line, then exactly that many bytes of body.
use vstd::prelude::*;
use vstd::slice::slice_to_vec;
use vstd::utf8::{decode_utf8, encode_utf8, encode_utf8_decode_utf8, valid_utf8};

use crate::number::{
    ascii_bytes, decimal, is_digit, lemma_decimal, lemma_parse_decimal, parse_usize,
    parse_usize_chars, push_decimal,
};
use crate::text::{
    chars_start_with, is_whitespace, strip_prefix, to_chars, trim, trim_bounds, trim_end,
    trim_start,
};

verus! {

/// What the reader of a message does after looking at one header line.
#[derive(PartialEq, Eq, Structural, Clone, Copy, Debug)]
pub enum ReadStep {
    /// Read the next header line.
    NextLine,
    /// The header block is over: read exactly this many bytes of body.
    ReadBody(usize),
    /// Give up: end of input, an unreadable line, or no usable `Content-Length`.
    Stop,
}

/// The header that announces the body's length.
pub open spec fn content_length_header() -> Seq<char> {
    "Content-Length: "@
}

/// The `Content-Length` known after a non-blank (already trimmed) header line:
/// a `Content-Length: ` line replaces it with what its value parses to (nothing,
/// when that value is not a number); any other line leaves it as it was.
pub open spec fn next_content_length(known: Option<usize>, trimmed: Seq<char>) -> Option<usize> {
    match strip_prefix(trimmed, content_length_header()) {
        Some(value) => parse_usize(trim(value)),
        None => known,
    }
}

/// The step taken on one header line, and the `Content-Length` known after it.
/// A line that is blank once trimmed ends the header block.
pub open spec fn header_step(known: Option<usize>, line: Seq<char>) -> (ReadStep, Option<usize>) {
    let t = trim(line);
    if t.len() == 0 {
        (
            match known {
                Some(n) => ReadStep::ReadBody(n),
                None => ReadStep::Stop,
            },
            known,
        )
    } else {
        (ReadStep::NextLine, next_content_length(known, t))
    }
}

/// The position just past the line that starts at `pos`: past its `\n`, or the
/// end of the input when there is none (what `read_line` consumes).
pub open spec fn line_end(input: Seq<u8>, pos: int) -> int
    decreases input.len() - pos,
{
    if pos >= input.len() {
        input.len() as int
    } else if input[pos] == 10 {
        pos + 1
    } else {
        line_end(input, pos + 1)
    }
}

pub proof fn lemma_line_end_bounds(input: Seq<u8>, pos: int)
    requires
        0 <= pos < input.len(),
    ensures
        pos < line_end(input, pos) <= input.len(),
    decreases input.len() - pos,
{
    if input[pos] != 10 {
        if pos + 1 < input.len() {
            lemma_line_end_bounds(input, pos + 1);
        } else {
            assert(line_end(input, pos + 1) == input.len());
        }
    }
}

/// Reads header lines from `pos` on: the body length and the position of the
/// body, or `None` when the input ends first, a line is not UTF-8, or the block
/// ends without a usable `Content-Length`.
pub open spec fn read_headers(input: Seq<u8>, pos: int, known: Option<usize>) -> Option<(usize, int)>
    decreases input.len() - pos,
{
    if pos < 0 || pos >= input.len() {
        None
    } else {
        let end = line_end(input, pos);
        let line = input.subrange(pos, end);
        if !valid_utf8(line) {
            None
        } else {
            let (step, next) = header_step(known, decode_utf8(line));
            match step {
                ReadStep::Stop => None,
                ReadStep::ReadBody(n) => Some((n, end)),
                ReadStep::NextLine => {
                    proof {
                        lemma_line_end_bounds(input, pos);
                    }
                    read_headers(input, end, next)
                },
            }
        }
    }
}

/// The text of a body: its UTF-8 decoding, or nothing when it is not UTF-8.
pub open spec fn body_text(body: Seq<u8>) -> Seq<char> {
    if valid_utf8(body) {
        decode_utf8(body)
    } else {
        Seq::empty()
    }
}

/// One message read from the front of `input`: its body text and the number of
/// bytes it took, or `None` when no complete message stands there.
pub open spec fn read_frame(input: Seq<u8>) -> Option<(Seq<char>, int)> {
    match read_headers(input, 0, None) {
        None => None,
        Some((n, start)) => if start + n > input.len() {
            None
        } else {
            Some((body_text(input.subrange(start, start + n)), start + n))
        },
    }
}

/// Reads the header lines of one message, one line at a time.
pub struct MessageReader {
    /// The body length announced so far.
    pub content_length: Option<usize>,
}

impl MessageReader {
    pub fn new() -> (r: MessageReader)
        ensures
            r.content_length is None,
    {
        MessageReader { content_length: None }
    }

    /// Takes the next header line as `read_line` gave it, or `None` at the end of
    /// the input (or when the line could not be read), and says what to do next.
    pub fn on_line(&mut self, line: Option<&str>) -> (step: ReadStep)
        ensures
            match line {
                None => step == ReadStep::Stop && final(self).content_length == old(
                    self,
                ).content_length,
                Some(l) => (step, final(self).content_length) == header_step(
                    old(self).content_length,
                    l@,
                ),
            },
    {
        match line {
            None => ReadStep::Stop,
            Some(l) => {
                let chars = to_chars(l);
                let (a, b) = trim_bounds(chars.as_slice());
                let t = &chars.as_slice()[a..b];
                if a == b {
                    match self.content_length {
                        Some(n) => ReadStep::ReadBody(n),
                        None => ReadStep::Stop,
                    }
                } else {
                    let header = to_chars("Content-Length: ");
                    if chars_start_with(t, header.as_slice()) {
                        let rest = &t[header.len()..t.len()];
                        let (c, d) = trim_bounds(rest);
                        let value = &rest[c..d];
                        self.content_length = parse_usize_chars(value);
                    }
                    ReadStep::NextLine
                }
            },
        }
    }
}

/// `String::from_utf8`: `Some` exactly when the bytes are valid UTF-8, and then
/// a string whose UTF-8 encoding is those bytes.
#[verifier::external_body]
fn string_from_utf8(bytes: Vec<u8>) -> (res: Option<String>)
    ensures
        res is Some <==> valid_utf8(bytes@),
        res matches Some(s) ==> encode_utf8(s@) == bytes@,
{
    String::from_utf8(bytes).ok()
}

/// The text of a message body: its UTF-8 decoding, or the empty string when the
/// bytes are not UTF-8.
pub fn decode_body(bytes: Vec<u8>) -> (s: String)
    ensures
        s@ == body_text(bytes@),
{
    let ghost b = bytes@;
    match string_from_utf8(bytes) {
        Some(s) => {
            proof {
                encode_utf8_decode_utf8(s@);
            }
            s
        },
        None => String::new(),
    }
}

/// The end of the line that starts at `pos`.
fn find_line_end(input: &[u8], pos: usize) -> (end: usize)
    requires
        pos < input@.len(),
    ensures
        end as int == line_end(input@, pos as int),
        pos < end <= input@.len(),
{
    let mut i = pos;
    while i < input.len() && input[i] != 10u8
        invariant
            pos <= i <= input@.len(),
            line_end(input@, pos as int) == line_end(input@, i as int),
        decreases input@.len() - i,
    {
        i = i + 1;
    }
    if i < input.len() {
        i + 1
    } else {
        i
    }
}

/// Reads one message from the front of `input`: the body's text and the number
/// of bytes the message took.
pub fn read_message(input: &[u8]) -> (r: Option<(String, usize)>)
    ensures
        match r {
            None => read_frame(input@) is None,
            Some((text, used)) => read_frame(input@) == Some((text@, used as int)),
        },
{
    let mut reader = MessageReader::new();
    let mut pos: usize = 0;
    let mut n: usize = 0;
    loop
        invariant_except_break
            pos <= input@.len(),
            read_headers(input@, 0, None) == read_headers(
                input@,
                pos as int,
                reader.content_length,
            ),
        ensures
            pos <= input@.len(),
            read_headers(input@, 0, None) == Some((n, pos as int)),
        decreases input@.len() - pos,
    {
        if pos >= input.len() {
            return None;
        }
        let end = find_line_end(input, pos);
        let line_bytes = slice_to_vec(&input[pos..end]);
        let line = match string_from_utf8(line_bytes) {
            Some(line) => line,
            None => {
                return None;
            },
        };
        proof {
            encode_utf8_decode_utf8(line@);
        }
        match reader.on_line(Some(line.as_str())) {
            ReadStep::Stop => {
                return None;
            },
            ReadStep::ReadBody(len) => {
                pos = end;
                n = len;
                break ;
            },
            ReadStep::NextLine => {
                pos = end;
            },
        }
    }
    if n > input.len() - pos {
        return None;
    }
    let body = slice_to_vec(&input[pos..pos + n]);
    let text = decode_body(body);
    Some((text, pos + n))
}

/// The bytes of a framed message: the header `Content-Length: {n}` followed by a
/// blank line, in UTF-8, then the body itself.
pub open spec fn framed(body: Seq<u8>) -> Seq<u8> {
    encode_utf8(content_length_header()) + encode_utf8(decimal(body.len())) + encode_utf8(
        "\r\n\r\n"@,
    ) + body
}

fn extend_bytes(out: &mut Vec<u8>, bytes: &[u8])
    ensures
        final(out)@ == old(out)@ + bytes@,
{
    let mut i: usize = 0;
    while i < bytes.len()
        invariant
            i <= bytes@.len(),
            out@ == old(out)@ + bytes@.take(i as int),
        decreases bytes@.len() - i,
    {
        out.push(bytes[i]);
        assert(bytes@.take(i + 1) == bytes@.take(i as int).push(bytes@[i as int]));
        i = i + 1;
    }
    assert(bytes@.take(bytes@.len() as int) == bytes@);
}

pub proof fn lemma_ascii_encode(s: Seq<char>)
    requires
        vstd::utf8::is_ascii_chars(s),
    ensures
        encode_utf8(s) == ascii_bytes(s),
{
    vstd::utf8::is_ascii_chars_encode_utf8(s);
    assert(encode_utf8(s) =~= ascii_bytes(s));
}

/// Frames a message body for sending: `Content-Length: {len}\r\n\r\n` then the body.
pub fn frame_message(body: &[u8]) -> (out: Vec<u8>)
    ensures
        out@ == framed(body@),
{
    let mut out: Vec<u8> = Vec::new();
    extend_bytes(&mut out, "Content-Length: ".as_bytes());
    push_decimal(&mut out, body.len());
    proof {
        let d = decimal(body@.len());
        lemma_decimal(body@.len());
        assert forall|i: int| 0 <= i < d.len() implies '\0' <= #[trigger] d[i] <= '\u{7f}' by {
            assert(is_digit(d[i]));
        }
        lemma_ascii_encode(d);
    }
    extend_bytes(&mut out, "\r\n\r\n".as_bytes());
    extend_bytes(&mut out, body);
    out
}

pub proof fn lemma_line_end_at(input: Seq<u8>, pos: int, j: int)
    requires
        0 <= pos <= j < input.len(),
        input[j] == 10,
        forall|i: int| pos <= i < j ==> input[i] != 10,
    ensures
        line_end(input, pos) == j + 1,
    decreases j - pos,
{
    if pos < j {
        lemma_line_end_at(input, pos + 1, j);
    }
}

/// The first header line of a frame, before its line break: `Content-Length: {n}`.
pub open spec fn length_line(n: nat) -> Seq<char> {
    content_length_header() + decimal(n)
}

pub open spec fn line_break() -> Seq<char> {
    seq!['\r', '\n']
}

proof fn lemma_ascii_line(l: Seq<char>)
    requires
        vstd::utf8::is_ascii_chars(l),
    ensures
        encode_utf8(l) == ascii_bytes(l),
        valid_utf8(ascii_bytes(l)),
        decode_utf8(ascii_bytes(l)) == l,
{
    lemma_ascii_encode(l);
    vstd::utf8::encode_utf8_valid_utf8(l);
    encode_utf8_decode_utf8(l);
}

proof fn lemma_length_line_ascii(n: nat)
    ensures
        length_line(n).len() == 16 + decimal(n).len(),
        vstd::utf8::is_ascii_chars(length_line(n) + line_break()),
        forall|i: int| 0 <= i < length_line(n).len() ==> (#[trigger] length_line(n)[i]) != '\n',
{
    reveal_strlit("Content-Length: ");
    let h = content_length_header();
    let d = decimal(n);
    let l = length_line(n) + line_break();
    lemma_decimal(n);
    assert(h.len() == 16);
    assert forall|i: int| 0 <= i < l.len() implies '\0' <= #[trigger] l[i] <= '\u{7f}' by {
        if i < 16 {
            assert(l[i] == h[i]);
        } else if i < 16 + d.len() {
            assert(l[i] == d[i - 16]);
            assert(is_digit(d[i - 16]));
        }
    }
    assert forall|i: int| 0 <= i < length_line(n).len() implies (#[trigger] length_line(n)[i])
        != '\n' by {
        if i >= 16 {
            assert(length_line(n)[i] == d[i - 16]);
            assert(is_digit(d[i - 16]));
        }
    }
}

/// The line `Content-Length: {n}` (with its line break) announces `n`.
proof fn lemma_length_line_step(n: nat)
    requires
        n <= usize::MAX,
    ensures
        header_step(None, length_line(n) + line_break()) == (ReadStep::NextLine, Some(n as usize)),
{
    reveal_strlit("Content-Length: ");
    let h = content_length_header();
    let d = decimal(n);
    let l1 = length_line(n) + line_break();
    lemma_decimal(n);
    lemma_parse_decimal(n);
    let k = d.len() as int;
    assert(h.len() == 16);
    assert(l1 == h + d + seq!['\r', '\n']);
    assert(trim_start(l1) == l1);
    assert(l1.drop_last() == h + d + seq!['\r']);
    assert((h + d + seq!['\r']).drop_last() == h + d);
    assert(!is_whitespace(d[k - 1]));
    assert((h + d).last() == d[k - 1]);
    assert(is_whitespace(l1.last()));
    assert(trim_end(l1) == trim_end(h + d + seq!['\r']));
    assert(is_whitespace((h + d + seq!['\r']).last()));
    assert(trim_end(h + d + seq!['\r']) == trim_end(h + d));
    assert(trim_end(h + d) == h + d);
    assert(trim(l1) == h + d);
    assert(h.is_prefix_of(h + d));
    assert((h + d).skip(16) == d);
    assert(strip_prefix(h + d, h) == Some(d));
    assert(trim_start(d) == d);
    assert(trim_end(d) == d);
}

/// A blank line ends the header block once the length is known.
proof fn lemma_blank_line_step(n: usize)
    ensures
        header_step(Some(n), line_break()) == (ReadStep::ReadBody(n), Some(n)),
{
    let l2 = line_break();
    assert(l2.drop_first() == seq!['\n']);
    assert(seq!['\n'].drop_first().len() == 0);
    assert(is_whitespace(l2[0]));
    assert(trim_start(l2) == trim_start(seq!['\n']));
    assert(is_whitespace(seq!['\n'][0]));
    assert(trim_start(seq!['\n']) == trim_start(seq!['\n'].drop_first()));
    assert(trim_start(l2).len() == 0);
}

/// A framed body is its length line, a blank line, and the body.
proof fn lemma_framed_lines(body: Seq<u8>)
    ensures
        framed(body) == ascii_bytes(length_line(body.len()) + line_break()) + ascii_bytes(
            line_break(),
        ) + body,
{
    reveal_strlit("Content-Length: ");
    reveal_strlit("\r\n\r\n");
    let n = body.len();
    let h = content_length_header();
    let d = decimal(n);
    let crlf2: Seq<char> = "\r\n\r\n"@;
    assert(crlf2 == line_break() + line_break());
    lemma_length_line_ascii(n);
    let l1 = length_line(n) + line_break();
    assert(h + d + crlf2 == l1 + line_break());
    assert(vstd::utf8::is_ascii_chars(h)) by {
        assert forall|i: int| 0 <= i < h.len() implies '\0' <= #[trigger] h[i] <= '\u{7f}' by {
            assert(h[i] == l1[i]);
        }
    }
    assert(vstd::utf8::is_ascii_chars(d)) by {
        assert forall|i: int| 0 <= i < d.len() implies '\0' <= #[trigger] d[i] <= '\u{7f}' by {
            assert(d[i] == l1[i + 16]);
        }
    }
    assert(vstd::utf8::is_ascii_chars(crlf2)) by {
        assert forall|i: int| 0 <= i < crlf2.len() implies '\0' <= #[trigger] crlf2[i]
            <= '\u{7f}' by {}
    }
    lemma_ascii_encode(h);
    lemma_ascii_encode(d);
    lemma_ascii_encode(crlf2);
    assert(ascii_bytes(h) + ascii_bytes(d) + ascii_bytes(crlf2) == ascii_bytes(l1) + ascii_bytes(
        line_break(),
    ));
}

/// Reading back a framed body gives its text and stops exactly at the end of
/// the frame, whatever follows it.
pub proof fn lemma_read_framed(body: Seq<u8>, rest: Seq<u8>)
    requires
        body.len() <= usize::MAX,
    ensures
        read_frame(framed(body) + rest) == Some((body_text(body), framed(body).len() as int)),
{
    let n = body.len();
    let l1 = length_line(n) + line_break();
    let l2 = line_break();
    let b1 = ascii_bytes(l1);
    let b2 = ascii_bytes(l2);
    lemma_framed_lines(body);
    lemma_length_line_ascii(n);
    lemma_ascii_line(l1);
    assert(vstd::utf8::is_ascii_chars(l2)) by {
        assert forall|i: int| 0 <= i < l2.len() implies '\0' <= #[trigger] l2[i] <= '\u{7f}' by {}
    }
    lemma_ascii_line(l2);
    let input = framed(body) + rest;
    assert(input == b1 + b2 + body + rest);
    let p1 = b1.len() as int;
    let p2 = p1 + 2;
    // the first line ends at its own line break
    assert forall|i: int| 0 <= i < p1 - 1 implies input[i] != 10 by {
        assert(input[i] == l1[i] as u8);
        if i < length_line(n).len() {
            assert(l1[i] == length_line(n)[i]);
        }
    }
    assert(input[p1 - 1] == 10);
    lemma_line_end_at(input, 0, p1 - 1);
    assert(input.subrange(0, p1) == b1);
    lemma_length_line_step(n);
    // the second line is blank
    assert(input[p1 + 1] == 10);
    assert(input[p1] == 13);
    lemma_line_end_at(input, p1, p1 + 1);
    assert(input.subrange(p1, p2) == b2);
    lemma_blank_line_step(n as usize);
    assert(read_headers(input, p1, Some(n as usize)) == Some((n as usize, p2)));
    assert(read_headers(input, 0, None) == Some((n as usize, p2)));
    assert(input.subrange(p2, p2 + n) == body);
}

} // verus!
