//! The frames in which s-expressions travel between the master REPL and its
//! clients: four bytes that give a length, the highest first, and as many bytes of
//! UTF-8 text.

use crate::text;
use vstd::prelude::*;
use vstd::string::*;
use vstd::utf8::*;

verus! {

/// The longest text, in bytes, that is read from a frame.
pub const MAX_FRAME: usize = 33_554_432;

/// Why a frame could not be written or read.
#[derive(Debug, Clone, PartialEq, Eq)]
pub enum FrameError {
    /// The text that is to be written is longer than four bytes can say.
    TooLong,
    /// The text that is to be read is longer than a frame may be; the number is its length in
    /// bytes.
    TooLarge(usize),
    /// The bytes end before the length does.
    NoLength,
    /// The bytes end before the text does.
    NoBody,
    /// The text is no UTF-8, for this reason.
    NotUtf8(String),
}

/// What an error of a frame holds.
pub enum FrameErrorView {
    TooLong,
    TooLarge(usize),
    NoLength,
    NoBody,
    NotUtf8(Seq<char>),
}

impl View for FrameError {
    type V = FrameErrorView;

    open spec fn view(&self) -> FrameErrorView {
        match self {
            FrameError::TooLong => FrameErrorView::TooLong,
            FrameError::TooLarge(n) => FrameErrorView::TooLarge(*n),
            FrameError::NoLength => FrameErrorView::NoLength,
            FrameError::NoBody => FrameErrorView::NoBody,
            FrameError::NotUtf8(reason) => FrameErrorView::NotUtf8(reason@),
        }
    }
}

impl FrameError {
    /// The message for the log.
    pub open spec fn text(&self) -> Seq<char> {
        match self {
            FrameError::TooLong =>
                "frame too large: out of range integral type conversion attempted"@,
            FrameError::TooLarge(n) => "frame too large: "@ + text::decimal(*n as nat),
            FrameError::NoLength => "Failed to read frame length"@,
            FrameError::NoBody => "Failed to read frame body"@,
            FrameError::NotUtf8(reason) => "frame is not UTF-8: "@ + reason@,
        }
    }

    /// The message for the log.
    pub fn message(&self) -> (r: String)
        ensures
            r@ == self.text(),
    {
        match self {
            FrameError::TooLong =>
                "frame too large: out of range integral type conversion attempted".to_string(),
            FrameError::TooLarge(n) => {
                let mut out = "frame too large: ".to_string();
                out.append(text::number_text(*n as u64).as_str());
                out
            },
            FrameError::NoLength => "Failed to read frame length".to_string(),
            FrameError::NoBody => "Failed to read frame body".to_string(),
            FrameError::NotUtf8(reason) => {
                let mut out = "frame is not UTF-8: ".to_string();
                out.append(reason.as_str());
                out
            },
        }
    }
}

#[verifier::external_type_specification]
#[verifier::external_body]
pub struct ExFromUtf8Error(std::string::FromUtf8Error);

/// The message that a `FromUtf8Error` prints as.
pub uninterp spec fn message_of(e: std::string::FromUtf8Error) -> Seq<char>;

/// The message of the error that `String::from_utf8` gives for bytes that are no UTF-8.
pub uninterp spec fn utf8_failure(bytes: Seq<u8>) -> Seq<char>;

/// `String::from_utf8` gives the text whose UTF-8 encoding the bytes are, and fails
/// where they are none. What its error prints as depends on the bytes alone.
pub assume_specification[ String::from_utf8 ](vec: Vec<u8>) -> (r: Result<
    String,
    std::string::FromUtf8Error,
>)
    ensures
        r is Ok <==> valid_utf8(vec@),
        r is Ok ==> r->Ok_0@ == decode_utf8(vec@),
        r is Err ==> message_of(r->Err_0) == utf8_failure(vec@),
;

/// The `Display` of `FromUtf8Error`: the message depends on the error alone.
#[verifier::external_body]
fn print_error(e: &std::string::FromUtf8Error) -> (r: String)
    ensures
        r@ == message_of(*e),
{
    e.to_string()
}

/// The four bytes of a length, the highest first.
pub open spec fn length_bytes(n: int) -> Seq<u8> {
    seq![
        (n / 16777216 % 256) as u8,
        (n / 65536 % 256) as u8,
        (n / 256 % 256) as u8,
        (n % 256) as u8,
    ]
}

/// The length that four bytes give, the highest first.
pub open spec fn length_of(b: Seq<u8>) -> int {
    b[0] * 16777216 + b[1] * 65536 + b[2] * 256 + b[3]
}

/// The frame of a text.
pub open spec fn frame(s: Seq<char>) -> Seq<u8> {
    length_bytes(encode_utf8(s).len() as int) + encode_utf8(s)
}

/// What reading a frame from the beginning of the bytes gives.
pub open spec fn frame_content(b: Seq<u8>) -> Result<Seq<char>, FrameErrorView> {
    if b.len() < 4 {
        Err(FrameErrorView::NoLength)
    } else if length_of(b) > MAX_FRAME {
        Err(FrameErrorView::TooLarge(length_of(b) as usize))
    } else if b.len() < 4 + length_of(b) {
        Err(FrameErrorView::NoBody)
    } else if !valid_utf8(b.subrange(4, 4 + length_of(b))) {
        Err(FrameErrorView::NotUtf8(utf8_failure(b.subrange(4, 4 + length_of(b)))))
    } else {
        Ok(decode_utf8(b.subrange(4, 4 + length_of(b))))
    }
}

/// What is left of the bytes after reading a frame from their beginning. Bytes that
/// end too early are used up.
pub open spec fn after_frame(b: Seq<u8>) -> Seq<u8> {
    match frame_content(b) {
        Err(FrameErrorView::NoLength) => Seq::empty(),
        Err(FrameErrorView::NoBody) => Seq::empty(),
        Err(FrameErrorView::TooLarge(_)) => b.skip(4),
        _ => b.skip(4 + length_of(b)),
    }
}

/// What reading gives, as texts.
pub open spec fn content_view(r: Result<String, FrameError>) -> Result<Seq<char>, FrameErrorView> {
    match r {
        Ok(s) => Ok(s@),
        Err(e) => Err(e@),
    }
}

/// Every length that four bytes can hold is the one that its bytes give.
pub proof fn length_is_read_back(n: int)
    requires
        0 <= n <= u32::MAX,
    ensures
        length_of(length_bytes(n)) == n,
{
    let b = length_bytes(n);
    assert(n == (n / 16777216 % 256) * 16777216 + (n / 65536 % 256) * 65536 + (n / 256 % 256) * 256
        + n % 256) by (nonlinear_arith)
        requires
            0 <= n <= u32::MAX,
    ;
    assert(0 <= n / 16777216 % 256 < 256);
}

/// Reading from bytes that begin with the frame of a text gives that text and leaves
/// what follows the frame, whatever follows, for every text that a frame may hold.
pub proof fn frame_is_read_back(s: Seq<char>, rest: Seq<u8>)
    requires
        encode_utf8(s).len() <= MAX_FRAME,
    ensures
        frame_content(frame(s) + rest) == Ok::<Seq<char>, FrameErrorView>(s),
        after_frame(frame(s) + rest) == rest,
{
    let n = encode_utf8(s).len() as int;
    let b = frame(s) + rest;
    length_is_read_back(n);
    assert(length_of(b) == n);
    assert(b.subrange(4, 4 + n) =~= encode_utf8(s));
    encode_utf8_valid_utf8(s);
    encode_utf8_decode_utf8(s);
    assert(b.skip(4 + n) =~= rest);
}

/// A frame that is too long to be read is refused with its length, though it could
/// be written.
pub proof fn long_frame_is_refused(s: Seq<char>, rest: Seq<u8>)
    requires
        MAX_FRAME < encode_utf8(s).len() <= u32::MAX,
    ensures
        frame_content(frame(s) + rest) == Err::<Seq<char>, FrameErrorView>(
            FrameErrorView::TooLarge(encode_utf8(s).len() as usize),
        ),
{
    let n = encode_utf8(s).len() as int;
    length_is_read_back(n);
    assert(length_of(frame(s) + rest) == n);
}

/// Bytes that are being read, from the front.
#[derive(Debug)]
pub struct ByteReader {
    bytes: Vec<u8>,
    at: usize,
}

impl View for ByteReader {
    type V = Seq<u8>;

    /// The bytes that are left.
    closed spec fn view(&self) -> Seq<u8> {
        self.bytes@.skip(self.at as int)
    }
}

impl ByteReader {
    #[verifier::type_invariant]
    spec fn in_bounds(self) -> bool {
        self.at <= self.bytes@.len()
    }

    pub fn new(bytes: Vec<u8>) -> (r: ByteReader)
        ensures
            r@ == bytes@,
    {
        assert(bytes@.skip(0) == bytes@);
        ByteReader { bytes, at: 0 }
    }

    /// Takes `n` bytes from the front. Where fewer are left, they are used up and
    /// nothing is given.
    pub fn read_exact(&mut self, n: usize) -> (r: Option<Vec<u8>>)
        ensures
            match r {
                Some(v) => n <= old(self)@.len() && v@ == old(self)@.take(n as int)
                    && final(self)@ == old(self)@.skip(n as int),
                None => old(self)@.len() < n && final(self)@ == Seq::<u8>::empty(),
            },
    {
        proof {
            use_type_invariant(&*self);
        }
        let total: usize = self.bytes.len();
        let left: usize = total - self.at;
        if left < n {
            self.at = total;
            assert(self@ =~= Seq::<u8>::empty());
            return None;
        }
        let mut out: Vec<u8> = Vec::new();
        let from: usize = self.at;
        for i in 0..n
            invariant
                from + n <= self.bytes.len(),
                out@ == self.bytes@.subrange(from as int, from + i),
        {
            out.push(self.bytes[from + i]);
            assert(out@ =~= self.bytes@.subrange(from as int, from + i + 1));
        }
        self.at = from + n;
        assert(out@ =~= old(self)@.take(n as int));
        assert(self@ =~= old(self)@.skip(n as int));
        Some(out)
    }
}

/// Appends the frame of a text to what was written. A text whose length four bytes
/// cannot hold is refused.
pub fn write_frame(stream: &mut Vec<u8>, sexp: &str) -> (r: Result<(), FrameError>)
    ensures
        match r {
            Ok(()) => encode_utf8(sexp@).len() <= u32::MAX && final(stream)@ == old(stream)@
                + frame(sexp@),
            Err(e) => encode_utf8(sexp@).len() > u32::MAX && final(stream)@ == old(stream)@
                && e@ is TooLong,
        },
{
    let bytes = sexp.as_bytes();
    let n: usize = bytes.len();
    if n > 4_294_967_295 {
        return Err(FrameError::TooLong);
    }
    stream.push((n / 16777216 % 256) as u8);
    stream.push((n / 65536 % 256) as u8);
    stream.push((n / 256 % 256) as u8);
    stream.push((n % 256) as u8);
    assert(stream@ =~= old(stream)@ + length_bytes(n as int));
    for i in 0..n
        invariant
            n == bytes@.len(),
            stream@ == old(stream)@ + length_bytes(n as int) + bytes@.take(i as int),
    {
        stream.push(bytes[i]);
        assert(stream@ =~= old(stream)@ + length_bytes(n as int) + bytes@.take(i + 1));
    }
    assert(stream@ =~= old(stream)@ + frame(sexp@));
    Ok(())
}

/// The length that the first four bytes of a frame give, where a frame may be so
/// long.
pub fn frame_len(head: &[u8]) -> (r: Result<usize, FrameError>)
    ensures
        match r {
            Ok(n) => head@.len() >= 4 && n == length_of(head@) && n <= MAX_FRAME,
            Err(FrameError::NoLength) => head@.len() < 4,
            Err(FrameError::TooLarge(n)) => head@.len() >= 4 && n == length_of(head@) && n
                > MAX_FRAME,
            Err(_) => false,
        },
{
    if head.len() < 4 {
        return Err(FrameError::NoLength);
    }
    let n: u32 = head[0] as u32 * 16777216 + head[1] as u32 * 65536 + head[2] as u32 * 256
        + head[3] as u32;
    if n as usize > MAX_FRAME {
        return Err(FrameError::TooLarge(n as usize));
    }
    Ok(n as usize)
}

/// The text that the bytes after the length of a frame hold.
pub fn frame_text(body: Vec<u8>) -> (r: Result<String, FrameError>)
    ensures
        content_view(r) == (if valid_utf8(body@) {
            Ok::<Seq<char>, FrameErrorView>(decode_utf8(body@))
        } else {
            Err(FrameErrorView::NotUtf8(utf8_failure(body@)))
        }),
{
    match String::from_utf8(body) {
        Ok(s) => Ok(s),
        Err(e) => Err(FrameError::NotUtf8(print_error(&e))),
    }
}

/// Reads a frame from the front.
pub fn read_frame(stream: &mut ByteReader) -> (r: Result<String, FrameError>)
    ensures
        content_view(r) == frame_content(old(stream)@),
        final(stream)@ == after_frame(old(stream)@),
{
    let ghost all = stream@;
    let head = match stream.read_exact(4) {
        Some(v) => v,
        None => return Err(FrameError::NoLength),
    };
    let n = match frame_len(head.as_slice()) {
        Ok(n) => n,
        Err(e) => return Err(e),
    };
    match stream.read_exact(n) {
        Some(body) => {
            assert(body@ =~= all.subrange(4, 4 + n));
            assert(stream@ =~= all.skip(4 + n));
            frame_text(body)
        },
        None => Err(FrameError::NoBody),
    }
}


/// A length comes highest byte first: a small one stands in the last byte alone.
pub proof fn length_comes_highest_first(n: int, high: int)
    requires
        0 <= n < 256,
        0 <= high < 256,
    ensures
        length_bytes(n) == seq![0u8, 0, 0, n as u8],
        length_bytes(high * 16777216 + n) == seq![high as u8, 0, 0, n as u8],
        length_of(seq![0u8, 0, 1, n as u8]) == 256 + n,
        length_of(seq![1u8, 0, 0, n as u8]) == 16777216 + n,
{
    let m = high * 16777216 + n;
    assert(m / 16777216 == high && m / 65536 == high * 256 && m / 256 == high * 65536 && m % 256
        == n) by (nonlinear_arith)
        requires
            m == high * 16777216 + n,
            0 <= n < 256,
            0 <= high < 256,
    ;
    assert((high * 256) % 256 == 0 && (high * 65536) % 256 == 0);
    assert(length_bytes(n) =~= seq![0u8, 0, 0, n as u8]);
    assert(length_bytes(m) =~= seq![high as u8, 0, 0, n as u8]);
}

/// A frame is its text in UTF-8 after four bytes, and frames follow each other without anything
/// between them.
pub proof fn frames_are_read_one_by_one(a: Seq<char>, b: Seq<char>)
    requires
        encode_utf8(a).len() <= MAX_FRAME,
        encode_utf8(b).len() <= MAX_FRAME,
    ensures
        frame(a).len() == 4 + encode_utf8(a).len(),
        frame(a).skip(4) == encode_utf8(a),
        frame_content(frame(a) + frame(b)) == Ok::<Seq<char>, FrameErrorView>(a),
        frame_content(after_frame(frame(a) + frame(b))) == Ok::<Seq<char>, FrameErrorView>(b),
{
    assert(frame(a).skip(4) =~= encode_utf8(a));
    frame_is_read_back(a, frame(b));
    let empty = Seq::<u8>::empty();
    frame_is_read_back(b, empty);
    assert(frame(b) + empty =~= frame(b));
}

/// Bytes that end too early give no text, and say what is missing; up to 32 MiB can be read.
pub proof fn short_frames_are_refused(b: Seq<u8>)
    ensures
        b.len() < 4 <==> frame_content(b) == Err::<Seq<char>, FrameErrorView>(
            FrameErrorView::NoLength,
        ),
        b.len() >= 4 && length_of(b) <= 33554432 && b.len() < 4 + length_of(b) <==> frame_content(b)
            == Err::<Seq<char>, FrameErrorView>(FrameErrorView::NoBody),
        b.len() >= 4 && length_of(b) > 33554432 <==> frame_content(b) is Err && frame_content(
            b,
        )->Err_0 is TooLarge,
{
}

}
