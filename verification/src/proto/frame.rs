//! Framing: one line per message, closed by a line feed.

use crate::proto::MAX_FRAME_SIZE;
use crate::text;
use vstd::prelude::*;

verus! {

/// What kind of failure reading or writing met.
#[derive(Debug, Clone, Copy, PartialEq, Eq, Structural)]
pub enum IoKind {
    /// The stream ended too early.
    UnexpectedEof,
    Other,
}

/// What can go wrong on the wire.
#[derive(Debug, Clone)]
pub enum ProtocolError {
    /// Reading or writing failed, with the system's description.
    Io { kind: IoKind, what: String },
    /// A line is no valid message, with the decoder's description.
    Json(String),
    /// A line is longer than the limit.
    FrameTooLarge { got: usize, max: usize },
    /// The peer closed the stream between two messages.
    Eof,
}

/// The description of a line that the end of the stream cut short.
pub const PARTIAL_LINE: &'static str = "partial line: no trailing newline";

impl ProtocolError {
    /// The characters of the error's description.
    pub open spec fn text(&self) -> Seq<char> {
        match *self {
            ProtocolError::Io { what, .. } => "io error: "@ + what@,
            ProtocolError::Json(what) => "json codec error: "@ + what@,
            ProtocolError::FrameTooLarge { got, max } => "frame too large: "@ + text::decimal(
                got as nat,
            ) + " bytes exceeds max "@ + text::decimal(max as nat),
            ProtocolError::Eof => "peer closed the stream"@,
        }
    }

    /// Describes the error.
    pub fn message(&self) -> (r: String)
        ensures
            r@ == self.text(),
    {
        match self {
            ProtocolError::Io { what, .. } => "io error: ".to_owned().concat(what.as_str()),
            ProtocolError::Json(what) => "json codec error: ".to_owned().concat(what.as_str()),
            ProtocolError::FrameTooLarge { got, max } => "frame too large: ".to_owned().concat(
                text::decimal_of(*got as u64).as_str(),
            ).concat(" bytes exceeds max ").concat(text::decimal_of(*max as u64).as_str()),
            ProtocolError::Eof => "peer closed the stream".to_owned(),
        }
    }
}

// ─── Model ─────────────────────────────────────────────────────────────

/// The line feed that closes a frame.
pub const LINE_FEED: u8 = 10;

/// What reading one frame gives.
pub enum Frame {
    /// A whole line, without its line feed.
    Line(Seq<u8>),
    /// A line of more bytes than the limit, with the count that was seen.
    TooLarge(nat),
    /// The stream ended in the middle of a line.
    Partial,
    /// The stream ended before the first byte of a line.
    End,
}

/// How many bytes stand before the first line feed.
pub open spec fn line_length(bytes: Seq<u8>) -> nat
    decreases bytes.len(),
{
    if bytes.len() == 0 || bytes.first() == LINE_FEED {
        0
    } else {
        1 + line_length(bytes.drop_first())
    }
}

/// What a reader that takes one byte at a time finds at the start of
/// `bytes`. It stops at the first byte past the limit.
pub open spec fn first_frame(bytes: Seq<u8>) -> Frame {
    let n = line_length(bytes);
    if n > MAX_FRAME_SIZE {
        Frame::TooLarge((MAX_FRAME_SIZE + 1) as nat)
    } else if n < bytes.len() {
        Frame::Line(bytes.take(n as int))
    } else if n == 0 {
        Frame::End
    } else {
        Frame::Partial
    }
}

/// How many bytes that reader has taken when it stops.
pub open spec fn first_frame_size(bytes: Seq<u8>) -> nat {
    let n = line_length(bytes);
    if n > MAX_FRAME_SIZE {
        (MAX_FRAME_SIZE + 1) as nat
    } else if n < bytes.len() {
        n + 1
    } else {
        n
    }
}

/// What a reader that takes everything up to the line feed makes of what
/// it got.
pub open spec fn whole_frame(bytes: Seq<u8>) -> Frame {
    if bytes.len() == 0 {
        Frame::End
    } else if bytes.last() != LINE_FEED {
        Frame::Partial
    } else if bytes.len() - 1 > MAX_FRAME_SIZE {
        Frame::TooLarge((bytes.len() - 1) as nat)
    } else {
        Frame::Line(bytes.drop_last())
    }
}

/// Whether a reader's result is the one that the model gives.
pub open spec fn reports(r: Result<Vec<u8>, ProtocolError>, frame: Frame) -> bool {
    match frame {
        Frame::Line(line) => r matches Ok(got) && got@ == line,
        Frame::TooLarge(n) => r matches Err(ProtocolError::FrameTooLarge { got, max }) && got == n
            && max == MAX_FRAME_SIZE,
        Frame::Partial => r matches Err(ProtocolError::Io { kind, what }) && kind
            == IoKind::UnexpectedEof && what@ == PARTIAL_LINE@,
        Frame::End => r matches Err(ProtocolError::Eof),
    }
}

// ─── Writing ───────────────────────────────────────────────────────────

/// Appends a message's line and the line feed that closes it.
///
/// A line that is not below the limit is refused and nothing is written.
pub fn write_frame(w: &mut Vec<u8>, line: &[u8]) -> (r: Result<(), ProtocolError>)
    ensures
        line@.len() < MAX_FRAME_SIZE ==> r is Ok && final(w)@ == old(w)@ + line@.push(LINE_FEED),
        line@.len() >= MAX_FRAME_SIZE ==> (r matches Err(
            ProtocolError::FrameTooLarge { got, max },
        ) && got == line@.len() && max == MAX_FRAME_SIZE) && final(w)@ == old(w)@,
{
    if line.len() >= MAX_FRAME_SIZE {
        return Err(ProtocolError::FrameTooLarge { got: line.len(), max: MAX_FRAME_SIZE });
    }
    w.extend_from_slice(line);
    w.push(LINE_FEED);
    assert(w@ =~= old(w)@ + line@.push(LINE_FEED));
    Ok(())
}

// ─── Reading ───────────────────────────────────────────────────────────

/// What one read of a single byte gave.
#[derive(Debug, Clone)]
pub enum ReadEvent {
    /// The stream is at its end.
    End,
    /// One byte.
    Byte(u8),
    /// The read was interrupted and can be repeated.
    Interrupted,
    /// The read failed, with the system's description.
    Failed { kind: IoKind, what: String },
}

fn partial_line() -> (r: ProtocolError)
    ensures
        reports(Err(r), Frame::Partial),
{
    ProtocolError::Io { kind: IoKind::UnexpectedEof, what: PARTIAL_LINE.to_owned() }
}

/// A reader that collects one line byte by byte.
#[derive(Debug)]
pub struct FrameReader {
    buf: Vec<u8>,
}

impl FrameReader {
    /// The bytes collected so far.
    pub closed spec fn collected(&self) -> Seq<u8> {
        self.buf@
    }

    /// The collected bytes are within the limit.
    #[verifier::type_invariant]
    spec fn valid(self) -> bool {
        self.buf@.len() <= MAX_FRAME_SIZE
    }

    pub fn new() -> (r: Self)
        ensures
            r.collected() == Seq::<u8>::empty(),
    {
        FrameReader { buf: Vec::new() }
    }

    /// Takes what one read gave. `None` asks for another read; otherwise
    /// the line is complete or cannot be completed, and the reader is
    /// ready for the next one.
    pub fn feed(&mut self, event: ReadEvent) -> (r: Option<Result<Vec<u8>, ProtocolError>>)
        ensures
            match event {
                ReadEvent::End => r matches Some(res) && reports(
                    res,
                    if old(self).collected().len() == 0 {
                        Frame::End
                    } else {
                        Frame::Partial
                    },
                ),
                ReadEvent::Byte(b) => if b == LINE_FEED {
                    r matches Some(res) && reports(res, Frame::Line(old(self).collected()))
                } else if old(self).collected().len() >= MAX_FRAME_SIZE {
                    r matches Some(res) && reports(
                        res,
                        Frame::TooLarge(old(self).collected().len() + 1),
                    )
                } else {
                    r is None && final(self).collected() == old(self).collected().push(b)
                },
                ReadEvent::Interrupted => r is None && final(self).collected() == old(
                    self,
                ).collected(),
                ReadEvent::Failed { kind, what } => r == Some(
                    Err::<Vec<u8>, ProtocolError>(ProtocolError::Io { kind, what }),
                ),
            },
            r is Some ==> final(self).collected() == Seq::<u8>::empty(),
    {
        proof {
            use_type_invariant(&*self);
        }
        let mut buf: Vec<u8> = Vec::new();
        std::mem::swap(&mut buf, &mut self.buf);
        match event {
            ReadEvent::End => {
                if buf.is_empty() {
                    Some(Err(ProtocolError::Eof))
                } else {
                    Some(Err(partial_line()))
                }
            },
            ReadEvent::Byte(b) => {
                if b == LINE_FEED {
                    Some(Ok(buf))
                } else if buf.len() >= MAX_FRAME_SIZE {
                    Some(
                        Err(
                            ProtocolError::FrameTooLarge {
                                got: buf.len() + 1,
                                max: MAX_FRAME_SIZE,
                            },
                        ),
                    )
                } else {
                    buf.push(b);
                    self.buf = buf;
                    None
                }
            },
            ReadEvent::Interrupted => {
                self.buf = buf;
                None
            },
            ReadEvent::Failed { kind, what } => Some(Err(ProtocolError::Io { kind, what })),
        }
    }
}

/// Reads one frame from `bytes`, starting at `*pos`, byte by byte.
pub fn read_frame(bytes: &[u8], pos: &mut usize) -> (r: Result<Vec<u8>, ProtocolError>)
    requires
        *old(pos) <= bytes@.len(),
    ensures
        reports(r, first_frame(bytes@.skip(*old(pos) as int))),
        *final(pos) == *old(pos) + first_frame_size(bytes@.skip(*old(pos) as int)),
        *final(pos) <= bytes@.len(),
{
    let ghost start = *pos as int;
    let ghost rest = bytes@.skip(start);
    let n: usize = bytes.len();
    let mut reader = FrameReader::new();
    assert(rest.take(0) =~= Seq::<u8>::empty());
    while *pos < n
        invariant
            n == bytes@.len(),
            start == *old(pos),
            start <= *pos <= n,
            rest == bytes@.skip(start),
            reader.collected() == rest.take(*pos - start),
            *pos - start <= MAX_FRAME_SIZE,
            forall|i: int| 0 <= i < *pos - start ==> rest[i] != LINE_FEED,
        decreases n - *pos,
    {
        let ghost k = *pos - start;
        let b: u8 = bytes[*pos];
        assert(rest[k] == b);
        *pos = *pos + 1;
        let step = reader.feed(ReadEvent::Byte(b));
        if let Some(done) = step {
            proof {
                if b == LINE_FEED {
                    lemma_line_length(rest, k);
                } else {
                    lemma_line_length_beyond(rest, k + 1);
                }
            }
            return done;
        }
        assert(rest.take(k).push(b) =~= rest.take(k + 1));
    }
    proof {
        lemma_line_length(rest, rest.len() as int);
        assert(rest.take(rest.len() as int) =~= rest);
    }
    match reader.feed(ReadEvent::End) {
        Some(done) => done,
        None => Err(ProtocolError::Eof),
    }
}

/// Checks what reading up to and with the next line feed gave, and takes
/// the line feed off.
pub fn finish_line(buf: Vec<u8>) -> (r: Result<Vec<u8>, ProtocolError>)
    ensures
        reports(r, whole_frame(buf@)),
{
    let mut buf = buf;
    if buf.is_empty() {
        return Err(ProtocolError::Eof);
    }
    if buf[buf.len() - 1] != LINE_FEED {
        return Err(partial_line());
    }
    let ghost whole = buf@;
    let last = buf.pop();
    assert(buf@ =~= whole.drop_last());
    if buf.len() > MAX_FRAME_SIZE {
        return Err(ProtocolError::FrameTooLarge { got: buf.len(), max: MAX_FRAME_SIZE });
    }
    Ok(buf)
}

// ─── Laws ──────────────────────────────────────────────────────────────

/// The frames of several lines, one after the other.
pub open spec fn frames(lines: Seq<Seq<u8>>) -> Seq<u8>
    decreases lines.len(),
{
    if lines.len() == 0 {
        seq![]
    } else {
        lines.first().push(LINE_FEED) + frames(lines.drop_first())
    }
}

/// Whether a line can be written and read: within the limit, and without a
/// line feed of its own.
pub open spec fn writable(line: Seq<u8>) -> bool {
    line.len() < MAX_FRAME_SIZE && !line.contains(LINE_FEED)
}

/// What reading frames one after the other gives, up to the first that is
/// no whole line.
pub open spec fn read_all(bytes: Seq<u8>) -> Seq<Seq<u8>>
    decreases bytes.len(),
    when first_frame(bytes) is Line ==> 0 < first_frame_size(bytes) <= bytes.len()
{
    match first_frame(bytes) {
        Frame::Line(line) => seq![line] + read_all(bytes.skip(first_frame_size(bytes) as int)),
        _ => seq![],
    }
}

/// A written line reads back, by the reader that goes byte by byte and by
/// the one that takes the whole line, and the rest of the stream is left.
pub proof fn law_written_line_reads_back(line: Seq<u8>, rest: Seq<u8>)
    requires
        writable(line),
    ensures
        first_frame(line.push(LINE_FEED) + rest) == Frame::Line(line),
        first_frame_size(line.push(LINE_FEED) + rest) == line.len() + 1,
        (line.push(LINE_FEED) + rest).skip(line.len() as int + 1) == rest,
        whole_frame(line.push(LINE_FEED)) == Frame::Line(line),
{
    let all = line.push(LINE_FEED) + rest;
    assert forall|i: int| 0 <= i < line.len() implies all[i] != LINE_FEED by {
        assert(all[i] == line[i]);
        assert(line.contains(line[i]));
    }
    lemma_line_length(all, line.len() as int);
    assert(all.take(line.len() as int) =~= line);
    assert(all.skip(line.len() as int + 1) =~= rest);
    assert(line.push(LINE_FEED).drop_last() =~= line);
}

/// Lines that were written one after the other read back in that order.
pub proof fn law_stream_reads_back_in_order(lines: Seq<Seq<u8>>)
    requires
        forall|i: int| 0 <= i < lines.len() ==> writable(#[trigger] lines[i]),
    ensures
        read_all(frames(lines)) == lines,
    decreases lines.len(),
{
    if lines.len() > 0 {
        let rest = lines.drop_first();
        assert(writable(lines[0]));
        assert forall|i: int| 0 <= i < rest.len() implies writable(#[trigger] rest[i]) by {
            assert(rest[i] == lines[i + 1]);
        }
        law_written_line_reads_back(lines.first(), frames(rest));
        law_stream_reads_back_in_order(rest);
        assert(seq![lines.first()] + rest =~= lines);
    }
}

proof fn lemma_line_length(s: Seq<u8>, n: int)
    requires
        0 <= n <= s.len(),
        forall|i: int| 0 <= i < n ==> s[i] != LINE_FEED,
        n < s.len() ==> s[n] == LINE_FEED,
    ensures
        line_length(s) == n,
    decreases s.len(),
{
    if n > 0 {
        assert forall|i: int| 0 <= i < n - 1 implies s.drop_first()[i] != LINE_FEED by {
            assert(s.drop_first()[i] == s[i + 1]);
        }
        lemma_line_length(s.drop_first(), n - 1);
    }
}

proof fn lemma_line_length_beyond(s: Seq<u8>, n: int)
    requires
        0 <= n <= s.len(),
        forall|i: int| 0 <= i < n ==> s[i] != LINE_FEED,
    ensures
        line_length(s) >= n,
    decreases s.len(),
{
    if n > 0 {
        assert forall|i: int| 0 <= i < n - 1 implies s.drop_first()[i] != LINE_FEED by {
            assert(s.drop_first()[i] == s[i + 1]);
        }
        lemma_line_length_beyond(s.drop_first(), n - 1);
    }
}

/// Where the limit lies. A line of up to sixteen megabytes is read, and the next
/// frame starts behind its line feed; a longer one is refused, by the reader that
/// goes byte by byte as soon as it is too long.
pub proof fn law_the_limit_is_sharp(line: Seq<u8>, rest: Seq<u8>)
    requires
        !line.contains(10u8),
    ensures
        line.len() <= 16777216 ==> first_frame(line.push(10u8) + rest) == Frame::Line(line),
        line.len() <= 16777216 ==> first_frame_size(line.push(10u8) + rest) == line.len() + 1,
        line.len() <= 16777216 ==> whole_frame(line.push(10u8)) == Frame::Line(line),
        line.len() > 16777216 ==> first_frame(line + rest) == Frame::TooLarge(16777217),
        line.len() > 16777216 ==> first_frame_size(line + rest) == 16777217,
        line.len() > 16777216 ==> whole_frame(line.push(10u8)) == Frame::TooLarge(line.len()),
{
    let all = line.push(10u8) + rest;
    let cut = line + rest;
    assert forall|i: int| 0 <= i < line.len() implies all[i] != LINE_FEED && cut[i] != LINE_FEED by {
        assert(all[i] == line[i] && cut[i] == line[i]);
        assert(line.contains(line[i]));
    }
    lemma_line_length(all, line.len() as int);
    lemma_line_length_beyond(cut, line.len() as int);
    assert(all.take(line.len() as int) =~= line);
    assert(line.push(10u8).drop_last() =~= line);
}

/// A stream that ends without a line feed has lost the end of a line, unless it
/// ended between two lines.
pub proof fn law_cut_lines_are_noticed(bytes: Seq<u8>)
    requires
        !bytes.contains(10u8),
        bytes.len() <= 16777216,
    ensures
        bytes.len() == 0 ==> first_frame(bytes) is End && whole_frame(bytes) is End,
        bytes.len() > 0 ==> first_frame(bytes) is Partial && whole_frame(bytes) is Partial,
        first_frame_size(bytes) == bytes.len(),
{
    assert forall|i: int| 0 <= i < bytes.len() implies bytes[i] != LINE_FEED by {
        assert(bytes.contains(bytes[i]));
    }
    lemma_line_length(bytes, bytes.len() as int);
}

/// What a reader reports tells the outcomes apart: the line itself, how long one
/// was that is too long, a line that was cut short, and the end of the stream.
pub proof fn law_reports_tell_outcomes_apart(r: Result<Vec<u8>, ProtocolError>, frame: Frame)
    requires
        reports(r, frame),
    ensures
        frame is Line <==> r is Ok,
        frame matches Frame::Line(line) ==> r->Ok_0@ == line,
        frame matches Frame::TooLarge(n) ==> r->Err_0 is FrameTooLarge
            && r->Err_0->FrameTooLarge_got == n && r->Err_0->FrameTooLarge_max == 16777216,
        frame is Partial ==> r->Err_0 is Io && r->Err_0->Io_kind == IoKind::UnexpectedEof
            && r->Err_0->Io_what@ == "partial line: no trailing newline"@,
        frame is End ==> r->Err_0 is Eof,
{
}

/// An error's description carries what the system or the decoder said, or the two
/// lengths.
pub proof fn law_wire_errors_say_what_happened(error: ProtocolError)
    ensures
        error matches ProtocolError::Io { kind, what } ==> error.text() == "io error: "@ + what@,
        error matches ProtocolError::Json(what) ==> error.text() == "json codec error: "@ + what@,
        error matches ProtocolError::FrameTooLarge { got, max } ==> error.text()
            == "frame too large: "@ + text::decimal(got as nat) + " bytes exceeds max "@
            + text::decimal(max as nat),
        error is Eof ==> error.text() == "peer closed the stream"@,
{
}

} // verus!
