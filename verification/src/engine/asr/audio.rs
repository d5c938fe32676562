//! Audio encoding for upload to the recogniser.
//!
//! * `wav`: the samples behind a RIFF/WAVE header.
//! * `opus`: 24 kbit/s Opus in an Ogg container.
//! * `opus:<bitrate>`: Opus at another bitrate, in bits per second or, with
//!   the suffix `k`, in thousands of them.

use crate::engine::asr::ogg;
use crate::text;
use vstd::prelude::*;

verus! {

/// Container and codec.
#[derive(Debug, Clone, Copy, PartialEq, Eq, Structural)]
pub enum AudioFormat {
    Wav,
    Opus { bitrate_bps: i32 },
}

/// What can go wrong with an audio format.
#[derive(Debug, Clone)]
pub enum AudioError {
    /// The text names no format.
    UnknownFormat(String),
    /// The text after `opus:` is no number.
    BadBitrate(String),
    /// The number after `opus:` is not above zero.
    BitrateNotPositive(i32),
    /// The packets of one page need this many segments, and a page takes 255.
    TooManySegments(usize),
}

impl AudioError {
    pub open spec fn text(&self) -> Seq<char> {
        match *self {
            AudioError::UnknownFormat(s) => "unknown audio format "@ + text::quoted(s@)
                + "; expected `wav`, `opus`, or `opus:<bitrate>` (e.g. `opus:24k`)"@,
            AudioError::BadBitrate(s) => "parsing bitrate "@ + text::quoted(s@),
            AudioError::BitrateNotPositive(n) => "bitrate must be positive, got "@
                + text::signed_decimal(n as int),
            AudioError::TooManySegments(n) => "ogg page has >255 segments ("@ + text::decimal(
                n as nat,
            ) + "); caller must split packets across pages"@,
        }
    }

    /// Describes the error.
    pub fn message(&self) -> (r: String)
        ensures
            r@ == self.text(),
    {
        match self {
            AudioError::UnknownFormat(s) => "unknown audio format ".to_owned().concat(
                text::quote(s.as_str()).as_str(),
            ).concat("; expected `wav`, `opus`, or `opus:<bitrate>` (e.g. `opus:24k`)"),
            AudioError::BadBitrate(s) => "parsing bitrate ".to_owned().concat(
                text::quote(s.as_str()).as_str(),
            ),
            AudioError::BitrateNotPositive(n) => "bitrate must be positive, got ".to_owned().concat(
                text::signed_decimal_of(*n).as_str(),
            ),
            AudioError::TooManySegments(n) => "ogg page has >255 segments (".to_owned().concat(
                text::decimal_of(*n as u64).as_str(),
            ).concat("); caller must split packets across pages"),
        }
    }
}

// ─── Parsing ───────────────────────────────────────────────────────────

/// Whether a bitrate is given in thousands.
pub open spec fn in_thousands(s: Seq<char>) -> bool {
    s.len() > 0 && (s.last() == 'k' || s.last() == 'K')
}

/// The digits of a bitrate.
pub open spec fn bitrate_digits(s: Seq<char>) -> Seq<char> {
    if in_thousands(s) {
        s.drop_last()
    } else {
        s
    }
}

/// The bitrate in bits per second, of a text whose digits denote a number.
pub open spec fn bitrate_value(s: Seq<char>) -> int {
    text::signed_value(bitrate_digits(s)) * (if in_thousands(s) {
        1000int
    } else {
        1
    })
}

/// Whether the digits denote a number of 32 bits.
pub open spec fn bitrate_is_number(s: Seq<char>) -> bool {
    text::denotes_within(bitrate_digits(s), i32::MIN as int, i32::MAX as int)
}

/// Whether a text that denotes a bitrate denotes one of 32 bits.
pub open spec fn bitrate_fits(s: Seq<char>) -> bool {
    bitrate_is_number(s) ==> bitrate_value(s) <= i32::MAX
}

/// The text after `opus:`.
pub open spec fn bitrate_part(s: Seq<char>) -> Option<Seq<char>> {
    if text::has_prefix(s, "opus:"@) || text::has_prefix(s, "OPUS:"@) {
        Some(text::trimmed(s.skip(5)))
    } else {
        None
    }
}

/// Whether the bitrate that a format names, if it names one, has 32 bits.
pub open spec fn format_fits(s: Seq<char>) -> bool {
    bitrate_part(text::trimmed(s)) matches Some(rate) ==> bitrate_fits(rate)
}

/// Reads a bitrate that has no whitespace around it.
fn parse_bitrate(s: String) -> (r: Result<i32, AudioError>)
    requires
        bitrate_fits(s@),
    ensures
        match r {
            Ok(rate) => bitrate_is_number(s@) && rate > 0 && rate == bitrate_value(s@),
            Err(AudioError::BadBitrate(what)) => !bitrate_is_number(s@) && what@ == s@,
            Err(AudioError::BitrateNotPositive(n)) => bitrate_is_number(s@) && n <= 0 && n
                == text::signed_value(bitrate_digits(s@)),
            Err(_) => false,
        },
{
    let v = text::chars_of(s.as_str());
    let thousands = v.len() > 0 && (v[v.len() - 1] == 'k' || v[v.len() - 1] == 'K');
    let digits = if thousands {
        text::drop_last_char(s.as_str())
    } else {
        s.clone()
    };
    match text::parse_i32(digits.as_str()) {
        Some(n) => if n <= 0 {
            Err(AudioError::BitrateNotPositive(n))
        } else if thousands {
            Ok(n * 1000)
        } else {
            Ok(n)
        },
        None => Err(AudioError::BadBitrate(s)),
    }
}

impl AudioFormat {
    /// Whether `from_str` can read the text: the bitrate that it names, if any,
    /// is not beyond 32 bits.
    pub fn is_readable(s: &str) -> (r: bool)
        ensures
            r == format_fits(s@),
    {
        let t = text::trim(s);
        proof {
            reveal_strlit("opus:");
            reveal_strlit("OPUS:");
        }
        if !text::starts_with(t.as_str(), "opus:") && !text::starts_with(t.as_str(), "OPUS:") {
            return true;
        }
        let rest = text::skip_chars(t.as_str(), 5);
        let rate = text::trim(rest.as_str());
        let v = text::chars_of(rate.as_str());
        if v.len() == 0 || (v[v.len() - 1] != 'k' && v[v.len() - 1] != 'K') {
            return true;
        }
        match text::parse_i32(text::drop_last_char(rate.as_str()).as_str()) {
            Some(n) => n <= 2147483,
            None => true,
        }
    }

    /// Reads a format.
    pub fn from_str(s: &str) -> (r: Result<AudioFormat, AudioError>)
        requires
            format_fits(s@),
        ensures
            ({
                let t = text::trimmed(s@);
                if text::same_but_case(t, "wav"@) {
                    r == Ok::<AudioFormat, AudioError>(AudioFormat::Wav)
                } else if text::same_but_case(t, "opus"@) {
                    r == Ok::<AudioFormat, AudioError>(AudioFormat::Opus { bitrate_bps: 24000 })
                } else {
                    match bitrate_part(t) {
                        Some(rate) => match r {
                            Ok(AudioFormat::Opus { bitrate_bps }) => bitrate_is_number(rate)
                                && bitrate_value(rate) > 0 && bitrate_bps == bitrate_value(rate),
                            Err(AudioError::BadBitrate(what)) => !bitrate_is_number(rate) && what@
                                == rate,
                            Err(AudioError::BitrateNotPositive(n)) => bitrate_is_number(rate) && n
                                <= 0 && n == text::signed_value(bitrate_digits(rate)),
                            _ => false,
                        },
                        None => r matches Err(AudioError::UnknownFormat(what)) && what@ == t,
                    }
                }
            }),
    {
        let t = text::trim(s);
        if text::eq_ignore_ascii_case(t.as_str(), "wav") {
            return Ok(AudioFormat::Wav);
        }
        if text::eq_ignore_ascii_case(t.as_str(), "opus") {
            return Ok(AudioFormat::Opus { bitrate_bps: 24000 });
        }
        proof {
            reveal_strlit("opus:");
            reveal_strlit("OPUS:");
        }
        if text::starts_with(t.as_str(), "opus:") || text::starts_with(t.as_str(), "OPUS:") {
            let rest = text::skip_chars(t.as_str(), 5);
            return match parse_bitrate(text::trim(rest.as_str())) {
                Ok(bitrate_bps) => Ok(AudioFormat::Opus { bitrate_bps }),
                Err(e) => Err(e),
            };
        }
        Err(AudioError::UnknownFormat(t))
    }

    /// Media type for the `data:` URI of a request.
    pub fn mime(self) -> (r: &'static str)
        ensures
            r@ == (match self {
                AudioFormat::Wav => "audio/wav"@,
                AudioFormat::Opus { .. } => "audio/ogg"@,
            }),
    {
        match self {
            AudioFormat::Wav => "audio/wav",
            AudioFormat::Opus { .. } => "audio/ogg",
        }
    }

    /// Puts PCM16 little-endian 16 kHz mono audio into the format. For Opus,
    /// `opus` is what the codec made of the [frames](ogg::opus_frames) of
    /// `pcm`.
    pub fn encode(self, pcm: &[u8], opus: &ogg::OpusEncoded) -> (r: Result<Vec<u8>, AudioError>)
        requires
            self is Opus ==> ogg::countable(opus.packets@.len()),
        ensures
            match self {
                AudioFormat::Wav => r matches Ok(bytes) && bytes@ == wav_file(pcm@),
                AudioFormat::Opus { .. } => match ogg::opus_file(
                    opus.lookahead,
                    ogg::views(opus.packets@),
                    opus.serial,
                ) {
                    Ok(file) => r matches Ok(bytes) && bytes@ == file,
                    Err(n) => r matches Err(AudioError::TooManySegments(got)) && got == n,
                },
            },
    {
        match self {
            AudioFormat::Wav => Ok(pcm16_to_wav_16k_mono(pcm)),
            AudioFormat::Opus { .. } => ogg::opus_to_ogg(opus),
        }
    }
}

// ─── WAV ───────────────────────────────────────────────────────────────

/// The bytes of `n`, least significant first, in `width` bytes. Higher bytes
/// are dropped.
pub open spec fn little_endian(n: nat, width: nat) -> Seq<u8>
    decreases width,
{
    if width == 0 {
        seq![]
    } else {
        seq![(n % 256) as u8] + little_endian(n / 256, (width - 1) as nat)
    }
}

/// Appends the bytes of `n`, least significant first.
pub fn push_little_endian(out: &mut Vec<u8>, n: u64, width: usize)
    ensures
        final(out)@ == old(out)@ + little_endian(n as nat, width as nat),
{
    let mut rest: u64 = n;
    let mut i: usize = 0;
    assert(out@ + little_endian(n as nat, width as nat) =~= old(out)@ + little_endian(
        n as nat,
        width as nat,
    ));
    while i < width
        invariant
            i <= width,
            out@ + little_endian(rest as nat, (width - i) as nat) == old(out)@ + little_endian(
                n as nat,
                width as nat,
            ),
        decreases width - i,
    {
        let ghost tail = little_endian((rest / 256) as nat, (width - i - 1) as nat);
        assert(out@ + (seq![(rest % 256) as u8] + tail) =~= out@.push((rest % 256) as u8) + tail);
        out.push((rest % 256) as u8);
        rest = rest / 256;
        i += 1;
    }
    assert(out@ + Seq::<u8>::empty() =~= out@);
}

/// The sizes in a header are 32 bits wide; one more than that is cut.
pub open spec fn wav_data_size(n: nat) -> nat {
    n % 0x1_0000_0000
}

/// The size of everything behind the first eight bytes.
pub open spec fn wav_riff_size(n: nat) -> nat {
    let size = 36 + wav_data_size(n);
    if size > u32::MAX {
        u32::MAX as nat
    } else {
        size
    }
}

/// The 44 bytes before `n` bytes of PCM16 16 kHz mono samples.
pub open spec fn wav_header(n: nat) -> Seq<u8> {
    seq![82u8, 73, 70, 70]  // RIFF
     + little_endian(wav_riff_size(n), 4) + seq![87u8, 65, 86, 69]  // WAVE
     + seq![102u8, 109, 116, 32]  // fmt
     + little_endian(16, 4) + little_endian(1, 2) + little_endian(1, 2) + little_endian(16000, 4)
        + little_endian(32000, 4) + little_endian(2, 2) + little_endian(16, 2) + seq![
        100u8,
        97,
        116,
        97,
    ]  // data
     + little_endian(wav_data_size(n), 4)
}

/// The samples behind their header.
pub open spec fn wav_file(pcm: Seq<u8>) -> Seq<u8> {
    wav_header(pcm.len()) + pcm
}

/// Appends four bytes.
pub(crate) fn push_four(out: &mut Vec<u8>, a: u8, b: u8, c: u8, d: u8)
    ensures
        final(out)@ == old(out)@ + seq![a, b, c, d],
{
    out.push(a);
    out.push(b);
    out.push(c);
    out.push(d);
    assert(out@ =~= old(out)@ + seq![a, b, c, d]);
}

/// Puts samples behind a RIFF/WAVE header.
pub fn pcm16_to_wav_16k_mono(pcm: &[u8]) -> (r: Vec<u8>)
    ensures
        r@ == wav_file(pcm@),
{
    let data_size: u64 = pcm.len() as u64 % 0x1_0000_0000;
    let riff_size: u64 = if 36 + data_size > 0xffff_ffff {
        0xffff_ffff
    } else {
        36 + data_size
    };
    let mut out: Vec<u8> = Vec::new();
    push_four(&mut out, 82, 73, 70, 70);
    push_little_endian(&mut out, riff_size, 4);
    push_four(&mut out, 87, 65, 86, 69);
    push_four(&mut out, 102, 109, 116, 32);
    push_little_endian(&mut out, 16, 4);
    push_little_endian(&mut out, 1, 2);
    push_little_endian(&mut out, 1, 2);
    push_little_endian(&mut out, 16000, 4);
    push_little_endian(&mut out, 32000, 4);
    push_little_endian(&mut out, 2, 2);
    push_little_endian(&mut out, 16, 2);
    push_four(&mut out, 100, 97, 116, 97);
    push_little_endian(&mut out, data_size, 4);
    assert(out@ =~= wav_header(pcm@.len()));
    out.extend_from_slice(pcm);
    assert(out@ =~= wav_file(pcm@));
    out
}

// ─── Laws ──────────────────────────────────────────────────────────────

/// The number that bytes hold, least significant first.
pub open spec fn number_in(bytes: Seq<u8>) -> nat
    decreases bytes.len(),
{
    if bytes.len() == 0 {
        0
    } else {
        bytes.first() as nat + 256 * number_in(bytes.drop_first())
    }
}

/// How many numbers fit in `width` bytes.
pub open spec fn numbers_of(width: nat) -> nat
    decreases width,
{
    if width == 0 {
        1
    } else {
        256 * numbers_of((width - 1) as nat)
    }
}

/// A number that fits reads back from its bytes.
pub proof fn law_little_endian_reads_back(n: nat, width: nat)
    ensures
        little_endian(n, width).len() == width,
        n < numbers_of(width) ==> number_in(little_endian(n, width)) == n,
    decreases width,
{
    if width > 0 {
        let less = (width - 1) as nat;
        law_little_endian_reads_back(n / 256, less);
        assert(little_endian(n, width).drop_first() =~= little_endian(n / 256, less));
    }
}

/// A WAV file holds the samples as they are, behind a header of 44 bytes that
/// names their size, and PCM of 16 bits, 16 kHz and one channel.
pub proof fn law_wav_holds_the_samples(pcm: Seq<u8>)
    ensures
        ({
            let file = wav_file(pcm);
            let size = pcm.len() % 0x1_0000_0000;
            &&& file.len() == 44 + pcm.len()
            &&& file.skip(44) == pcm
            &&& file.subrange(0, 4) == seq![0x52u8, 0x49, 0x46, 0x46]
            &&& file.subrange(8, 16) == seq![0x57u8, 0x41, 0x56, 0x45, 0x66, 0x6d, 0x74, 0x20]
            &&& file.subrange(36, 40) == seq![0x64u8, 0x61, 0x74, 0x61]
            &&& number_in(file.subrange(40, 44)) == size
            &&& number_in(file.subrange(4, 8)) == (if size + 36 > 0xffff_ffff {
                0xffff_ffff
            } else {
                size + 36
            })
            &&& number_in(file.subrange(16, 20)) == 16
            &&& number_in(file.subrange(20, 22)) == 1
            &&& number_in(file.subrange(22, 24)) == 1
            &&& number_in(file.subrange(24, 28)) == 16000
            &&& number_in(file.subrange(28, 32)) == 16000 * 2
            &&& number_in(file.subrange(32, 34)) == 2
            &&& number_in(file.subrange(34, 36)) == 16
        }),
{
    let file = wav_file(pcm);
    let n = pcm.len();
    reveal_with_fuel(numbers_of, 5);
    law_little_endian_reads_back(wav_riff_size(n), 4);
    law_little_endian_reads_back(16, 4);
    law_little_endian_reads_back(1, 2);
    law_little_endian_reads_back(16000, 4);
    law_little_endian_reads_back(32000, 4);
    law_little_endian_reads_back(2, 2);
    law_little_endian_reads_back(16, 2);
    law_little_endian_reads_back(wav_data_size(n), 4);
    assert(file.skip(44) =~= pcm);
    assert(file.subrange(0, 4) =~= seq![0x52u8, 0x49, 0x46, 0x46]);
    assert(file.subrange(4, 8) =~= little_endian(wav_riff_size(n), 4));
    assert(file.subrange(8, 16) =~= seq![0x57u8, 0x41, 0x56, 0x45, 0x66, 0x6d, 0x74, 0x20]);
    assert(file.subrange(16, 20) =~= little_endian(16, 4));
    assert(file.subrange(20, 22) =~= little_endian(1, 2));
    assert(file.subrange(22, 24) =~= little_endian(1, 2));
    assert(file.subrange(24, 28) =~= little_endian(16000, 4));
    assert(file.subrange(28, 32) =~= little_endian(32000, 4));
    assert(file.subrange(32, 34) =~= little_endian(2, 2));
    assert(file.subrange(34, 36) =~= little_endian(16, 2));
    assert(file.subrange(36, 40) =~= seq![0x64u8, 0x61, 0x74, 0x61]);
    assert(file.subrange(40, 44) =~= little_endian(wav_data_size(n), 4));
}

/// A bitrate is the number that is written, in bits per second, or a thousand
/// times as much with a `k` behind it.
pub proof fn law_bitrates_are_read_as_written(n: nat)
    ensures
        ({
            let digits = text::decimal(n);
            &&& bitrate_value(digits) == n
            &&& bitrate_value(digits.push('k')) == 1000 * n
            &&& bitrate_value(digits.push('K')) == 1000 * n
            &&& bitrate_is_number(digits) <==> n <= 0x7fff_ffff
            &&& bitrate_is_number(digits.push('k')) <==> n <= 0x7fff_ffff
            &&& bitrate_is_number(digits.push('K')) <==> n <= 0x7fff_ffff
            &&& bitrate_fits(digits.push('k')) <==> n > 0x7fff_ffff || 1000 * n <= 0x7fff_ffff
        }),
{
    let digits = text::decimal(n);
    text::law_numbers_read_back(n);
    assert(digits.push('k').drop_last() =~= digits);
    assert(digits.push('K').drop_last() =~= digits);
    assert('0' <= digits[digits.len() - 1] <= '9');
    assert('0' <= digits[0] <= '9');
}

/// What stands behind `opus:`, in small letters or in capitals, is the bitrate;
/// whitespace around it does not matter.
pub proof fn law_the_bitrate_stands_behind_opus(s: Seq<char>, rest: Seq<char>)
    ensures
        bitrate_part("opus:"@ + rest) == Some(text::trimmed(rest)),
        bitrate_part("OPUS:"@ + rest) == Some(text::trimmed(rest)),
        bitrate_part(s) is Some <==> s.len() >= 5 && (s.take(5) == "opus:"@ || s.take(5)
            == "OPUS:"@),
{
    reveal_strlit("opus:");
    reveal_strlit("OPUS:");
    assert(("opus:"@ + rest).take(5) =~= "opus:"@);
    assert(("opus:"@ + rest).skip(5) =~= rest);
    assert(("OPUS:"@ + rest).take(5) =~= "OPUS:"@);
    assert(("OPUS:"@ + rest).skip(5) =~= rest);
}

/// An error names what could not be used.
pub proof fn law_format_errors_name_the_culprit(error: AudioError)
    ensures
        error matches AudioError::UnknownFormat(s) ==> error.text() == "unknown audio format "@
            + text::quoted(s@)
            + "; expected `wav`, `opus`, or `opus:<bitrate>` (e.g. `opus:24k`)"@,
        error matches AudioError::BadBitrate(s) ==> error.text() == "parsing bitrate "@
            + text::quoted(s@),
        error matches AudioError::BitrateNotPositive(n) ==> error.text()
            == "bitrate must be positive, got "@ + text::signed_decimal(n as int),
        error matches AudioError::TooManySegments(n) ==> error.text()
            == "ogg page has >255 segments ("@ + text::decimal(n as nat)
            + "); caller must split packets across pages"@,
{
}

/// The digits of a bitrate are the text without a `k` behind it.
pub proof fn law_the_k_is_no_digit(s: Seq<char>)
    ensures
        bitrate_digits(s.push('k')) == s,
        bitrate_digits(s.push('K')) == s,
        s.len() > 0 && s.last() != 'k' && s.last() != 'K' ==> bitrate_digits(s) == s,
{
    assert(s.push('k').drop_last() =~= s);
    assert(s.push('K').drop_last() =~= s);
}

/// A format can be read unless it names a bitrate in thousands that goes beyond 32
/// bits.
pub proof fn law_only_huge_bitrates_cannot_be_read(n: nat)
    ensures
        format_fits("wav"@),
        format_fits("opus"@),
        format_fits("opus:"@ + text::decimal(n)),
        format_fits("opus:"@ + text::decimal(n).push('k')) <==> n > 0x7fff_ffff || 1000 * n
            <= 0x7fff_ffff,
{
    reveal_strlit("opus:");
    reveal_strlit("OPUS:");
    reveal_strlit("wav");
    reveal_strlit("opus");
    text::lemma_trimmed_already("wav"@);
    text::lemma_trimmed_already("opus"@);
    let digits = text::decimal(n);
    text::law_numbers_read_back(n);
    law_bitrates_are_read_as_written(n);
    assert('0' <= digits[digits.len() - 1] <= '9');
    assert('0' <= digits[0] <= '9');
    law_the_bitrate_stands_behind_opus(seq![], digits);
    law_the_bitrate_stands_behind_opus(seq![], digits.push('k'));
    let plain = "opus:"@ + digits;
    let thousands = "opus:"@ + digits.push('k');
    assert(plain.first() == 'o' && plain.last() == digits.last());
    assert(thousands.first() == 'o' && thousands.last() == 'k');
    text::lemma_trimmed_already(plain);
    text::lemma_trimmed_already(thousands);
    text::lemma_trimmed_already(digits);
    assert(digits.push('k').first() == digits[0]);
    text::lemma_trimmed_already(digits.push('k'));
}

} // verus!
