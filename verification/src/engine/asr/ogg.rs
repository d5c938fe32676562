//! Opus packets in an Ogg container.
//!
//! A stream has three kinds of pages: one with the `OpusHead` packet, one with
//! the `OpusTags` packet, and then audio pages of up to 50 packets of 20 ms.
//! The last page is marked as the end of the stream. Positions count samples
//! at 48 kHz, whatever the rate of the input.

use crate::engine::asr::audio::{self, push_four, push_little_endian, AudioError};
use crate::engine::vad::pcm;
use vstd::prelude::*;

verus! {

/// Samples per Opus frame of 20 ms at 16 kHz.
pub const OPUS_FRAME_SAMPLES_16K: usize = 320;

/// Samples per 20 ms at 48 kHz.
pub const OPUS_FRAME_SAMPLES_48K: u64 = 960;

/// Audio packets per page.
pub const PACKETS_PER_PAGE: usize = 50;

/// What the codec made of some audio.
#[derive(Debug, Clone)]
pub struct OpusEncoded {
    /// The codec's lookahead in samples at 16 kHz.
    pub lookahead: u32,
    /// One packet per frame.
    pub packets: Vec<Vec<u8>>,
    /// Serial number of the stream.
    pub serial: u32,
}

/// The bytes of each packet.
pub open spec fn views(packets: Seq<Vec<u8>>) -> Seq<Seq<u8>> {
    packets.map_values(|p: Vec<u8>| p@)
}

// ─── Frames for the codec ──────────────────────────────────────────────

/// The samples as whole frames. The last one is filled up with silence.
pub open spec fn framed(samples: Seq<i16>) -> Seq<Seq<i16>>
    decreases samples.len(),
{
    let n = OPUS_FRAME_SAMPLES_16K as int;
    if samples.len() == 0 {
        seq![]
    } else if samples.len() <= n {
        seq![samples + Seq::new((n - samples.len()) as nat, |i: int| 0i16)]
    } else {
        seq![samples.take(n)] + framed(samples.skip(n))
    }
}

/// The samples of each frame.
pub open spec fn frame_views(frames: Seq<Vec<i16>>) -> Seq<Seq<i16>> {
    frames.map_values(|f: Vec<i16>| f@)
}

/// Cuts PCM16 little-endian audio into the frames that the codec takes.
pub fn opus_frames(pcm_bytes: &[u8]) -> (r: Vec<Vec<i16>>)
    ensures
        frame_views(r@) == framed(pcm::samples_of(pcm_bytes@)),
{
    let mut rest: Vec<i16> = Vec::new();
    pcm::decode_into(&mut rest, pcm_bytes);
    let ghost all = pcm::samples_of(pcm_bytes@);
    assert(rest@ =~= all);
    let mut frames: Vec<Vec<i16>> = Vec::new();
    assert(frame_views(frames@) + framed(rest@) =~= framed(all));
    while rest.len() > OPUS_FRAME_SAMPLES_16K
        invariant
            frame_views(frames@) + framed(rest@) == framed(all),
        decreases rest@.len(),
    {
        let ghost before = frame_views(frames@);
        let ghost left = rest@;
        let tail = rest.split_off(OPUS_FRAME_SAMPLES_16K);
        assert(rest@ =~= left.take(OPUS_FRAME_SAMPLES_16K as int));
        assert(tail@ =~= left.skip(OPUS_FRAME_SAMPLES_16K as int));
        frames.push(rest);
        assert(frame_views(frames@) =~= before.push(rest@));
        assert(before + (seq![rest@] + framed(tail@)) =~= before.push(rest@) + framed(tail@));
        rest = tail;
    }
    let ghost before = frame_views(frames@);
    if rest.len() > 0 {
        let ghost left = rest@;
        while rest.len() < OPUS_FRAME_SAMPLES_16K
            invariant
                left.len() <= rest@.len() <= OPUS_FRAME_SAMPLES_16K,
                rest@ == left + Seq::new((rest@.len() - left.len()) as nat, |i: int| 0i16),
            decreases OPUS_FRAME_SAMPLES_16K - rest@.len(),
        {
            let ghost had = rest@;
            rest.push(0);
            assert(rest@ =~= left + Seq::new((rest@.len() - left.len()) as nat, |i: int| 0i16));
        }
        frames.push(rest);
        assert(frame_views(frames@) =~= before.push(rest@));
        assert(before + seq![rest@] =~= before.push(rest@));
    } else {
        assert(before + Seq::<Seq<i16>>::empty() =~= before);
    }
    frames
}

/// The lookahead in samples at 48 kHz, as far as 16 bits hold it.
pub open spec fn pre_skip(lookahead: u32) -> nat {
    if lookahead * 3 > 65535 {
        65535
    } else {
        (lookahead * 3) as nat
    }
}

// ─── Pages ─────────────────────────────────────────────────────────────

/// What a page is in its stream.
#[derive(Debug, Clone, Copy, PartialEq, Eq, Structural)]
pub enum OggHeader {
    Normal,
    /// The first page.
    Bos,
    /// The last page.
    Eos,
}

impl OggHeader {
    pub open spec fn flag(self) -> u8 {
        match self {
            OggHeader::Normal => 0,
            OggHeader::Bos => 2,
            OggHeader::Eos => 4,
        }
    }

    fn to_flag(self) -> (r: u8)
        ensures
            r == self.flag(),
    {
        match self {
            OggHeader::Normal => 0,
            OggHeader::Bos => 2,
            OggHeader::Eos => 4,
        }
    }
}

/// The segment sizes of a packet of `n` bytes: as many full ones as it needs
/// and a shorter one, which may be empty, at the end.
pub open spec fn lacing(n: nat) -> Seq<u8> {
    Seq::new(n / 255, |i: int| 255u8).push((n % 255) as u8)
}

/// The segment sizes of several packets.
pub open spec fn segment_table(packets: Seq<Seq<u8>>) -> Seq<u8>
    decreases packets.len(),
{
    if packets.len() == 0 {
        seq![]
    } else {
        segment_table(packets.drop_last()) + lacing(packets.last().len())
    }
}

/// The packets one after the other.
pub open spec fn payload(packets: Seq<Seq<u8>>) -> Seq<u8>
    decreases packets.len(),
{
    if packets.len() == 0 {
        seq![]
    } else {
        payload(packets.drop_last()) + packets.last()
    }
}

/// A page up to its checksum.
pub open spec fn page_start(header: OggHeader, granule: u64, serial: u32, seq_no: u32) -> Seq<u8> {
    seq![79u8, 103, 103, 83]  // OggS
     + seq![0u8, header.flag()] + audio::little_endian(granule as nat, 8) + audio::little_endian(
        serial as nat,
        4,
    ) + audio::little_endian(seq_no as nat, 4)
}

/// A page from behind its checksum.
pub open spec fn page_rest(packets: Seq<Seq<u8>>) -> Seq<u8> {
    seq![segment_table(packets).len() as u8] + segment_table(packets) + payload(packets)
}

/// The generator polynomial of the checksum, without its highest term.
pub const OGG_POLYNOMIAL: u32 = 0x04C1_1DB7;

/// The remainder after one more bit, the highest one first.
pub open spec fn crc_bit(crc: u32) -> u32 {
    if crc & 0x8000_0000 != 0 {
        (crc << 1) ^ OGG_POLYNOMIAL
    } else {
        crc << 1
    }
}

/// The remainder after `n` more bits.
pub open spec fn crc_bits(crc: u32, n: nat) -> u32
    decreases n,
{
    if n == 0 {
        crc
    } else {
        crc_bits(crc_bit(crc), (n - 1) as nat)
    }
}

/// The checksum of an Ogg page: the remainder of its bytes by the polynomial,
/// starting from zero, without reflection and without inversion.
pub open spec fn ogg_crc(bytes: Seq<u8>) -> u32
    decreases bytes.len(),
{
    if bytes.len() == 0 {
        0
    } else {
        crc_bits(ogg_crc(bytes.drop_last()) ^ ((bytes.last() as u32) << 24), 8)
    }
}

/// `Crc::checksum` of the `crc` crate for a 32-bit polynomial with the initial
/// value 0, no reflection and no final inversion: it is the remainder that
/// [`ogg_crc`] takes bit by bit.
#[verifier::external_body]
fn ogg_checksum(bytes: &[u8]) -> (r: u32)
    ensures
        r == ogg_crc(bytes@),
{
    crc::Crc::<u32>::new(
        &crc::Algorithm {
            width: 32,
            poly: OGG_POLYNOMIAL,
            init: 0,
            refin: false,
            refout: false,
            xorout: 0,
            check: 0x89a1897f,
            residue: 0,
        },
    ).checksum(bytes)
}

/// A page. Its checksum is taken over the page with zero in the checksum's
/// place.
pub open spec fn page(
    header: OggHeader,
    granule: u64,
    serial: u32,
    seq_no: u32,
    packets: Seq<Seq<u8>>,
) -> Seq<u8> {
    let start = page_start(header, granule, serial, seq_no);
    let rest = page_rest(packets);
    start + audio::little_endian(ogg_crc(start + audio::little_endian(0, 4) + rest) as nat, 4) + rest
}

/// Appends the segment sizes of a packet.
fn push_lacing(segments: &mut Vec<u8>, size: usize)
    ensures
        final(segments)@ == old(segments)@ + lacing(size as nat),
{
    let full: usize = size / 255;
    let mut i: usize = 0;
    while i < full
        invariant
            i <= full,
            segments@ == old(segments)@ + Seq::new(i as nat, |j: int| 255u8),
        decreases full - i,
    {
        segments.push(255);
        assert(segments@ =~= old(segments)@ + Seq::new((i + 1) as nat, |j: int| 255u8));
        i += 1;
    }
    segments.push((size % 255) as u8);
    assert(segments@ =~= old(segments)@ + lacing(size as nat));
}

/// Appends one page with the packets from `from` up to `to`. Refuses a page of
/// more than 255 segments and then writes nothing.
fn write_ogg_page(
    out: &mut Vec<u8>,
    header: OggHeader,
    granule_48k: u64,
    serial: u32,
    seq_no: u32,
    packets: &[Vec<u8>],
    from: usize,
    to: usize,
) -> (r: Result<(), AudioError>)
    requires
        from <= to <= packets@.len(),
    ensures
        ({
            let own = views(packets@).subrange(from as int, to as int);
            let n = segment_table(own).len();
            if n <= 255 {
                r is Ok && final(out)@ == old(out)@ + page(
                    header,
                    granule_48k,
                    serial,
                    seq_no,
                    own,
                )
            } else {
                (r matches Err(AudioError::TooManySegments(got)) && got == n) && final(out)@ == old(
                    out,
                )@
            }
        }),
{
    let ghost all = views(packets@);
    let ghost own = all.subrange(from as int, to as int);
    let mut segments: Vec<u8> = Vec::new();
    let mut body: Vec<u8> = Vec::new();
    let mut i: usize = from;
    assert(own.take(0) =~= Seq::<Seq<u8>>::empty());
    while i < to
        invariant
            from <= i <= to <= packets@.len(),
            all == views(packets@),
            own == all.subrange(from as int, to as int),
            segments@ == segment_table(own.take(i - from)),
            body@ == payload(own.take(i - from)),
        decreases to - i,
    {
        let ghost next = own.take(i - from + 1);
        assert(next.drop_last() =~= own.take(i - from));
        assert(next.last() == packets@[i as int]@);
        let ghost had = body@;
        push_lacing(&mut segments, packets[i].len());
        body.extend_from_slice(packets[i].as_slice());
        assert(body@ =~= had + packets@[i as int]@);
        i += 1;
    }
    assert(own.take(to - from) =~= own);
    if segments.len() > 255 {
        return Err(AudioError::TooManySegments(segments.len()));
    }
    let mut start: Vec<u8> = Vec::new();
    push_four(&mut start, 79, 103, 103, 83);
    start.push(0);
    start.push(header.to_flag());
    assert(start@ =~= seq![79u8, 103, 103, 83] + seq![0u8, header.flag()]);
    push_little_endian(&mut start, granule_48k, 8);
    push_little_endian(&mut start, serial as u64, 4);
    push_little_endian(&mut start, seq_no as u64, 4);
    assert(start@ =~= page_start(header, granule_48k, serial, seq_no));

    let mut rest: Vec<u8> = Vec::new();
    rest.push(segments.len() as u8);
    rest.extend_from_slice(segments.as_slice());
    rest.extend_from_slice(body.as_slice());
    assert(rest@ =~= page_rest(own));

    let mut blank: Vec<u8> = Vec::new();
    blank.extend_from_slice(start.as_slice());
    push_little_endian(&mut blank, 0, 4);
    blank.extend_from_slice(rest.as_slice());
    assert(blank@ =~= start@ + audio::little_endian(0, 4) + rest@);
    let crc: u32 = ogg_checksum(blank.as_slice());

    out.extend_from_slice(start.as_slice());
    push_little_endian(out, crc as u64, 4);
    out.extend_from_slice(rest.as_slice());
    assert(out@ =~= old(out)@ + page(header, granule_48k, serial, seq_no, own));
    Ok(())
}

// ─── The stream ────────────────────────────────────────────────────────

/// The `OpusHead` packet: version 1, one channel, the samples to skip at the
/// start, the input rate, no gain, channel mapping 0.
pub open spec fn opus_head(pre_skip_48k: nat) -> Seq<u8> {
    seq![79u8, 112, 117, 115, 72, 101, 97, 100]  // OpusHead
     + seq![1u8, 1] + audio::little_endian(pre_skip_48k, 2) + audio::little_endian(16000, 4) + audio::little_endian(0, 2)
        + seq![0u8]
}

/// The `OpusTags` packet: the vendor, and no comments.
pub open spec fn opus_tags() -> Seq<u8> {
    seq![79u8, 112, 117, 115, 84, 97, 103, 115]  // OpusTags
     + audio::little_endian(7, 4) + seq![97u8, 105, 114, 116, 97, 108, 107]  // airtalk
     + audio::little_endian(0, 4)
}

/// Whether so many packets can be numbered: each page has a number of 32 bits.
pub open spec fn countable(packets: nat) -> bool {
    (packets + 49) / 50 + 2 <= u32::MAX
}

/// The audio pages for the packets that are left, or the number of segments of
/// the first page that has too many. A stream without packets has one empty
/// audio page.
pub open spec fn audio_pages(
    packets: Seq<Seq<u8>>,
    granule: int,
    serial: u32,
    seq_no: int,
) -> Result<Seq<u8>, nat>
    decreases packets.len(),
{
    let most = PACKETS_PER_PAGE as int;
    let own = if packets.len() <= most {
        packets
    } else {
        packets.take(most)
    };
    let position = granule + own.len() * OPUS_FRAME_SAMPLES_48K;
    if segment_table(own).len() > 255 {
        Err(segment_table(own).len())
    } else if packets.len() <= most {
        Ok(page(OggHeader::Eos, position as u64, serial, seq_no as u32, own))
    } else {
        match audio_pages(packets.skip(most), position, serial, seq_no + 1) {
            Ok(rest) => Ok(
                page(OggHeader::Normal, position as u64, serial, seq_no as u32, own) + rest,
            ),
            Err(n) => Err(n),
        }
    }
}

/// The whole stream.
pub open spec fn opus_file(lookahead: u32, packets: Seq<Seq<u8>>, serial: u32) -> Result<
    Seq<u8>,
    nat,
> {
    let head = page(OggHeader::Bos, 0, serial, 0, seq![opus_head(pre_skip(lookahead))]);
    let tags = page(OggHeader::Normal, 0, serial, 1, seq![opus_tags()]);
    match audio_pages(packets, 0, serial, 2) {
        Ok(rest) => Ok(head + tags + rest),
        Err(n) => Err(n),
    }
}

fn build_opus_head(pre_skip_48k: u16) -> (r: Vec<u8>)
    ensures
        r@ == opus_head(pre_skip_48k as nat),
{
    let mut head: Vec<u8> = Vec::new();
    push_four(&mut head, 79, 112, 117, 115);
    push_four(&mut head, 72, 101, 97, 100);
    head.push(1);
    head.push(1);
    push_little_endian(&mut head, pre_skip_48k as u64, 2);
    push_little_endian(&mut head, 16000, 4);
    push_little_endian(&mut head, 0, 2);
    head.push(0);
    assert(head@ =~= opus_head(pre_skip_48k as nat));
    head
}

fn build_opus_tags() -> (r: Vec<u8>)
    ensures
        r@ == opus_tags(),
{
    let mut tags: Vec<u8> = Vec::new();
    push_four(&mut tags, 79, 112, 117, 115);
    push_four(&mut tags, 84, 97, 103, 115);
    push_little_endian(&mut tags, 7, 4);
    push_four(&mut tags, 97, 105, 114, 116);
    tags.push(97);
    tags.push(108);
    tags.push(107);
    push_little_endian(&mut tags, 0, 4);
    assert(tags@ =~= opus_tags());
    tags
}

/// A packet of less than 255 bytes makes a page of one segment.
proof fn lemma_short_packet(packet: Seq<u8>)
    requires
        packet.len() < 255,
    ensures
        segment_table(seq![packet]).len() == 1,
{
    reveal_with_fuel(segment_table, 2);
    assert((seq![packet]).drop_last() =~= Seq::<Seq<u8>>::empty());
    assert(packet.len() / 255 == 0);
}

proof fn lemma_little_endian_length(n: nat, width: nat)
    ensures
        audio::little_endian(n, width).len() == width,
    decreases width,
{
    if width > 0 {
        lemma_little_endian_length(n / 256, (width - 1) as nat);
    }
}

/// Appends a page with one packet of less than 255 bytes.
fn write_header_page(out: &mut Vec<u8>, header: OggHeader, serial: u32, seq_no: u32, packet: Vec<u8>)
    requires
        packet@.len() < 255,
    ensures
        final(out)@ == old(out)@ + page(header, 0, serial, seq_no, seq![packet@]),
{
    let mut packets: Vec<Vec<u8>> = Vec::new();
    packets.push(packet);
    assert(views(packets@).subrange(0, 1) =~= seq![packet@]);
    proof {
        lemma_short_packet(packet@);
    }
    let written = write_ogg_page(out, header, 0, serial, seq_no, packets.as_slice(), 0, 1);
}

/// Puts the codec's packets into an Ogg stream.
pub fn opus_to_ogg(opus: &OpusEncoded) -> (r: Result<Vec<u8>, AudioError>)
    requires
        countable(opus.packets@.len()),
    ensures
        match opus_file(opus.lookahead, views(opus.packets@), opus.serial) {
            Ok(file) => r matches Ok(bytes) && bytes@ == file,
            Err(n) => r matches Err(AudioError::TooManySegments(got)) && got == n,
        },
{
    let ghost all = views(opus.packets@);
    let serial: u32 = opus.serial;
    let pre_skip_48k: u16 = if opus.lookahead > 21845 {
        65535
    } else {
        (opus.lookahead * 3) as u16
    };
    proof {
        lemma_little_endian_length(pre_skip(opus.lookahead), 2);
        lemma_little_endian_length(16000, 4);
        lemma_little_endian_length(0, 2);
        lemma_little_endian_length(7, 4);
        lemma_little_endian_length(0, 4);
    }
    let mut out: Vec<u8> = Vec::new();
    write_header_page(&mut out, OggHeader::Bos, serial, 0, build_opus_head(pre_skip_48k));
    write_header_page(&mut out, OggHeader::Normal, serial, 1, build_opus_tags());

    let total: usize = opus.packets.len();
    let mut from: usize = 0;
    let mut granule: u64 = 0;
    let mut seq_no: u32 = 2;
    let ghost head = page(OggHeader::Bos, 0, serial, 0, seq![opus_head(pre_skip(opus.lookahead))]);
    let ghost tags = page(OggHeader::Normal, 0, serial, 1, seq![opus_tags()]);
    assert(out@ =~= head + tags);
    assert(all.skip(0) =~= all);
    while total - from > PACKETS_PER_PAGE
        invariant
            from <= total,
            total == opus.packets@.len(),
            all == views(opus.packets@),
            serial == opus.serial,
            countable(total as nat),
            granule == from * OPUS_FRAME_SAMPLES_48K,
            from == (seq_no - 2) * PACKETS_PER_PAGE,
            2 <= seq_no,
            match audio_pages(all.skip(from as int), granule as int, serial, seq_no as int) {
                Ok(rest) => opus_file(opus.lookahead, all, serial) == Ok::<Seq<u8>, nat>(
                    out@ + rest,
                ),
                Err(n) => opus_file(opus.lookahead, all, serial) == Err::<Seq<u8>, nat>(n),
            },
        decreases total - from,
    {
        let to: usize = from + PACKETS_PER_PAGE;
        let ghost left = all.skip(from as int);
        let ghost written = out@;
        assert(left.take(PACKETS_PER_PAGE as int) =~= all.subrange(from as int, to as int));
        assert(left.skip(PACKETS_PER_PAGE as int) =~= all.skip(to as int));
        granule = granule + PACKETS_PER_PAGE as u64 * OPUS_FRAME_SAMPLES_48K;
        match write_ogg_page(
            &mut out,
            OggHeader::Normal,
            granule,
            serial,
            seq_no,
            opus.packets.as_slice(),
            from,
            to,
        ) {
            Ok(_) => {},
            Err(e) => {
                return Err(e);
            },
        }
        proof {
            if let Ok(rest) = audio_pages(
                all.skip(to as int),
                granule as int,
                serial,
                seq_no + 1,
            ) {
                let own = all.subrange(from as int, to as int);
                let p = page(OggHeader::Normal, granule, serial, seq_no, own);
                assert(written + (p + rest) =~= (written + p) + rest);
            }
        }
        from = to;
        seq_no = seq_no + 1;
    }
    let ghost left = all.skip(from as int);
    let ghost written = out@;
    assert(left =~= all.subrange(from as int, total as int));
    granule = granule + (total - from) as u64 * OPUS_FRAME_SAMPLES_48K;
    match write_ogg_page(
        &mut out,
        OggHeader::Eos,
        granule,
        serial,
        seq_no,
        opus.packets.as_slice(),
        from,
        total,
    ) {
        Ok(_) => Ok(out),
        Err(e) => Err(e),
    }
}

/// The serial number of a stream: the seconds and nanoseconds of the time since
/// the epoch, mixed. A clock before the epoch gives 1.
pub fn derive_serial(since_epoch: Option<(u64, u32)>) -> (r: u32)
    ensures
        match since_epoch {
            Some((secs, nanos)) => r as int == (secs % 0x1_0000_0000 * 31 + nanos) % 0x1_0000_0000,
            None => r == 1,
        },
{
    match since_epoch {
        Some((secs, nanos)) => {
            let low: u64 = secs % 0x1_0000_0000;
            ((low * 31 + nanos as u64) % 0x1_0000_0000) as u32
        },
        None => 1,
    }
}

// ─── Laws ──────────────────────────────────────────────────────────────

/// The packet sizes that a reader takes out of a segment table: a packet ends
/// at the first segment that is not full. `open` is the size of the packet
/// that the table starts in the middle of.
pub open spec fn packet_sizes(table: Seq<u8>, open: nat) -> Seq<nat>
    decreases table.len(),
{
    if table.len() == 0 {
        seq![]
    } else if table.first() == 255 {
        packet_sizes(table.drop_first(), open + 255)
    } else {
        seq![open + table.first() as nat] + packet_sizes(table.drop_first(), 0)
    }
}

/// The sizes of packets.
pub open spec fn sizes(packets: Seq<Seq<u8>>) -> Seq<nat> {
    packets.map_values(|p: Seq<u8>| p.len())
}

/// A reader finds the packets' sizes in the segment table of their page.
pub proof fn law_packet_sizes_read_back(packets: Seq<Seq<u8>>)
    ensures
        packet_sizes(segment_table(packets), 0) == sizes(packets),
{
    lemma_sizes_from(packets, seq![]);
    assert(segment_table(packets) + Seq::<u8>::empty() =~= segment_table(packets));
    assert(sizes(packets) + Seq::<nat>::empty() =~= sizes(packets));
}

proof fn lemma_sizes_from(packets: Seq<Seq<u8>>, rest: Seq<u8>)
    ensures
        packet_sizes(segment_table(packets) + rest, 0) == sizes(packets) + packet_sizes(rest, 0),
    decreases packets.len(),
{
    if packets.len() == 0 {
        assert(segment_table(packets) + rest =~= rest);
        assert(sizes(packets) + packet_sizes(rest, 0) =~= packet_sizes(rest, 0));
    } else {
        let earlier = packets.drop_last();
        let n = packets.last().len();
        lemma_lacing_read(n, 0, rest);
        lemma_sizes_from(earlier, lacing(n) + rest);
        assert(segment_table(packets) + rest =~= segment_table(earlier) + (lacing(n) + rest));
        assert(sizes(earlier) + (seq![n] + packet_sizes(rest, 0)) =~= sizes(packets)
            + packet_sizes(rest, 0));
    }
}

proof fn lemma_lacing_read(n: nat, open: nat, rest: Seq<u8>)
    ensures
        packet_sizes(lacing(n) + rest, open) == seq![open + n] + packet_sizes(rest, 0),
    decreases n,
{
    let all = lacing(n) + rest;
    if n < 255 {
        assert(n / 255 == 0);
        assert(all.drop_first() =~= rest);
    } else {
        let less = (n - 255) as nat;
        assert(n / 255 == less / 255 + 1 && n % 255 == less % 255) by {
            assert(n == less + 255);
        }
        assert(all.drop_first() =~= lacing(less) + rest);
        lemma_lacing_read(less, open + 255, rest);
    }
}

/// The codec gets all of the audio, in order, in frames of 20 ms. Only silence is
/// added, at the end, to fill up the last frame. Returns how much.
pub proof fn law_the_codec_gets_all_audio(samples: Seq<i16>) -> (fill: nat)
    ensures
        fill < 320,
        samples_in(framed(samples)) == samples + Seq::new(fill, |i: int| 0i16),
        forall|k: int| 0 <= k < framed(samples).len() ==> (#[trigger] framed(samples)[k]).len()
            == 320,
    decreases samples.len(),
{
    let frames = framed(samples);
    if samples.len() == 0 {
        assert(samples + Seq::new(0, |i: int| 0i16) =~= Seq::<i16>::empty());
        0
    } else if samples.len() <= 320 {
        let fill = (320 - samples.len()) as nat;
        assert(frames.drop_first() =~= Seq::<Seq<i16>>::empty());
        assert(frames.first() + samples_in(seq![]) =~= frames.first());
        fill
    } else {
        let rest = samples.skip(320);
        let fill = law_the_codec_gets_all_audio(rest);
        let silence = Seq::new(fill, |i: int| 0i16);
        assert(frames.drop_first() =~= framed(rest));
        assert(samples.take(320) + (rest + silence) =~= samples + silence);
        assert forall|k: int| 0 <= k < frames.len() implies (#[trigger] frames[k]).len() == 320 by {
            if k > 0 {
                assert(frames[k] == framed(rest)[k - 1]);
            }
        }
        fill
    }
}

/// The samples of several frames, one after the other.
pub open spec fn samples_in(frames: Seq<Seq<i16>>) -> Seq<i16>
    decreases frames.len(),
{
    if frames.len() == 0 {
        seq![]
    } else {
        frames.first() + samples_in(frames.drop_first())
    }
}

/// The payload of a page is its packets, all of them and in order.
pub proof fn law_the_payload_is_the_packets(a: Seq<Seq<u8>>, b: Seq<Seq<u8>>, packet: Seq<u8>)
    ensures
        payload(seq![packet]) == packet,
        payload(a + b) == payload(a) + payload(b),
    decreases b.len(),
{
    assert((seq![packet]).drop_last() =~= Seq::<Seq<u8>>::empty());
    assert(payload(seq![]) =~= Seq::<u8>::empty());
    assert(payload(seq![packet]) =~= packet);
    if b.len() == 0 {
        assert(a + b =~= a);
        assert(payload(a) + Seq::<u8>::empty() =~= payload(a));
    } else {
        law_the_payload_is_the_packets(a, b.drop_last(), packet);
        assert((a + b).drop_last() =~= a + b.drop_last());
        assert(payload(a) + payload(b.drop_last()) + b.last() =~= payload(a) + (payload(
            b.drop_last(),
        ) + b.last()));
    }
}

/// What the bytes of a page say: the capture pattern, what the page is in its
/// stream, its position, the serial number and the page's own number, a checksum
/// over the page without it, the segment table, and the packets at the end.
pub proof fn law_a_page_says_what_it_holds(
    header: OggHeader,
    granule: u64,
    serial: u32,
    seq_no: u32,
    packets: Seq<Seq<u8>>,
)
    requires
        segment_table(packets).len() <= 255,
    ensures
        ({
            let p = page(header, granule, serial, seq_no, packets);
            let n = segment_table(packets).len() as int;
            let blank = p.take(22) + seq![0u8, 0, 0, 0] + p.skip(26);
            &&& p.len() == 27 + n + payload(packets).len()
            &&& p.subrange(0, 5) == seq![0x4fu8, 0x67, 0x67, 0x53, 0]
            &&& p[5] == (match header {
                OggHeader::Normal => 0u8,
                OggHeader::Bos => 2,
                OggHeader::Eos => 4,
            })
            &&& audio::number_in(p.subrange(6, 14)) == granule
            &&& audio::number_in(p.subrange(14, 18)) == serial
            &&& audio::number_in(p.subrange(18, 22)) == seq_no
            &&& audio::number_in(p.subrange(22, 26)) == ogg_crc(blank)
            &&& p[26] == n
            &&& packet_sizes(p.subrange(27, 27 + n), 0) == sizes(packets)
            &&& p.skip(27 + n) == payload(packets)
        }),
{
    let p = page(header, granule, serial, seq_no, packets);
    let table = segment_table(packets);
    let n = table.len() as int;
    let start = page_start(header, granule, serial, seq_no);
    let rest = page_rest(packets);
    let crc = ogg_crc(start + audio::little_endian(0, 4) + rest);
    reveal_with_fuel(audio::numbers_of, 9);
    audio::law_little_endian_reads_back(granule as nat, 8);
    audio::law_little_endian_reads_back(serial as nat, 4);
    audio::law_little_endian_reads_back(seq_no as nat, 4);
    audio::law_little_endian_reads_back(crc as nat, 4);
    audio::law_little_endian_reads_back(0, 4);
    law_packet_sizes_read_back(packets);
    reveal_with_fuel(audio::little_endian, 5);
    assert(audio::little_endian(0, 4) =~= seq![0u8, 0, 0, 0]);
    assert(start.len() == 22);
    assert(p.take(22) =~= start);
    assert(p.skip(26) =~= rest);
    assert(p.subrange(0, 5) =~= seq![0x4fu8, 0x67, 0x67, 0x53, 0]);
    assert(p.subrange(6, 14) =~= audio::little_endian(granule as nat, 8));
    assert(p.subrange(14, 18) =~= audio::little_endian(serial as nat, 4));
    assert(p.subrange(18, 22) =~= audio::little_endian(seq_no as nat, 4));
    assert(p.subrange(22, 26) =~= audio::little_endian(crc as nat, 4));
    assert(p.subrange(27, 27 + n) =~= table);
    assert(p.skip(27 + n) =~= payload(packets));
}

/// An audio page of a stream.
pub struct AudioPage {
    pub last: bool,
    pub packets: Seq<Seq<u8>>,
}

/// The packets of several pages, in order.
pub open spec fn packets_of(pages: Seq<AudioPage>) -> Seq<Seq<u8>>
    decreases pages.len(),
{
    if pages.len() == 0 {
        seq![]
    } else {
        pages.first().packets + packets_of(pages.drop_first())
    }
}

/// The bytes of several pages, numbered from `seq_no`, with `before` packets
/// before them. A page's position is 960 samples for each packet up to its end.
pub open spec fn bytes_of_pages(
    pages: Seq<AudioPage>,
    before: nat,
    serial: u32,
    seq_no: int,
) -> Seq<u8>
    decreases pages.len(),
{
    if pages.len() == 0 {
        seq![]
    } else {
        let first = pages.first();
        let behind = before + first.packets.len();
        page(
            if first.last {
                OggHeader::Eos
            } else {
                OggHeader::Normal
            },
            (960 * behind) as u64,
            serial,
            seq_no as u32,
            first.packets,
        ) + bytes_of_pages(pages.drop_first(), behind, serial, seq_no + 1)
    }
}

/// A stream holds every packet, in order: its audio pages have 50 packets each,
/// and the last one, which alone is marked as the end, has the rest. A stream is
/// refused only for a page of more than 255 segments. Returns the pages.
pub proof fn law_the_stream_holds_every_packet(
    packets: Seq<Seq<u8>>,
    before: nat,
    serial: u32,
    seq_no: int,
) -> (pages: Seq<AudioPage>)
    ensures
        packets_of(pages) == packets,
        pages.len() > 0,
        forall|k: int| 0 <= k < pages.len() ==> ((#[trigger] pages[k]).last <==> k == pages.len() - 1),
        forall|k: int| 0 <= k < pages.len() - 1 ==> (#[trigger] pages[k]).packets.len() == 50,
        pages.last().packets.len() <= 50,
        match audio_pages(packets, (960 * before) as int, serial, seq_no) {
            Ok(bytes) => bytes == bytes_of_pages(pages, before, serial, seq_no) && forall|k: int|
                0 <= k < pages.len() ==> segment_table((#[trigger] pages[k]).packets).len() <= 255,
            Err(n) => n > 255 && exists|k: int|
                0 <= k < pages.len() && segment_table((#[trigger] pages[k]).packets).len() == n,
        },
    decreases packets.len(),
{
    if packets.len() <= 50 {
        let pages = seq![AudioPage { last: true, packets }];
        assert(pages.drop_first() =~= Seq::<AudioPage>::empty());
        assert(packets + packets_of(seq![]) =~= packets);
        let own = page(
            OggHeader::Eos,
            (960 * (before + packets.len())) as u64,
            serial,
            seq_no as u32,
            packets,
        );
        assert(own + bytes_of_pages(seq![], before + packets.len(), serial, seq_no + 1) =~= own);
        assert(pages[0].packets == packets);
        pages
    } else {
        let own = packets.take(50);
        let left = packets.skip(50);
        let rest = law_the_stream_holds_every_packet(left, before + 50, serial, seq_no + 1);
        let first = AudioPage { last: false, packets: own };
        let pages = seq![first] + rest;
        assert(pages.drop_first() =~= rest);
        assert(own + left =~= packets);
        assert(pages[0] == first);
        assert forall|k: int| 1 <= k < pages.len() implies #[trigger] pages[k] == rest[k - 1] by {}
        assert forall|k: int| 0 <= k < pages.len() implies ((#[trigger] pages[k]).last <==> k
            == pages.len() - 1) by {
            if k > 0 {
                assert(pages[k] == rest[k - 1]);
            }
        }
        assert forall|k: int| 0 <= k < pages.len() - 1 implies (
        #[trigger] pages[k]).packets.len() == 50 by {
            if k > 0 {
                assert(pages[k] == rest[k - 1]);
            }
        }
        let result = audio_pages(packets, (960 * before) as int, serial, seq_no);
        if segment_table(own).len() > 255 {
            assert(segment_table(pages[0].packets).len() == segment_table(own).len());
        } else {
            match audio_pages(left, (960 * (before + 50)) as int, serial, seq_no + 1) {
                Ok(bytes) => {
                    assert forall|k: int| 0 <= k < pages.len() implies segment_table(
                        (#[trigger] pages[k]).packets,
                    ).len() <= 255 by {
                        if k > 0 {
                            assert(pages[k] == rest[k - 1]);
                        }
                    }
                },
                Err(n) => {
                    let k = choose|k: int|
                        0 <= k < rest.len() && segment_table((#[trigger] rest[k]).packets).len()
                            == n;
                    assert(pages[k + 1] == rest[k]);
                },
            }
        }
        pages
    }
}

/// A file starts with a page of its own for each of the two headers, at position
/// zero; the audio pages follow, numbered from two. The first header names one
/// channel, the codec's lookahead at 48 kHz and the input rate.
pub proof fn law_headers_come_first(lookahead: u32, packets: Seq<Seq<u8>>, serial: u32)
    ensures
        ({
            let head = opus_head(pre_skip(lookahead));
            &&& match audio_pages(packets, 0, serial, 2) {
                Ok(pages) => opus_file(lookahead, packets, serial) == Ok::<Seq<u8>, nat>(
                    page(OggHeader::Bos, 0, serial, 0, seq![head]) + page(
                        OggHeader::Normal,
                        0,
                        serial,
                        1,
                        seq![opus_tags()],
                    ) + pages,
                ),
                Err(n) => opus_file(lookahead, packets, serial) == Err::<Seq<u8>, nat>(n),
            }
            &&& head.len() == 19
            &&& head.take(10) == seq![0x4fu8, 0x70, 0x75, 0x73, 0x48, 0x65, 0x61, 0x64, 1, 1]
            &&& audio::number_in(head.subrange(10, 12)) == (if 3 * lookahead > 0xffff {
                0xffff
            } else {
                3 * lookahead as int
            })
            &&& audio::number_in(head.subrange(12, 16)) == 16000
            &&& head.skip(16) == seq![0u8, 0, 0]
            &&& opus_tags() == seq![
                0x4fu8,
                0x70,
                0x75,
                0x73,
                0x54,
                0x61,
                0x67,
                0x73,
                7,
                0,
                0,
                0,
                0x61,
                0x69,
                0x72,
                0x74,
                0x61,
                0x6c,
                0x6b,
                0,
                0,
                0,
                0,
            ]
        }),
{
    let skip = pre_skip(lookahead);
    let head = opus_head(skip);
    reveal_with_fuel(audio::numbers_of, 5);
    reveal_with_fuel(audio::little_endian, 5);
    audio::law_little_endian_reads_back(skip, 2);
    audio::law_little_endian_reads_back(16000, 4);
    audio::law_little_endian_reads_back(0, 2);
    audio::law_little_endian_reads_back(0, 4);
    audio::law_little_endian_reads_back(7, 4);
    assert(audio::little_endian(0, 2) =~= seq![0u8, 0]);
    assert(audio::little_endian(0, 4) =~= seq![0u8, 0, 0, 0]);
    assert(audio::little_endian(7, 4) =~= seq![7u8, 0, 0, 0]);
    assert(head.take(10) =~= seq![0x4fu8, 0x70, 0x75, 0x73, 0x48, 0x65, 0x61, 0x64, 1, 1]);
    assert(head.subrange(10, 12) =~= audio::little_endian(skip, 2));
    assert(head.subrange(12, 16) =~= audio::little_endian(16000, 4));
    assert(head.skip(16) =~= seq![0u8, 0, 0]);
}

/// Packets and frames keep their order and their contents.
pub proof fn law_packets_and_frames_keep_their_order(
    packets: Seq<Vec<u8>>,
    frames: Seq<Vec<i16>>,
    i: int,
)
    ensures
        views(packets).len() == packets.len(),
        0 <= i < packets.len() ==> views(packets)[i] == packets[i]@,
        frame_views(frames).len() == frames.len(),
        0 <= i < frames.len() ==> frame_views(frames)[i] == frames[i]@,
{
}

} // verus!
