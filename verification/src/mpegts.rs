//! The transport stream muxer: access units go in, one at a time, and come
//! out as a run of 188-byte packets behind the two program tables.

use vstd::prelude::*;
use vstd::slice::slice_subrange;
use vstd::std_specs::convert::FromSpecImpl;
use vstd::string::*;
use crate::codec::{
    pat_payload, pes_payload, pmt_payload, raw_payload, ts_packet_bytes, write_ts_packet,
};
use crate::packet::{
    AdaptationField, Bytes, ClockReference, ContinuityCounter, DescriptorView, Pat, Payload,
    PayloadView, Pes, PesHeader, PesView, Pid, Pmt, PmtView, StreamType, Timestamp, TsHeader,
    TsPacket, TsPacketView,
};
use crate::text::{decimal, push_decimal};

verus! {

/// Packet identifier of the program map table.
pub const PMT_PID: u16 = 256;

/// Packet identifier of the video elementary stream.
pub const VIDEO_ES_PID: u16 = 257;

/// Stream identifier of the video elementary stream.
pub const PES_VIDEO_STREAM_ID: u8 = 224;

/// Ticks of the 90 kHz clock in one millisecond.
pub const TICKS_PER_MS: u64 = 90;

/// Bytes of an access unit that go into its first packet, behind the
/// elementary stream header and beside a clock reference.
pub const FIRST_CHUNK_SIZE: usize = 152;

/// An input or output error of the standard library, carried as it came.
#[verifier::external_type_specification]
#[verifier::external_body]
pub struct ExIoError(std::io::Error);

/// What can go wrong while a transport stream is made.
#[derive(Debug)]
pub enum TsError {
    FileCreationFailed(std::io::Error),
    WriteError,
    InvalidPacketId(u16),
    InvalidTimestamp(u64),
    PayloadTooBig,
    ClockValueOutOfRange(u64),
    Mpeg2TsError(mpeg2ts::Error),
}

impl From<std::io::Error> for TsError {
    fn from(err: std::io::Error) -> (r: TsError) {
        TsError::FileCreationFailed(err)
    }
}

impl FromSpecImpl<std::io::Error> for TsError {
    open spec fn obeys_from_spec() -> bool {
        true
    }

    open spec fn from_spec(err: std::io::Error) -> TsError {
        TsError::FileCreationFailed(err)
    }
}

impl From<mpeg2ts::Error> for TsError {
    fn from(err: mpeg2ts::Error) -> (r: TsError) {
        TsError::Mpeg2TsError(err)
    }
}

impl FromSpecImpl<mpeg2ts::Error> for TsError {
    open spec fn obeys_from_spec() -> bool {
        true
    }

    open spec fn from_spec(err: mpeg2ts::Error) -> TsError {
        TsError::Mpeg2TsError(err)
    }
}

impl TsError {
    /// Whether `text` says what went wrong. Where the error came out of
    /// `mpeg2ts`, its own words, as it displays them, follow the name of
    /// their origin.
    pub open spec fn is_message(self, text: Seq<char>) -> bool {
        match self {
            TsError::FileCreationFailed(_) => text == "Failed to create TS file"@,
            TsError::WriteError => text == "Failed to write TS file"@,
            TsError::InvalidPacketId(pid) => text == "Packet ID "@ + decimal(pid as nat)
                + " is not valid"@,
            TsError::InvalidTimestamp(ts) => text == "Invalid timestamp "@ + decimal(ts as nat),
            TsError::PayloadTooBig => text == "Packet payload exceeded packet limit"@,
            TsError::ClockValueOutOfRange(ts) => text == "Clock reference value of "@ + decimal(
                ts as nat,
            ) + " exceeds maximum"@,
            TsError::Mpeg2TsError(e) => exists|inner: String|
                to_string_from_display_ensures::<mpeg2ts::Error>(&e, inner) && text
                    == "Mpeg2TsError: "@ + inner@,
        }
    }

    /// What went wrong, in words.
    pub fn message(&self) -> (text: String)
        ensures
            self.is_message(text@),
    {
        match self {
            TsError::FileCreationFailed(_) => String::from_str("Failed to create TS file"),
            TsError::WriteError => String::from_str("Failed to write TS file"),
            TsError::InvalidPacketId(pid) => {
                let mut text = String::from_str("Packet ID ");
                push_decimal(&mut text, *pid as u64);
                text.append(" is not valid");
                text
            },
            TsError::InvalidTimestamp(ts) => {
                let mut text = String::from_str("Invalid timestamp ");
                push_decimal(&mut text, *ts);
                text
            },
            TsError::PayloadTooBig => String::from_str("Packet payload exceeded packet limit"),
            TsError::ClockValueOutOfRange(ts) => {
                let mut text = String::from_str("Clock reference value of ");
                push_decimal(&mut text, *ts);
                text.append(" exceeds maximum");
                text
            },
            TsError::Mpeg2TsError(e) => {
                let mut text = String::from_str("Mpeg2TsError: ");
                let inner = e.to_string();
                text.append(inner.as_str());
                text
            },
        }
    }
}

/// `ms` milliseconds in ticks of the 90 kHz clock; `u64::MAX` where that is
/// more than sixty-four bits hold.
pub open spec fn ticks(ms: int) -> u64 {
    if ms * TICKS_PER_MS > u64::MAX {
        u64::MAX
    } else {
        (ms * TICKS_PER_MS) as u64
    }
}

/// The error that stops a sample with these times, if there is one: the clock
/// reference is looked at first, then the presentation time.
pub open spec fn time_error(timestamp: u64, composition_time: u64) -> Option<TsError> {
    if timestamp * TICKS_PER_MS > ClockReference::MAX {
        Some(TsError::ClockValueOutOfRange(ticks(timestamp as int)))
    } else if (timestamp + composition_time) * TICKS_PER_MS > Timestamp::MAX {
        Some(TsError::InvalidTimestamp(ticks(timestamp + composition_time)))
    } else {
        None
    }
}

/// Number of packets that carry an access unit of `len` bytes: one, and one
/// more for each 184 bytes, or part of them, beyond the first 152.
pub open spec fn packets_for_sample(len: nat) -> nat {
    if len <= FIRST_CHUNK_SIZE {
        1
    } else {
        1 + ((len - FIRST_CHUNK_SIZE + Bytes::MAX_SIZE - 1) / Bytes::MAX_SIZE as int) as nat
    }
}

/// Where the bytes of packet `i` of an access unit start.
pub open spec fn chunk_start(i: int) -> int {
    if i <= 0 {
        0
    } else {
        FIRST_CHUNK_SIZE + (i - 1) * Bytes::MAX_SIZE
    }
}

/// Where the bytes of packet `i` of an access unit of `len` bytes end.
pub open spec fn chunk_end(len: int, i: int) -> int {
    if FIRST_CHUNK_SIZE + i * Bytes::MAX_SIZE < len {
        FIRST_CHUNK_SIZE + i * Bytes::MAX_SIZE
    } else {
        len
    }
}

/// Header of a packet of the stream `pid`, with both flags off.
pub open spec fn ts_header(pid: u16, counter: ContinuityCounter) -> TsHeader {
    TsHeader {
        transport_error_indicator: false,
        transport_priority: false,
        pid: Pid { value: pid },
        continuity_counter: counter,
    }
}

/// First packet of an access unit: the elementary stream header with both
/// timestamps, the first bytes, and for a keyframe the clock reference under
/// a random access indicator.
pub open spec fn first_packet(
    counter: ContinuityCounter,
    timestamp: u64,
    composition_time: u64,
    keyframe: bool,
    video: Seq<u8>,
) -> TsPacketView {
    TsPacketView {
        header: ts_header(VIDEO_ES_PID, counter),
        adaptation_field: if keyframe {
            Some(
                AdaptationField {
                    discontinuity_indicator: false,
                    random_access_indicator: true,
                    es_priority_indicator: false,
                    pcr: Some(ClockReference { ticks: ticks(timestamp as int) }),
                },
            )
        } else {
            None
        },
        payload: PayloadView::Pes(
            PesView {
                header: PesHeader {
                    stream_id: PES_VIDEO_STREAM_ID,
                    priority: false,
                    data_alignment_indicator: false,
                    copyright: false,
                    original_or_copy: false,
                    pts: Timestamp { ticks: ticks(timestamp + composition_time) },
                    dts: Timestamp { ticks: ticks(timestamp as int) },
                    escr: None,
                },
                pes_packet_len: 0,
                data: video.subrange(0, chunk_end(video.len() as int, 0)),
            },
        ),
    }
}

/// Packet `i`, from one on, of an access unit: the next bytes and nothing else.
pub open spec fn continuation_packet(
    counter: ContinuityCounter,
    video: Seq<u8>,
    i: int,
) -> TsPacketView {
    TsPacketView {
        header: ts_header(VIDEO_ES_PID, counter.advance(i as nat)),
        adaptation_field: None,
        payload: PayloadView::Raw(video.subrange(chunk_start(i), chunk_end(video.len() as int, i))),
    }
}

/// The packets of one access unit, for a stream whose counter stands at
/// `counter`.
pub open spec fn sample_packets(
    counter: ContinuityCounter,
    timestamp: u64,
    composition_time: u64,
    keyframe: bool,
    video: Seq<u8>,
) -> Seq<TsPacketView> {
    Seq::new(
        packets_for_sample(video.len()),
        |i: int|
            if i == 0 {
                first_packet(counter, timestamp, composition_time, keyframe, video)
            } else {
                continuation_packet(counter, video, i)
            },
    )
}

/// The packets of an access unit behind its first, for a stream whose
/// counter stands at `counter` behind that first packet.
pub open spec fn continuation_packets(counter: ContinuityCounter, video: Seq<u8>) -> Seq<
    TsPacketView,
> {
    Seq::new(
        (packets_for_sample(video.len()) - 1) as nat,
        |i: int|
            TsPacketView {
                header: ts_header(VIDEO_ES_PID, counter.advance(i as nat)),
                adaptation_field: None,
                payload: PayloadView::Raw(
                    video.subrange(chunk_start(i + 1), chunk_end(video.len() as int, i + 1)),
                ),
            },
    )
}

/// The packet that announces the one program and where its map is.
pub open spec fn pat_packet() -> TsPacketView {
    TsPacketView {
        header: ts_header(0, ContinuityCounter { value: 0 }),
        adaptation_field: None,
        payload: PayloadView::Pat(
            Pat {
                transport_stream_id: 1,
                version_number: 0,
                program_num: 1,
                program_map_pid: Pid { value: PMT_PID },
            },
        ),
    }
}

/// The packet that announces the video stream of the program.
pub open spec fn pmt_packet() -> TsPacketView {
    TsPacketView {
        header: ts_header(PMT_PID, ContinuityCounter { value: 0 }),
        adaptation_field: None,
        payload: PayloadView::Pmt(
            PmtView {
                program_num: 1,
                pcr_pid: Pid { value: VIDEO_ES_PID },
                version_number: 0,
                program_info: Seq::empty(),
                stream_type: StreamType::H264,
                elementary_pid: Pid { value: VIDEO_ES_PID },
                descriptors: Seq::empty(),
            },
        ),
    }
}

/// The bytes of a run of packets, one after the other.
pub open spec fn stream_bytes(packets: Seq<TsPacketView>) -> Seq<u8>
    decreases packets.len(),
{
    if packets.len() == 0 {
        Seq::empty()
    } else {
        stream_bytes(packets.drop_last()) + ts_packet_bytes(packets.last())
    }
}

/// The bytes of access units that a run of packets carries, in order.
pub open spec fn carried(packets: Seq<TsPacketView>) -> Seq<u8>
    decreases packets.len(),
{
    if packets.len() == 0 {
        Seq::empty()
    } else {
        carried(packets.drop_last()) + packets.last().payload.data()
    }
}

/// Whether the bytes of each of `packets` are 188, open with its header and
/// end with the data of its payload.
pub open spec fn laid_out(packets: Seq<TsPacketView>) -> bool {
    forall|k: int|
        0 <= k < packets.len() ==> (#[trigger] packets[k]).is_laid_out(ts_packet_bytes(packets[k]))
}

/// One access unit with its times in milliseconds: when it is decoded, how
/// much later it is shown, and whether decoding can start at it.
#[derive(Debug)]
pub struct TimedSample {
    pub timestamp: u64,
    pub composition_time: u64,
    pub keyframe: bool,
    pub video: Vec<u8>,
}

/// The video packets of a run of access units, numbered from zero; or the
/// error of the first access unit whose time is out of range.
pub open spec fn built_packets(samples: Seq<TimedSample>) -> Result<Seq<TsPacketView>, TsError>
    decreases samples.len(),
{
    if samples.len() == 0 {
        Ok(Seq::empty())
    } else {
        match built_packets(samples.drop_last()) {
            Err(e) => Err(e),
            Ok(packets) => match time_error(
                samples.last().timestamp,
                samples.last().composition_time,
            ) {
                Some(e) => Err(e),
                None => Ok(
                    packets + sample_packets(
                        (ContinuityCounter { value: 0 }).advance(packets.len()),
                        samples.last().timestamp,
                        samples.last().composition_time,
                        samples.last().keyframe,
                        samples.last().video@,
                    ),
                ),
            },
        }
    }
}

/// Every packet is laid out within the format's limits and belongs to the
/// video stream, and the packets are numbered from zero without a gap,
/// fifteen followed by zero.
pub open spec fn numbered(packets: Seq<TsPacketView>) -> bool {
    forall|i: int|
        0 <= i < packets.len() ==> (#[trigger] packets[i]).wf() && packets[i].header == ts_header(
            VIDEO_ES_PID,
            (ContinuityCounter { value: 0 }).advance(i as nat),
        )
}

/// The payload of a packet, or `PayloadTooBig` for more bytes than one holds.
fn make_raw_payload(pes_data: &[u8]) -> (r: Result<Bytes, TsError>)
    ensures
        r is Ok <==> pes_data@.len() <= Bytes::MAX_SIZE,
        r matches Ok(bytes) ==> bytes@ == pes_data@,
        r matches Err(e) ==> e == TsError::PayloadTooBig,
{
    match Bytes::new(pes_data) {
        Some(bytes) => Ok(bytes),
        None => Err(TsError::PayloadTooBig),
    }
}

/// A timestamp, or `InvalidTimestamp` with the value that is out of range.
fn make_timestamp(ts: u64) -> (r: Result<Timestamp, TsError>)
    ensures
        r == (if ts <= Timestamp::MAX {
            Ok::<Timestamp, TsError>(Timestamp { ticks: ts })
        } else {
            Err(TsError::InvalidTimestamp(ts))
        }),
{
    match Timestamp::new(ts) {
        Some(timestamp) => Ok(timestamp),
        None => Err(TsError::InvalidTimestamp(ts)),
    }
}

/// A clock reference, or `ClockValueOutOfRange` with the value that is out
/// of range.
fn make_clock_reference(ts: u64) -> (r: Result<ClockReference, TsError>)
    ensures
        r == (if ts <= ClockReference::MAX {
            Ok::<ClockReference, TsError>(ClockReference { ticks: ts })
        } else {
            Err(TsError::ClockValueOutOfRange(ts))
        }),
{
    match ClockReference::new(ts) {
        Some(clock) => Ok(clock),
        None => Err(TsError::ClockValueOutOfRange(ts)),
    }
}

/// The header of a packet of the stream `pid`, its counter at zero.
fn default_ts_header(pid: u16) -> (r: Result<TsHeader, TsError>)
    ensures
        r == (if pid <= Pid::MAX {
            Ok::<TsHeader, TsError>(ts_header(pid, ContinuityCounter { value: 0 }))
        } else {
            Err(TsError::InvalidPacketId(pid))
        }),
{
    match Pid::new(pid) {
        Some(pid) => Ok(
            TsHeader {
                transport_error_indicator: false,
                transport_priority: false,
                pid,
                continuity_counter: ContinuityCounter::new(),
            },
        ),
        None => Err(TsError::InvalidPacketId(pid)),
    }
}

/// The packet of the program association table.
fn default_pat_packet() -> (r: TsPacket)
    ensures
        r@ == pat_packet(),
{
    TsPacket {
        header: default_ts_header(0).unwrap(),
        adaptation_field: None,
        payload: Payload::Pat(
            Pat {
                transport_stream_id: 1,
                version_number: 0,
                program_num: 1,
                program_map_pid: Pid::new(PMT_PID).unwrap(),
            },
        ),
    }
}

/// The packet of the program map table.
fn default_pmt_packet() -> (r: TsPacket)
    ensures
        r@ == pmt_packet(),
{
    let r = TsPacket {
        header: default_ts_header(PMT_PID).unwrap(),
        adaptation_field: None,
        payload: Payload::Pmt(
            Pmt {
                program_num: 1,
                pcr_pid: Pid::new(VIDEO_ES_PID).unwrap(),
                version_number: 0,
                program_info: Vec::new(),
                stream_type: StreamType::H264,
                elementary_pid: Pid::new(VIDEO_ES_PID).unwrap(),
                descriptors: Vec::new(),
            },
        ),
    };
    assert(r@.payload->Pmt_0.program_info =~= Seq::<DescriptorView>::empty());
    assert(r@.payload->Pmt_0.descriptors =~= Seq::<DescriptorView>::empty());
    r
}

/// Lays `packet` out in bytes at the end of `out`.
fn write_packet(out: &mut Vec<u8>, packet: &TsPacket) -> (r: Result<(), mpeg2ts::Error>)
    requires
        packet@.wf(),
    ensures
        r is Ok,
        final(out)@ == old(out)@ + ts_packet_bytes(packet@),
        packet@.is_laid_out(ts_packet_bytes(packet@)),
{
    let payload = match &packet.payload {
        Payload::Pat(pat) => pat_payload(pat),
        Payload::Pmt(pmt) => pmt_payload(pmt),
        Payload::Pes(pes) => pes_payload(pes),
        Payload::Raw(bytes) => raw_payload(bytes),
    };
    match payload {
        Ok(payload) => {
            let r = write_ts_packet(out, packet, payload);
            assert(out@.skip(old(out)@.len() as int) == ts_packet_bytes(packet@));
            r
        },
        Err(e) => Err(e),
    }
}

/// The bytes of a run of packets end with the bytes of its last packet.
pub proof fn lemma_stream_bytes_push(packets: Seq<TsPacketView>, packet: TsPacketView)
    ensures
        stream_bytes(packets.push(packet)) == stream_bytes(packets) + ts_packet_bytes(packet),
{
    assert(packets.push(packet).drop_last() == packets);
}

/// The first packet of an access unit, or the error of its times.
fn first_packet_of(
    header: TsHeader,
    timestamp: u64,
    composition_time: u64,
    keyframe: bool,
    video: &Vec<u8>,
) -> (r: Result<TsPacket, TsError>)
    requires
        header == ts_header(VIDEO_ES_PID, header.continuity_counter),
    ensures
        match time_error(timestamp, composition_time) {
            Some(e) => r == Err::<TsPacket, TsError>(e),
            None => r matches Ok(packet) && packet@ == first_packet(
                header.continuity_counter,
                timestamp,
                composition_time,
                keyframe,
                video@,
            ),
        },
{
    let len = video.len();
    let first_len = if len < FIRST_CHUNK_SIZE {
        len
    } else {
        FIRST_CHUNK_SIZE
    };
    let data = match make_raw_payload(slice_subrange(video.as_slice(), 0, first_len)) {
        Ok(data) => data,
        Err(e) => {
            return Err(e);
        },
    };

    let dts_ticks = match timestamp.checked_mul(TICKS_PER_MS) {
        Some(ticks) => ticks,
        None => {
            return Err(TsError::ClockValueOutOfRange(u64::MAX));
        },
    };
    let pcr = match make_clock_reference(dts_ticks) {
        Ok(pcr) => pcr,
        Err(e) => {
            return Err(e);
        },
    };
    let adaptation_field = if keyframe {
        Some(
            AdaptationField {
                discontinuity_indicator: false,
                random_access_indicator: true,
                es_priority_indicator: false,
                pcr: Some(pcr),
            },
        )
    } else {
        None
    };

    let pts_ticks = match timestamp.checked_add(composition_time) {
        Some(ms) => match ms.checked_mul(TICKS_PER_MS) {
            Some(ticks) => ticks,
            None => {
                return Err(TsError::InvalidTimestamp(u64::MAX));
            },
        },
        None => {
            return Err(TsError::InvalidTimestamp(u64::MAX));
        },
    };
    let pts = match make_timestamp(pts_ticks) {
        Ok(pts) => pts,
        Err(e) => {
            return Err(e);
        },
    };
    let dts = match make_timestamp(dts_ticks) {
        Ok(dts) => dts,
        Err(e) => {
            return Err(e);
        },
    };

    let pes = Pes {
        header: PesHeader {
            stream_id: PES_VIDEO_STREAM_ID,
            priority: false,
            data_alignment_indicator: false,
            copyright: false,
            original_or_copy: false,
            pts,
            dts,
            escr: None,
        },
        pes_packet_len: 0,
        data,
    };
    Ok(TsPacket { header, adaptation_field, payload: Payload::Pes(pes) })
}

/// The packets of an access unit are its first packet and, numbered on from
/// it, the packets behind the first.
proof fn lemma_sample_packets_split(
    counter: ContinuityCounter,
    timestamp: u64,
    composition_time: u64,
    keyframe: bool,
    video: Seq<u8>,
)
    requires
        counter.wf(),
    ensures
        sample_packets(counter, timestamp, composition_time, keyframe, video) == seq![
            first_packet(counter, timestamp, composition_time, keyframe, video),
        ] + continuation_packets(counter.advance(1), video),
        counter.advance(1).advance((packets_for_sample(video.len()) - 1) as nat) == counter.advance(
            packets_for_sample(video.len()),
        ),
{
    let whole = sample_packets(counter, timestamp, composition_time, keyframe, video);
    let parts = seq![first_packet(counter, timestamp, composition_time, keyframe, video)]
        + continuation_packets(counter.advance(1), video);
    lemma_advance_on(counter, 1, (packets_for_sample(video.len()) - 1) as nat);
    assert(whole.len() == parts.len());
    assert forall|i: int| 0 <= i < whole.len() implies whole[i] == parts[i] by {
        if i > 0 {
            lemma_advance_on(counter, 1, (i - 1) as nat);
            assert(whole[i] == continuation_packet(counter, video, i));
            assert(parts[i] == continuation_packets(counter.advance(1), video)[i - 1]);
        }
    }
    assert(whole =~= parts);
}

/// Counting on twice is counting on by the sum.
proof fn lemma_advance_on(counter: ContinuityCounter, n: nat, k: nat)
    requires
        counter.wf(),
    ensures
        counter.advance(n).advance(k) == counter.advance(n + k),
{
}

/// Counting on from a counter that has counted from zero is counting from zero.
pub proof fn lemma_advance_twice(n: nat, k: nat)
    ensures
        (ContinuityCounter { value: 0 }).advance(n).advance(k) == (ContinuityCounter {
            value: 0,
        }).advance(n + k),
{
}

/// The packets of an access unit whose times are in range are laid out
/// within the format's limits, and behind a well numbered run of video
/// packets they go on with its numbers.
pub proof fn lemma_sample_packets_wf(
    before: Seq<TsPacketView>,
    counter: ContinuityCounter,
    timestamp: u64,
    composition_time: u64,
    keyframe: bool,
    video: Seq<u8>,
)
    requires
        time_error(timestamp, composition_time) is None,
        counter == (ContinuityCounter { value: 0 }).advance(before.len()),
        numbered(before),
    ensures
        numbered(before + sample_packets(counter, timestamp, composition_time, keyframe, video)),
{
    let zero = ContinuityCounter { value: 0 };
    let made = sample_packets(counter, timestamp, composition_time, keyframe, video);
    let all = before + made;
    assert forall|i: int| 0 <= i < all.len() implies (#[trigger] all[i]).wf() && all[i].header
        == ts_header(VIDEO_ES_PID, zero.advance(i as nat)) by {
        if i >= before.len() {
            let k = i - before.len();
            assert(all[i] == made[k]);
            lemma_advance_twice(before.len(), k as nat);
        }
    }
}

/// One muxing session: the packets made so far for the video stream, and the
/// counter that numbers them.
pub struct TransportStream {
    video_continuity_counter: ContinuityCounter,
    packets: Vec<TsPacket>,
}

impl View for TransportStream {
    type V = Seq<TsPacketView>;

    /// The video packets made so far, in the order they were made.
    closed spec fn view(&self) -> Seq<TsPacketView> {
        Seq::new(self.packets@.len(), |i: int| self.packets@[i]@)
    }
}

impl TransportStream {
    /// The counter that the next video packet takes.
    pub closed spec fn counter(&self) -> ContinuityCounter {
        self.video_continuity_counter
    }

    /// The packets are well numbered, and the counter stands at the number
    /// of the next one.
    pub open spec fn wf(&self) -> bool {
        &&& self.counter() == (ContinuityCounter { value: 0 }).advance(self@.len())
        &&& numbered(self@)
    }

    /// A session without packets, its counter at zero.
    pub fn new() -> (r: Self)
        ensures
            r@ == Seq::<TsPacketView>::empty(),
            r.counter().value == 0,
            r.wf(),
    {
        let r = TransportStream {
            video_continuity_counter: ContinuityCounter::new(),
            packets: Vec::new(),
        };
        r
    }

    /// The video packets made so far.
    pub fn packets(&self) -> (r: &Vec<TsPacket>)
        ensures
            r@.len() == self@.len(),
            forall|i: int| 0 <= i < r@.len() ==> (#[trigger] r@[i])@ == self@[i],
    {
        &self.packets
    }

    /// Appends the packets that carry an access unit beyond its first 152
    /// bytes, and returns the header of the packet that would follow them.
    fn push_continuations(&mut self, header: TsHeader, video: &Vec<u8>) -> (r: Result<
        TsHeader,
        TsError,
    >)
        requires
            header == ts_header(VIDEO_ES_PID, header.continuity_counter),
            header.continuity_counter.wf(),
        ensures
            r matches Ok(next) && next == ts_header(
                VIDEO_ES_PID,
                header.continuity_counter.advance((packets_for_sample(video@.len()) - 1) as nat),
            ),
            final(self)@ == old(self)@ + continuation_packets(header.continuity_counter, video@),
            final(self).counter() == old(self).counter(),
    {
        let mut header = header;
        let ghost counter = header.continuity_counter;
        let ghost before = self@;
        let ghost made = continuation_packets(counter, video@);
        let len = video.len();
        let mut pos: usize = if len < FIRST_CHUNK_SIZE {
            len
        } else {
            FIRST_CHUNK_SIZE
        };
        let mut n: usize = 0;
        assert(self@ =~= before + made.take(0));
        while pos < len
            invariant
                len == video@.len(),
                0 <= n <= made.len(),
                pos == chunk_end(len as int, n as int),
                pos >= len ==> n == made.len(),
                counter.wf(),
                header == ts_header(VIDEO_ES_PID, counter.advance(n as nat)),
                made == continuation_packets(counter, video@),
                self@ == before + made.take(n as int),
                self.counter() == old(self).counter(),
            decreases len - pos,
        {
            let items = if len - pos < Bytes::MAX_SIZE {
                len - pos
            } else {
                Bytes::MAX_SIZE
            };
            let raw_payload = match make_raw_payload(
                slice_subrange(video.as_slice(), pos, pos + items),
            ) {
                Ok(raw_payload) => raw_payload,
                Err(e) => {
                    return Err(e);
                },
            };
            let packet = TsPacket {
                header,
                adaptation_field: None,
                payload: Payload::Raw(raw_payload),
            };
            assert(packet@ == made[n as int]);
            let ghost so_far = self@;
            self.packets.push(packet);
            header.continuity_counter.increment();
            assert(self@ =~= so_far.push(made[n as int]));
            assert(made.take(n as int).push(made[n as int]) =~= made.take(n + 1));
            pos = pos + items;
            n = n + 1;
        }
        assert(made.take(n as int) == made);
        Ok(header)
    }

    /// Cuts one access unit into packets and appends them: the first with
    /// the elementary stream header and at most 152 bytes, each later one
    /// with at most 184 bytes. `timestamp` and `composition_time` are in
    /// milliseconds. Where a time is out of range nothing is appended.
    pub fn push_video(
        &mut self,
        timestamp: u64,
        composition_time: u64,
        keyframe: bool,
        video: Vec<u8>,
    ) -> (r: Result<(), TsError>)
        requires
            old(self).wf(),
        ensures
            final(self).wf(),
            match time_error(timestamp, composition_time) {
                Some(e) => r == Err::<(), TsError>(e) && final(self)@ == old(self)@
                    && final(self).counter() == old(self).counter(),
                None => r is Ok && final(self)@ == old(self)@ + sample_packets(
                    old(self).counter(),
                    timestamp,
                    composition_time,
                    keyframe,
                    video@,
                ),
            },
    {
        let mut header = match default_ts_header(VIDEO_ES_PID) {
            Ok(header) => header,
            Err(e) => {
                return Err(e);
            },
        };
        header.continuity_counter = self.video_continuity_counter;

        let packet = match first_packet_of(header, timestamp, composition_time, keyframe, &video) {
            Ok(packet) => packet,
            Err(e) => {
                return Err(e);
            },
        };

        let ghost before = self@;
        let ghost counter = self.video_continuity_counter;
        self.packets.push(packet);
        header.continuity_counter.increment();
        assert(self@ =~= before.push(packet@));

        let header = match self.push_continuations(header, &video) {
            Ok(header) => header,
            Err(e) => {
                return Err(e);
            },
        };

        self.video_continuity_counter = header.continuity_counter;
        proof {
            let made = sample_packets(counter, timestamp, composition_time, keyframe, video@);
            lemma_sample_packets_split(counter, timestamp, composition_time, keyframe, video@);
            assert(self@ =~= before + made);
            lemma_advance_twice(before.len(), made.len());
            lemma_sample_packets_wf(before, counter, timestamp, composition_time, keyframe, video@);
        }
        Ok(())
    }

    /// Appends to `wrt` the two program tables and then every packet made so
    /// far, each in 188 bytes.
    pub fn write_to(&mut self, wrt: Vec<u8>) -> (r: Result<Vec<u8>, TsError>)
        requires
            old(self).wf(),
        ensures
            final(self)@ == old(self)@,
            final(self).counter() == old(self).counter(),
            r matches Ok(out) && out@ == wrt@ + stream_bytes(
                seq![pat_packet(), pmt_packet()] + old(self)@,
            ) && out@.len() == wrt@.len() + TsPacket::SIZE * (2 + old(self)@.len()),
            laid_out(seq![pat_packet(), pmt_packet()] + old(self)@),
    {
        let mut out = wrt;
        let ghost tables = seq![pat_packet(), pmt_packet()];
        proof {
            lemma_stream_bytes_push(Seq::empty(), pat_packet());
            lemma_stream_bytes_push(seq![pat_packet()], pmt_packet());
            assert(seq![pat_packet()].push(pmt_packet()) == tables);
        }
        let pat = default_pat_packet();
        match write_packet(&mut out, &pat) {
            Ok(()) => {},
            Err(_) => {
                return Err(TsError::WriteError);
            },
        }
        let pmt = default_pmt_packet();
        match write_packet(&mut out, &pmt) {
            Ok(()) => {},
            Err(_) => {
                return Err(TsError::WriteError);
            },
        }
        let mut i: usize = 0;
        while i < self.packets.len()
            invariant
                i <= self.packets@.len(),
                self.wf(),
                tables == seq![pat_packet(), pmt_packet()],
                out@ == wrt@ + stream_bytes(tables + self@.take(i as int)),
                out@.len() == wrt@.len() + TsPacket::SIZE * (2 + i),
                laid_out(tables + self@.take(i as int)),
            decreases self.packets@.len() - i,
        {
            proof {
                lemma_stream_bytes_push(tables + self@.take(i as int), self@[i as int]);
                assert((tables + self@.take(i as int)).push(self@[i as int]) == tables + self@.take(
                    i + 1,
                ));
            }
            match write_packet(&mut out, &self.packets[i]) {
                Ok(()) => {},
                Err(e) => {
                    return Err(TsError::from(e));
                },
            }
            i += 1;
        }
        assert(self@.take(i as int) == self@);
        Ok(out)
    }
}

impl Default for TransportStream {
    fn default() -> (r: Self)
        ensures
            r@ == Seq::<TsPacketView>::empty(),
            r.counter().value == 0,
            r.wf(),
    {
        TransportStream::new()
    }
}

/// An error at one access unit is the error of every longer run.
pub proof fn lemma_build_error(samples: Seq<TimedSample>, i: int)
    requires
        0 <= i < samples.len(),
        built_packets(samples.take(i + 1)) is Err,
    ensures
        built_packets(samples) == built_packets(samples.take(i + 1)),
    decreases samples.len(),
{
    if i + 1 == samples.len() {
        assert(samples.take(i + 1) == samples);
    } else {
        assert(samples.drop_last().take(i + 1) == samples.take(i + 1));
        lemma_build_error(samples.drop_last(), i);
    }
}

/// Builds one segment: the two program tables, then the packets of each
/// access unit in order, in a session of its own, so that the counter
/// starts at zero.
pub fn build(samples: &[TimedSample]) -> (r: Result<Vec<u8>, TsError>)
    ensures
        match built_packets(samples@) {
            Ok(packets) => r matches Ok(data) && data@ == stream_bytes(
                seq![pat_packet(), pmt_packet()] + packets,
            ) && data@.len() == TsPacket::SIZE * (2 + packets.len()) && laid_out(
                seq![pat_packet(), pmt_packet()] + packets,
            ),
            Err(e) => r == Err::<Vec<u8>, TsError>(e),
        },
{
    let mut ts = TransportStream::new();
    let mut i: usize = 0;
    while i < samples.len()
        invariant
            i <= samples@.len(),
            ts.wf(),
            built_packets(samples@.take(i as int)) == Ok::<Seq<TsPacketView>, TsError>(ts@),
        decreases samples@.len() - i,
    {
        let sample = &samples[i];
        assert(samples@.take(i + 1).drop_last() == samples@.take(i as int));
        match ts.push_video(
            sample.timestamp,
            sample.composition_time,
            sample.keyframe,
            sample.video.clone(),
        ) {
            Ok(()) => {},
            Err(e) => {
                proof {
                    lemma_build_error(samples@, i as int);
                }
                return Err(e);
            },
        }
        i += 1;
    }
    assert(samples@.take(i as int) == samples@);
    ts.write_to(Vec::new())
}

} // verus!
