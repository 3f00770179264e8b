//! The data model of a transport stream: packets, their headers and payloads,
//! each with the range the format allows for it.

use vstd::prelude::*;
use vstd::slice::slice_to_vec;

verus! {

/// Packet identifier: thirteen bits.
#[derive(Clone, Copy, Debug, PartialEq, Eq, Structural)]
pub struct Pid {
    pub value: u16,
}

impl Pid {
    /// Largest packet identifier.
    pub const MAX: u16 = 0x1FFF;

    /// The identifier fits in thirteen bits.
    pub open spec fn wf(self) -> bool {
        self.value <= Pid::MAX
    }

    /// A packet identifier, or `None` where `pid` does not fit in thirteen bits.
    pub fn new(pid: u16) -> (r: Option<Pid>)
        ensures
            r == (if pid <= Pid::MAX {
                Some(Pid { value: pid })
            } else {
                None
            }),
    {
        if pid > Pid::MAX {
            None
        } else {
            Some(Pid { value: pid })
        }
    }
}

/// Four-bit counter that numbers the packets of one elementary stream.
#[derive(Clone, Copy, Debug, PartialEq, Eq, Structural)]
pub struct ContinuityCounter {
    pub value: u8,
}

impl ContinuityCounter {
    /// Number of values the counter takes before it starts again at zero.
    pub const MODULUS: u8 = 16;

    /// The counter fits in four bits.
    pub open spec fn wf(self) -> bool {
        self.value < ContinuityCounter::MODULUS
    }

    /// The counter after `n` further packets.
    pub open spec fn advance(self, n: nat) -> ContinuityCounter {
        ContinuityCounter { value: ((self.value + n) % 16) as u8 }
    }

    /// A counter at zero.
    pub fn new() -> (r: ContinuityCounter)
        ensures
            r.value == 0,
            r.wf(),
    {
        ContinuityCounter { value: 0 }
    }

    /// Steps to the next value; fifteen is followed by zero.
    pub fn increment(&mut self)
        requires
            old(self).wf(),
        ensures
            *final(self) == old(self).advance(1),
            final(self).wf(),
    {
        if self.value == 15 {
            self.value = 0;
        } else {
            self.value = self.value + 1;
        }
    }
}

/// Presentation or decode time in ticks of 90 kHz: thirty-three bits.
#[derive(Clone, Copy, Debug, PartialEq, Eq, Structural)]
pub struct Timestamp {
    pub ticks: u64,
}

impl Timestamp {
    /// Largest timestamp.
    pub const MAX: u64 = 0x1_FFFF_FFFF;

    /// The timestamp fits in thirty-three bits.
    pub open spec fn wf(self) -> bool {
        self.ticks <= Timestamp::MAX
    }

    /// A timestamp, or `None` where `n` does not fit in thirty-three bits.
    pub fn new(n: u64) -> (r: Option<Timestamp>)
        ensures
            r == (if n <= Timestamp::MAX {
                Some(Timestamp { ticks: n })
            } else {
                None
            }),
    {
        if n > Timestamp::MAX {
            None
        } else {
            Some(Timestamp { ticks: n })
        }
    }
}

/// Program clock reference: a thirty-three bit base, counted in units of 300,
/// and an extension below 300 in nine bits.
#[derive(Clone, Copy, Debug, PartialEq, Eq, Structural)]
pub struct ClockReference {
    pub ticks: u64,
}

impl ClockReference {
    /// Largest clock reference.
    pub const MAX: u64 = 0x1_FFFF_FFFF * 300 + 0x1FF;

    /// First number that is too large for the base of a clock reference.
    pub const BASE_LIMIT: u64 = 0x2_0000_0000;

    /// The clock reference is at most `ClockReference::MAX`.
    pub open spec fn wf(self) -> bool {
        self.ticks <= ClockReference::MAX
    }

    /// A clock reference, or `None` where `n` is above `ClockReference::MAX`.
    pub fn new(n: u64) -> (r: Option<ClockReference>)
        ensures
            r == (if n <= ClockReference::MAX {
                Some(ClockReference { ticks: n })
            } else {
                None
            }),
    {
        if n > ClockReference::MAX {
            None
        } else {
            Some(ClockReference { ticks: n })
        }
    }
}

/// A run of payload bytes that fits in one packet beside its four-byte header.
#[derive(Debug)]
pub struct Bytes {
    pub data: Vec<u8>,
}

impl View for Bytes {
    type V = Seq<u8>;

    open spec fn view(&self) -> Seq<u8> {
        self.data@
    }
}

impl Bytes {
    /// Largest payload of one packet.
    pub const MAX_SIZE: usize = 184;

    /// A copy of `bytes`, or `None` where they are more than `Bytes::MAX_SIZE`.
    pub fn new(bytes: &[u8]) -> (r: Option<Bytes>)
        ensures
            r.is_some() <==> bytes@.len() <= Bytes::MAX_SIZE,
            r.is_some() ==> r.unwrap()@ == bytes@,
    {
        if bytes.len() > Bytes::MAX_SIZE {
            None
        } else {
            Some(Bytes { data: slice_to_vec(bytes) })
        }
    }
}

/// The four bytes that open every packet, but for the two flags that depend
/// on what follows them.
#[derive(Clone, Copy, Debug, PartialEq, Eq, Structural)]
pub struct TsHeader {
    pub transport_error_indicator: bool,
    pub transport_priority: bool,
    pub pid: Pid,
    pub continuity_counter: ContinuityCounter,
}

impl TsHeader {
    /// Identifier and counter are in their ranges.
    pub open spec fn wf(self) -> bool {
        self.pid.wf() && self.continuity_counter.wf()
    }

    /// Whether `bytes` open with this header: the sync byte, then the error
    /// flag, the priority flag and the identifier in two bytes, then the
    /// counter in the low half of the fourth byte under two bits that say
    /// that nothing is scrambled. The bits left out say what follows.
    pub open spec fn opens(self, bytes: Seq<u8>) -> bool {
        &&& bytes.len() >= 4
        &&& bytes[0] == 0x47
        &&& (bytes[1] >= 128) == self.transport_error_indicator
        &&& (bytes[1] / 32 % 2 == 1) == self.transport_priority
        &&& (bytes[1] % 32) * 256 + bytes[2] == self.pid.value
        &&& bytes[3] < 64
        &&& bytes[3] % 16 == self.continuity_counter.value
    }
}

/// Optional field between header and payload. Here it carries the flags and
/// the program clock reference, no more.
#[derive(Clone, Copy, Debug, PartialEq, Eq, Structural)]
pub struct AdaptationField {
    pub discontinuity_indicator: bool,
    pub random_access_indicator: bool,
    pub es_priority_indicator: bool,
    pub pcr: Option<ClockReference>,
}

impl AdaptationField {
    /// The clock reference, where there is one, is in its range, and its
    /// base, the whole units of 300 in it, fits in thirty-three bits: the
    /// six bytes of the field have room for no more.
    pub open spec fn wf(self) -> bool {
        self.pcr matches Some(pcr) ==> pcr.wf() && pcr.ticks / 300 < ClockReference::BASE_LIMIT
    }

    /// Whether `flags` is the byte of flags of this field: from the top bit
    /// down the discontinuity indicator, the random access indicator, the
    /// priority indicator and whether a clock reference follows. The four
    /// low bits announce what this field never holds.
    pub open spec fn has_flags(self, flags: u8) -> bool {
        &&& (flags >= 128) == self.discontinuity_indicator
        &&& (flags / 64 % 2 == 1) == self.random_access_indicator
        &&& (flags / 32 % 2 == 1) == self.es_priority_indicator
        &&& (flags / 16 % 2 == 1) == (self.pcr is Some)
        &&& flags % 16 == 0
    }

    /// Bytes the field takes in a packet before any stuffing: its length byte,
    /// its flags, and six bytes for a clock reference.
    pub open spec fn size(self) -> nat {
        if self.pcr is Some {
            8
        } else {
            2
        }
    }
}

/// Header of a packetized elementary stream, with both timestamps and,
/// where the stream has one, a clock reference of its own.
#[derive(Clone, Copy, Debug, PartialEq, Eq, Structural)]
pub struct PesHeader {
    pub stream_id: u8,
    pub priority: bool,
    pub data_alignment_indicator: bool,
    pub copyright: bool,
    pub original_or_copy: bool,
    pub pts: Timestamp,
    pub dts: Timestamp,
    pub escr: Option<ClockReference>,
}

impl PesHeader {
    /// Bytes the header takes without a clock reference: nine, and five for
    /// each timestamp.
    pub const SIZE: usize = 19;

    /// Bytes the header takes: six more with a clock reference.
    pub open spec fn size(self) -> nat {
        if self.escr is Some {
            (PesHeader::SIZE + 6) as nat
        } else {
            PesHeader::SIZE as nat
        }
    }

    /// Both timestamps and the clock reference are in their ranges.
    pub open spec fn wf(self) -> bool {
        self.pts.wf() && self.dts.wf() && (self.escr matches Some(escr) ==> escr.wf())
    }
}

/// Start of a packetized elementary stream packet: its header and the first
/// bytes of the access unit.
#[derive(Debug)]
pub struct Pes {
    pub header: PesHeader,
    pub pes_packet_len: u16,
    pub data: Bytes,
}

/// What a `Pes` holds.
pub struct PesView {
    pub header: PesHeader,
    pub pes_packet_len: u16,
    pub data: Seq<u8>,
}

impl View for Pes {
    type V = PesView;

    open spec fn view(&self) -> PesView {
        PesView { header: self.header, pes_packet_len: self.pes_packet_len, data: self.data@ }
    }
}

/// Largest version number of a table: five bits.
pub const VERSION_MAX: u8 = 31;

/// Program association table with one program.
#[derive(Clone, Copy, Debug, PartialEq, Eq, Structural)]
pub struct Pat {
    pub transport_stream_id: u16,
    pub version_number: u8,
    pub program_num: u16,
    pub program_map_pid: Pid,
}

/// Kind of elementary stream that a program map table announces.
#[derive(Clone, Copy, Debug, PartialEq, Eq, Structural)]
pub enum StreamType {
    H264,
}

/// A note on a program or on an elementary stream: a tag and its bytes.
#[derive(Debug)]
pub struct Descriptor {
    pub tag: u8,
    pub data: Vec<u8>,
}

/// What a `Descriptor` holds.
pub struct DescriptorView {
    pub tag: u8,
    pub data: Seq<u8>,
}

impl View for Descriptor {
    type V = DescriptorView;

    open spec fn view(&self) -> DescriptorView {
        DescriptorView { tag: self.tag, data: self.data@ }
    }
}

/// What a run of descriptors holds.
pub open spec fn descriptor_views(descriptors: Seq<Descriptor>) -> Seq<DescriptorView> {
    Seq::new(descriptors.len(), |i: int| descriptors[i]@)
}

/// Bytes that a run of descriptors takes in a table: two and its data for
/// each.
pub open spec fn descriptors_size(descriptors: Seq<DescriptorView>) -> nat
    decreases descriptors.len(),
{
    if descriptors.len() == 0 {
        0
    } else {
        descriptors_size(descriptors.drop_last()) + 2 + descriptors.last().data.len()
    }
}

/// Program map table with one elementary stream, which also carries the
/// clock, and with the descriptors of the program and of the stream.
#[derive(Debug)]
pub struct Pmt {
    pub program_num: u16,
    pub pcr_pid: Pid,
    pub version_number: u8,
    pub program_info: Vec<Descriptor>,
    pub stream_type: StreamType,
    pub elementary_pid: Pid,
    pub descriptors: Vec<Descriptor>,
}

/// What a `Pmt` holds.
pub struct PmtView {
    pub program_num: u16,
    pub pcr_pid: Pid,
    pub version_number: u8,
    pub program_info: Seq<DescriptorView>,
    pub stream_type: StreamType,
    pub elementary_pid: Pid,
    pub descriptors: Seq<DescriptorView>,
}

impl View for Pmt {
    type V = PmtView;

    open spec fn view(&self) -> PmtView {
        PmtView {
            program_num: self.program_num,
            pcr_pid: self.pcr_pid,
            version_number: self.version_number,
            program_info: descriptor_views(self.program_info@),
            stream_type: self.stream_type,
            elementary_pid: self.elementary_pid,
            descriptors: descriptor_views(self.descriptors@),
        }
    }
}

/// What a packet carries after its header and adaptation field.
#[derive(Debug)]
pub enum Payload {
    Pat(Pat),
    Pmt(Pmt),
    Pes(Pes),
    Raw(Bytes),
}

/// What a `Payload` holds.
pub enum PayloadView {
    Pat(Pat),
    Pmt(PmtView),
    Pes(PesView),
    Raw(Seq<u8>),
}

impl View for Payload {
    type V = PayloadView;

    open spec fn view(&self) -> PayloadView {
        match self {
            Payload::Pat(pat) => PayloadView::Pat(*pat),
            Payload::Pmt(pmt) => PayloadView::Pmt(pmt@),
            Payload::Pes(pes) => PayloadView::Pes(pes@),
            Payload::Raw(bytes) => PayloadView::Raw(bytes@),
        }
    }
}

impl PayloadView {
    /// Bytes the payload takes in a packet: 17 for a program association
    /// table with one program, 22 and its descriptors for a program map
    /// table with one stream, else the header, if any, and the data.
    pub open spec fn size(self) -> nat {
        match self {
            PayloadView::Pat(_) => 17,
            PayloadView::Pmt(pmt) => 22 + descriptors_size(pmt.program_info) + descriptors_size(
                pmt.descriptors,
            ),
            PayloadView::Pes(pes) => pes.header.size() + pes.data.len(),
            PayloadView::Raw(bytes) => bytes.len(),
        }
    }

    /// The bytes of an access unit that the payload carries; a table
    /// carries none.
    pub open spec fn data(self) -> Seq<u8> {
        match self {
            PayloadView::Pes(pes) => pes.data,
            PayloadView::Raw(bytes) => bytes,
            _ => Seq::empty(),
        }
    }

    /// Identifiers, version numbers and timestamps are in their ranges and
    /// the bytes are no more than a packet holds. The clock of a program cannot run on the
    /// largest identifier, which stands for a program without a clock.
    pub open spec fn wf(self) -> bool {
        match self {
            PayloadView::Pat(pat) => pat.program_map_pid.wf() && pat.version_number <= VERSION_MAX,
            PayloadView::Pmt(pmt) => pmt.pcr_pid.wf() && pmt.pcr_pid.value != Pid::MAX
                && pmt.elementary_pid.wf() && pmt.version_number <= VERSION_MAX,
            PayloadView::Pes(pes) => pes.header.wf() && pes.data.len() <= Bytes::MAX_SIZE,
            PayloadView::Raw(bytes) => bytes.len() <= Bytes::MAX_SIZE,
        }
    }
}

/// One packet of 188 bytes, before it is laid out in bytes.
#[derive(Debug)]
pub struct TsPacket {
    pub header: TsHeader,
    pub adaptation_field: Option<AdaptationField>,
    pub payload: Payload,
}

/// What a `TsPacket` holds.
pub struct TsPacketView {
    pub header: TsHeader,
    pub adaptation_field: Option<AdaptationField>,
    pub payload: PayloadView,
}

impl View for TsPacket {
    type V = TsPacketView;

    open spec fn view(&self) -> TsPacketView {
        TsPacketView {
            header: self.header,
            adaptation_field: self.adaptation_field,
            payload: self.payload@,
        }
    }
}

impl TsPacket {
    /// Size of a packet in bytes.
    pub const SIZE: usize = 188;
}

impl TsPacketView {
    /// Bytes that the adaptation field asks for.
    pub open spec fn field_size(self) -> nat {
        match self.adaptation_field {
            Some(field) => field.size(),
            None => 0,
        }
    }

    /// Every part is in its range, and payload and adaptation field fit
    /// together in the 184 bytes behind the header.
    pub open spec fn wf(self) -> bool {
        &&& self.header.wf()
        &&& self.adaptation_field matches Some(field) ==> field.wf()
        &&& self.payload.wf()
        &&& self.payload.size() + self.field_size() <= Bytes::MAX_SIZE
    }

    /// Whether `bytes` are a layout of this packet as far as it is stated
    /// here: 188 bytes that open with the header and end with the bytes of
    /// the access unit that the payload carries. The fourth byte says in
    /// its third bit from the top whether an adaptation field follows; the
    /// field opens with its length and, unless that is zero, its flags.
    /// Where the packet has no field of its own, one without flags may
    /// stand there to fill the packet.
    pub open spec fn is_laid_out(self, bytes: Seq<u8>) -> bool {
        &&& bytes.len() == TsPacket::SIZE
        &&& self.header.opens(bytes)
        &&& bytes.skip(TsPacket::SIZE - self.payload.data().len()) == self.payload.data()
        &&& match self.adaptation_field {
            Some(field) => bytes[3] / 32 % 2 == 1 && bytes[4] > 0 && field.has_flags(bytes[5]),
            None => bytes[3] / 32 % 2 == 1 ==> bytes[4] == 0 || bytes[5] == 0,
        }
    }
}

} // verus!
