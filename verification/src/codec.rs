//! The boundary to the `mpeg2ts` crate, which lays packets out in bytes.
//! Nothing in this file is proved: each contract states what the source of
//! `mpeg2ts` shows of the calls that the function makes.
//!
//! A packet goes to `mpeg2ts` in two steps, its payload first, because one
//! step would hold more than is easy to read. The payload of `mpeg2ts` that
//! the first step hands to the second is named by `outside_payload`.

use vstd::prelude::*;
use crate::packet::{
    Bytes, Pat, PayloadView, Pes, Pmt, StreamType, TsPacket, TsPacketView, VERSION_MAX,
};
use mpeg2ts::ts::WriteTsPacket;
use mpeg2ts::{es, pes, time, ts};

verus! {

/// A payload of `mpeg2ts`, carried from the function that builds it to the
/// function that writes it.
#[verifier::external_type_specification]
#[verifier::external_body]
pub struct ExTsPayload(mpeg2ts::ts::TsPayload);

/// An error of `mpeg2ts`, carried as it came.
#[verifier::external_type_specification]
#[verifier::external_body]
pub struct ExError(mpeg2ts::Error);

/// The `TsPayload` of `mpeg2ts` that the functions of this file build for
/// `payload`: the same fields in the same variant.
pub uninterp spec fn outside_payload(payload: PayloadView) -> mpeg2ts::ts::TsPayload;

/// The bytes that `TsPacketWriter::write_ts_packet` writes for `packet`.
pub uninterp spec fn ts_packet_bytes(packet: TsPacketView) -> Seq<u8>;

/// Builds a `TsPayload::Pes` with `Timestamp::new`, `ClockReference::new`,
/// `StreamId::new` and `Bytes::new`. Claimed: it fails exactly where a
/// timestamp is above thirty-three bits, the clock reference above its
/// range or the data are more than 184 bytes, and what it builds depends
/// on `pes` alone.
#[verifier::external_body]
pub(crate) fn pes_payload(pes: &Pes) -> (r: Result<mpeg2ts::ts::TsPayload, mpeg2ts::Error>)
    ensures
        r.is_ok() <==> (pes@.header.wf() && pes@.data.len() <= Bytes::MAX_SIZE),
        r matches Ok(p) ==> p == outside_payload(PayloadView::Pes(pes@)),
{
    let header = pes::PesHeader {
        stream_id: es::StreamId::new(pes.header.stream_id),
        priority: pes.header.priority,
        data_alignment_indicator: pes.header.data_alignment_indicator,
        copyright: pes.header.copyright,
        original_or_copy: pes.header.original_or_copy,
        pts: Some(time::Timestamp::new(pes.header.pts.ticks)?),
        dts: Some(time::Timestamp::new(pes.header.dts.ticks)?),
        escr: match pes.header.escr { Some(c) => Some(time::ClockReference::new(c.ticks)?), None => None },
    };
    let data = ts::payload::Bytes::new(&pes.data.data)?;
    Ok(ts::TsPayload::Pes(ts::payload::Pes { header, pes_packet_len: pes.pes_packet_len, data }))
}

/// Builds a `TsPayload::Raw` with `Bytes::new`. Claimed: it fails exactly
/// above 184 bytes, and what it builds depends on `bytes` alone.
#[verifier::external_body]
pub(crate) fn raw_payload(bytes: &Bytes) -> (r: Result<mpeg2ts::ts::TsPayload, mpeg2ts::Error>)
    ensures
        r.is_ok() <==> bytes@.len() <= Bytes::MAX_SIZE,
        r matches Ok(p) ==> p == outside_payload(PayloadView::Raw(bytes@)),
{
    Ok(ts::TsPayload::Raw(ts::payload::Bytes::new(&bytes.data)?))
}

/// Builds a `TsPayload::Pat` with `Pid::new` and `VersionNumber::from_u8`.
/// Claimed: it fails exactly where the identifier is above thirteen bits or
/// the version above five, and what it builds depends on `pat` alone.
#[verifier::external_body]
pub(crate) fn pat_payload(pat: &Pat) -> (r: Result<mpeg2ts::ts::TsPayload, mpeg2ts::Error>)
    ensures
        r.is_ok() <==> (pat.program_map_pid.wf() && pat.version_number <= VERSION_MAX),
        r matches Ok(p) ==> p == outside_payload(PayloadView::Pat(*pat)),
{
    let program_map_pid = ts::Pid::new(pat.program_map_pid.value)?;
    Ok(ts::TsPayload::Pat(ts::payload::Pat {
        transport_stream_id: pat.transport_stream_id,
        version_number: ts::VersionNumber::from_u8(pat.version_number)?,
        table: vec![ts::ProgramAssociation { program_num: pat.program_num, program_map_pid }],
    }))
}

/// Builds a `TsPayload::Pmt` with `Pid::new` and `VersionNumber::from_u8`.
/// Claimed: it fails exactly where an identifier is above thirteen bits or
/// the version above five, and what it builds depends on `pmt` alone.
#[verifier::external_body]
pub(crate) fn pmt_payload(pmt: &Pmt) -> (r: Result<mpeg2ts::ts::TsPayload, mpeg2ts::Error>)
    ensures
        r.is_ok() <==> (pmt.pcr_pid.wf() && pmt.elementary_pid.wf() && pmt.version_number
            <= VERSION_MAX),
        r matches Ok(p) ==> p == outside_payload(PayloadView::Pmt(pmt@)),
{
    let stream_type = match pmt.stream_type {
        StreamType::H264 => es::StreamType::H264,
    };
    let elementary_pid = ts::Pid::new(pmt.elementary_pid.value)?;
    Ok(ts::TsPayload::Pmt(ts::payload::Pmt {
        program_num: pmt.program_num,
        pcr_pid: Some(ts::Pid::new(pmt.pcr_pid.value)?),
        version_number: ts::VersionNumber::from_u8(pmt.version_number)?,
        program_info: pmt.program_info.iter().map(|d| ts::Descriptor { tag: d.tag, data: d.data.clone() }).collect(),
        es_info: vec![ts::EsInfo { stream_type, elementary_pid, descriptors: pmt.descriptors.iter().map(|d| ts::Descriptor { tag: d.tag, data: d.data.clone() }).collect() }],
    }))
}

/// Writes one packet to the end of `out` with `TsPacketWriter::new` and
/// `write_ts_packet`; header and adaptation field are built with `Pid::new`,
/// `ContinuityCounter::from_u8` and `ClockReference::new`, which take every
/// value in its range. The writer puts the base of the clock reference in
/// thirty-three bits of six bytes and stops the program on a larger one.
/// It lays the payload out in a buffer of 184
/// bytes, fails where the adaptation field does not fit in what the payload
/// leaves, and fills what is left over with stuffing between the header
/// and the payload. The packet goes out as not scrambled, and its
/// adaptation field without a second clock reference, splice countdown,
/// private data or extension: a packet of this library has none of these.
/// Claimed: for a packet in its ranges whose parts fit,
/// the call succeeds and appends 188 bytes, which depend on the packet
/// alone, open with its header, show the flags of its adaptation field and
/// end with the data of its payload.
#[verifier::external_body]
pub(crate) fn write_ts_packet(
    out: &mut Vec<u8>,
    packet: &TsPacket,
    payload: mpeg2ts::ts::TsPayload,
) -> (r: Result<(), mpeg2ts::Error>)
    requires
        packet@.wf(),
        payload == outside_payload(packet@.payload),
    ensures
        r.is_ok(),
        final(out)@ == old(out)@ + ts_packet_bytes(packet@),
        packet@.is_laid_out(final(out)@.skip(old(out)@.len() as int)),
{
    let header = ts::TsHeader {
        transport_error_indicator: packet.header.transport_error_indicator,
        transport_priority: packet.header.transport_priority,
        pid: ts::Pid::new(packet.header.pid.value)?,
        transport_scrambling_control: ts::TransportScramblingControl::NotScrambled,
        continuity_counter: ts::ContinuityCounter::from_u8(packet.header.continuity_counter.value)?,
    };
    let adaptation_field = match packet.adaptation_field {
        Some(f) => Some(ts::AdaptationField { discontinuity_indicator: f.discontinuity_indicator, random_access_indicator: f.random_access_indicator, es_priority_indicator: f.es_priority_indicator,
            pcr: match f.pcr { Some(c) => Some(time::ClockReference::new(c.ticks)?), None => None },
            opcr: None, splice_countdown: None, transport_private_data: Vec::new(), extension: None }),
        None => None,
    };
    ts::TsPacketWriter::new(out).write_ts_packet(&ts::TsPacket { header, adaptation_field, payload: Some(payload) })
}

} // verus!
