//! Feedback packets: the RTCP control messages that arrive from upstream and
//! from viewers. The relay tells their kinds apart for its diagnostics and
//! acts on none of them.

use vstd::prelude::*;
use vstd::slice::slice_subrange;
use retina::rtcp::{PacketRef, TypedPacketRef};

verus! {

/// What an RTCP packet received from upstream is.
#[derive(Clone, Copy, Debug, PartialEq, Eq, Structural)]
pub enum UpstreamFeedback {
    /// A sender report, with the fields that the relay logs.
    SenderReport { ssrc: u32, ntp_timestamp: u64, rtp_timestamp: u32 },
    /// A receiver report.
    ReceiverReport { ssrc: u32 },
    /// A packet of another kind that the parser knows.
    OtherTyped,
    /// A packet of a payload type that the parser does not interpret.
    Untyped { payload_type: u8 },
    /// Bytes that are no RTCP packet of the kind they claim to be.
    Malformed,
}

/// The length in bytes of the first packet that `PacketRef::parse` finds in
/// `buf`; `None` where it finds none.
pub uninterp spec fn first_packet_len(buf: Seq<u8>) -> Option<nat>;

/// What `PacketRef::as_typed` makes of the first packet in `buf`.
pub uninterp spec fn first_packet_kind(buf: Seq<u8>) -> UpstreamFeedback;

/// Calls `PacketRef::parse`, which checks version, length and padding of
/// the first packet in `buf`, and `PacketRef::as_typed` on the packet
/// found. Claims that the outcome depends on the bytes alone, and that a
/// packet found has at least its four header bytes and lies within `buf`.
#[verifier::external_body]
fn first_packet(buf: &[u8]) -> (found: Option<(usize, UpstreamFeedback)>)
    ensures
        match found {
            Some((len, kind)) => {
                &&& first_packet_len(buf@) == Some(len as nat)
                &&& kind == first_packet_kind(buf@)
                &&& 4 <= len <= buf@.len()
            },
            None => first_packet_len(buf@) is None,
        },
{
    let Ok((parsed, _)) = PacketRef::parse(buf) else {
        return None;
    };
    let kind = match parsed.as_typed() {
        Ok(Some(TypedPacketRef::SenderReport(sr))) => UpstreamFeedback::SenderReport {
            ssrc: sr.ssrc(),
            ntp_timestamp: sr.ntp_timestamp().0,
            rtp_timestamp: sr.rtp_timestamp(),
        },
        Ok(Some(TypedPacketRef::ReceiverReport(rr))) => UpstreamFeedback::ReceiverReport { ssrc: rr.ssrc() },
        Ok(Some(_)) => UpstreamFeedback::OtherTyped,
        Ok(None) => UpstreamFeedback::Untyped { payload_type: parsed.payload_type() },
        Err(_) => UpstreamFeedback::Malformed,
    };
    Some((parsed.raw().len(), kind))
}

/// The kinds of the packets of a compound packet, in order. Where the bytes
/// left are no packet, the list ends with `Malformed`.
pub open spec fn compound_kinds(buf: Seq<u8>) -> Seq<UpstreamFeedback>
    decreases buf.len(),
{
    if buf.len() == 0 {
        Seq::empty()
    } else {
        match first_packet_len(buf) {
            Some(len) => if 0 < len <= buf.len() {
                seq![first_packet_kind(buf)] + compound_kinds(buf.skip(len as int))
            } else {
                seq![UpstreamFeedback::Malformed]
            },
            None => seq![UpstreamFeedback::Malformed],
        }
    }
}

/// Tells the packets of a compound RTCP packet apart, first to last.
pub fn classify_compound(raw: &[u8]) -> (kinds: Vec<UpstreamFeedback>)
    ensures
        kinds@ == compound_kinds(raw@),
{
    let mut kinds: Vec<UpstreamFeedback> = Vec::new();
    let mut offset: usize = 0;
    proof {
        assert(raw@.skip(0) =~= raw@);
        assert(kinds@ + compound_kinds(raw@) =~= compound_kinds(raw@));
    }
    while offset < raw.len()
        invariant
            offset <= raw.len(),
            compound_kinds(raw@) == kinds@ + compound_kinds(raw@.skip(offset as int)),
        decreases raw.len() - offset,
    {
        let rest = slice_subrange(raw, offset, raw.len());
        assert(rest@ =~= raw@.skip(offset as int));
        match first_packet(rest) {
            Some((len, kind)) => {
                proof {
                    let after = compound_kinds(rest@.skip(len as int));
                    assert(rest@.skip(len as int) =~= raw@.skip(offset + len));
                    assert(kinds@ + (seq![kind] + after) =~= kinds@.push(kind) + after);
                }
                kinds.push(kind);
                offset += len;
            },
            None => {
                assert(kinds@ + seq![UpstreamFeedback::Malformed] =~= kinds@.push(
                    UpstreamFeedback::Malformed,
                ));
                kinds.push(UpstreamFeedback::Malformed);
                return kinds;
            },
        }
    }
    assert(raw@.skip(offset as int).len() == 0);
    assert(kinds@ + Seq::<UpstreamFeedback>::empty() =~= kinds@);
    kinds
}

impl UpstreamFeedback {
    /// The name of the kind, for diagnostics.
    pub fn label(&self) -> (r: &'static str)
        ensures
            r@ == match *self {
                UpstreamFeedback::SenderReport { .. } => "RTCP SR"@,
                UpstreamFeedback::ReceiverReport { .. } => "RTCP RR"@,
                UpstreamFeedback::OtherTyped => "RTCP: other typed packet"@,
                UpstreamFeedback::Untyped { .. } => "RTCP: untyped packet"@,
                UpstreamFeedback::Malformed => "RTCP parse error"@,
            },
    {
        match self {
            UpstreamFeedback::SenderReport { .. } => "RTCP SR",
            UpstreamFeedback::ReceiverReport { .. } => "RTCP RR",
            UpstreamFeedback::OtherTyped => "RTCP: other typed packet",
            UpstreamFeedback::Untyped { .. } => "RTCP: untyped packet",
            UpstreamFeedback::Malformed => "RTCP parse error",
        }
    }
}

/// What an RTCP packet received from a viewer is.
#[derive(Clone, Copy, Debug, PartialEq, Eq, Structural)]
pub enum ViewerFeedback {
    SenderReport,
    ReceiverReport,
    PictureLossIndication,
    FullIntraRequest,
    TransportLayerCc,
    RapidResynchronizationRequest,
    Goodbye,
    /// A packet of none of the kinds above.
    Unknown,
}

impl ViewerFeedback {
    /// The line that the relay logs for a packet of this kind.
    pub fn label(&self) -> (r: &'static str)
        ensures
            r@ == match *self {
                ViewerFeedback::SenderReport => "RTCP: Sender Report (SR)"@,
                ViewerFeedback::ReceiverReport => "RTCP: Receiver Report (RR)"@,
                ViewerFeedback::PictureLossIndication => "RTCP: PLI (Picture Loss Indication)"@,
                ViewerFeedback::FullIntraRequest => "RTCP: FIR (Full Intra Request)"@,
                ViewerFeedback::TransportLayerCc => "RTCP: TCC (Transport-wide Congestion Control)"@,
                ViewerFeedback::RapidResynchronizationRequest => "RTCP: Rapid Resync Request (RRR)"@,
                ViewerFeedback::Goodbye => "RTCP: BYE"@,
                ViewerFeedback::Unknown => "RTCP: Unknown / Raw packet"@,
            },
    {
        match self {
            ViewerFeedback::SenderReport => "RTCP: Sender Report (SR)",
            ViewerFeedback::ReceiverReport => "RTCP: Receiver Report (RR)",
            ViewerFeedback::PictureLossIndication => "RTCP: PLI (Picture Loss Indication)",
            ViewerFeedback::FullIntraRequest => "RTCP: FIR (Full Intra Request)",
            ViewerFeedback::TransportLayerCc => "RTCP: TCC (Transport-wide Congestion Control)",
            ViewerFeedback::RapidResynchronizationRequest => "RTCP: Rapid Resync Request (RRR)",
            ViewerFeedback::Goodbye => "RTCP: BYE",
            ViewerFeedback::Unknown => "RTCP: Unknown / Raw packet",
        }
    }
}

} // verus!
