//! The WHEP signaling decisions: which offers are taken, what the answer to
//! a viewer looks like, and how a viewer's session is registered and deleted.

use vstd::prelude::*;
use vstd::string::StringExecFns;
use vstd::utf8::{decode_utf8, valid_utf8};
use webrtc::peer_connection::sdp::session_description::RTCSessionDescription;
use crate::registry::{connection_of, Connection};
use crate::state::AppState;
use crate::text::{text_before, trimmed, trimmed_prefix_is};

verus! {

/// The largest offer body, in bytes, that the relay reads.
pub const MAX_OFFER_BYTES: usize = 16384;

/// The HTTP statuses that signaling answers with.
#[derive(Clone, Copy, Debug, PartialEq, Eq, Structural)]
pub enum SignalingStatus {
    /// 201: the session was created.
    Created,
    /// 204: the session was deleted.
    NoContent,
    /// 400: the offer could not be read or parsed.
    BadRequest,
    /// 404: no such session.
    NotFound,
    /// 415: the offer is not of type `application/sdp`.
    UnsupportedMediaType,
}

impl SignalingStatus {
    /// The number of the status.
    pub open spec fn number(self) -> u16 {
        match self {
            SignalingStatus::Created => 201,
            SignalingStatus::NoContent => 204,
            SignalingStatus::BadRequest => 400,
            SignalingStatus::NotFound => 404,
            SignalingStatus::UnsupportedMediaType => 415,
        }
    }

    /// The number of the status.
    pub fn code(&self) -> (r: u16)
        ensures
            r == self.number(),
    {
        match self {
            SignalingStatus::Created => 201,
            SignalingStatus::NoContent => 204,
            SignalingStatus::BadRequest => 400,
            SignalingStatus::NotFound => 404,
            SignalingStatus::UnsupportedMediaType => 415,
        }
    }
}

/// `webrtc::peer_connection::sdp::session_description::RTCSessionDescription`,
/// a parsed session description. Verus sees nothing inside it.
#[verifier::external_type_specification]
#[verifier::external_body]
pub struct ExRTCSessionDescription(RTCSessionDescription);

/// `webrtc::Error`, the error of the WebRTC stack. Verus sees nothing
/// inside it.
#[verifier::external_type_specification]
#[verifier::external_body]
pub struct ExWebrtcError(webrtc::Error);

/// Whether `RTCSessionDescription::offer` takes `sdp`, that is whether it
/// parses as a session description.
pub uninterp spec fn offer_parses(sdp: Seq<char>) -> bool;

/// The text of a session description: its field `sdp`.
pub uninterp spec fn description_text(description: RTCSessionDescription) -> Seq<char>;

/// Whether a session description is an offer: its field `sdp_type` is
/// `RTCSdpType::Offer`.
pub uninterp spec fn description_is_offer(description: RTCSessionDescription) -> bool;

/// The text that `String::from_utf8_lossy` makes of `bytes`.
pub uninterp spec fn lossy_text(bytes: Seq<u8>) -> Seq<char>;

/// Calls `RTCSessionDescription::offer`, which parses `sdp` and fails where
/// it is no session description. Claims that whether it succeeds depends on
/// the text alone, and that the description it yields is an offer and holds
/// that text.
#[verifier::external_body]
fn parse_offer(sdp: String) -> (parsed: Result<RTCSessionDescription, webrtc::Error>)
    ensures
        (parsed is Ok) == offer_parses(sdp@),
        parsed matches Ok(description) ==> description_text(description) == sdp@,
        parsed matches Ok(description) ==> description_is_offer(description),
{
    RTCSessionDescription::offer(sdp)
}

/// Calls `String::from_utf8_lossy`, which decodes UTF-8 and puts U+FFFD in
/// place of each invalid sequence. Claims that the text depends on the
/// bytes alone, and that valid UTF-8 is decoded as it stands.
#[verifier::external_body]
fn text_from_utf8_lossy(bytes: &[u8]) -> (text: String)
    ensures
        text@ == lossy_text(bytes@),
        valid_utf8(bytes@) ==> text@ == decode_utf8(bytes@),
{
    String::from_utf8_lossy(bytes).into_owned()
}

/// Whether a `Content-Type` value names the media type `application/sdp`:
/// what stands before the first `;`, without the white space around it, is
/// exactly that.
pub open spec fn is_sdp_media_type(content_type: Seq<char>) -> bool {
    trimmed(text_before(content_type, ';')) == "application/sdp"@
}

/// Why an offer with this content type and body is turned away, if it is:
/// with 415 for any media type but `application/sdp`, else with 400 for a
/// body above `MAX_OFFER_BYTES` or one that is no session description.
pub open spec fn offer_rejection(content_type: Seq<char>, body: Seq<u8>) -> Option<
    SignalingStatus,
> {
    if !is_sdp_media_type(content_type) {
        Some(SignalingStatus::UnsupportedMediaType)
    } else if body.len() > MAX_OFFER_BYTES || !offer_parses(lossy_text(body)) {
        Some(SignalingStatus::BadRequest)
    } else {
        None
    }
}

/// Whether a `Content-Type` value names the media type `application/sdp`.
pub fn is_sdp_content_type(content_type: &str) -> (r: bool)
    ensures
        r == is_sdp_media_type(content_type@),
{
    trimmed_prefix_is(content_type, ';', "application/sdp")
}

/// An offer that a viewer sent, parsed.
pub struct SDPOffer(pub RTCSessionDescription);

impl SDPOffer {
    /// Takes the offer of a signaling request, given the value of its
    /// `Content-Type` header (empty where it has none) and its body. The
    /// offer taken holds the text of the body, decoded as UTF-8 with U+FFFD
    /// in place of what is none.
    pub fn from_request(content_type: &str, body: &[u8]) -> (r: Result<SDPOffer, SignalingStatus>)
        ensures
            r is Ok <==> offer_rejection(content_type@, body@) is None,
            r matches Err(status) ==> offer_rejection(content_type@, body@) == Some(status),
            r matches Ok(offer) ==> description_is_offer(offer.0),
            r matches Ok(offer) ==> description_text(offer.0) == lossy_text(body@),
            r matches Ok(offer) ==> valid_utf8(body@) ==> description_text(offer.0) == decode_utf8(
                body@,
            ),
    {
        if !is_sdp_content_type(content_type) {
            return Err(SignalingStatus::UnsupportedMediaType);
        }
        if body.len() > MAX_OFFER_BYTES {
            return Err(SignalingStatus::BadRequest);
        }
        SDPOffer::from_parsed(parse_offer(text_from_utf8_lossy(body)))
    }

    /// The offer that a parse yielded, or status 400 where the parse failed.
    pub fn from_parsed(parsed: Result<RTCSessionDescription, webrtc::Error>) -> (r: Result<
        SDPOffer,
        SignalingStatus,
    >)
        ensures
            match parsed {
                Ok(description) => r matches Ok(offer) && offer.0 == description,
                Err(_) => r matches Err(status) && status == SignalingStatus::BadRequest,
            },
    {
        match parsed {
            Ok(description) => Ok(SDPOffer(description)),
            Err(_) => Err(SignalingStatus::BadRequest),
        }
    }
}

/// What signaling sends back: a status, and for a created session the
/// headers and the body of the answer.
#[derive(Clone, Debug)]
pub struct SignalingResponse {
    pub status: SignalingStatus,
    pub content_type: Option<String>,
    pub location: Option<String>,
    pub body: String,
}

/// What a `SignalingResponse` holds, as mathematical values.
pub struct ResponseView {
    pub status: SignalingStatus,
    pub content_type: Option<Seq<char>>,
    pub location: Option<Seq<char>>,
    pub body: Seq<char>,
}

impl View for SignalingResponse {
    type V = ResponseView;

    open spec fn view(&self) -> ResponseView {
        ResponseView {
            status: self.status,
            content_type: match self.content_type {
                Some(t) => Some(t@),
                None => None,
            },
            location: match self.location {
                Some(l) => Some(l@),
                None => None,
            },
            body: self.body@,
        }
    }
}

/// The path under which the session `id` is addressed.
pub open spec fn resource_path(id: Seq<char>) -> Seq<char> {
    "/resource/"@ + id
}

/// The response that carries the answer `sdp` for the new session `id`.
pub open spec fn created_response(sdp: Seq<char>, id: Seq<char>) -> ResponseView {
    ResponseView {
        status: SignalingStatus::Created,
        content_type: Some("application/sdp"@),
        location: Some(resource_path(id)),
        body: sdp,
    }
}

/// The response that carries nothing but `status`.
pub open spec fn bare_response(status: SignalingStatus) -> ResponseView {
    ResponseView { status, content_type: None, location: None, body: Seq::empty() }
}

impl SignalingResponse {
    /// A response that carries nothing but `status`.
    pub fn bare(status: SignalingStatus) -> (r: SignalingResponse)
        ensures
            r@ == bare_response(status),
    {
        SignalingResponse { status, content_type: None, location: None, body: String::new() }
    }
}

/// The answer to a viewer: the session description that the relay
/// generated, and the identifier of the viewer's session.
#[derive(Clone, Debug)]
pub struct SDPAnswer {
    pub sdp: String,
    pub id: String,
}

impl SDPAnswer {

    /// The response that carries the answer: status 201, content type
    /// `application/sdp`, the session's path as location, the description as
    /// body.
    pub fn into_response(self) -> (r: SignalingResponse)
        ensures
            r@ == created_response(self.sdp@, self.id@),
    {
        let location = String::from_str("/resource/").concat(self.id.as_str());
        SignalingResponse {
            status: SignalingStatus::Created,
            content_type: Some(String::from_str("application/sdp")),
            location: Some(location),
            body: self.sdp,
        }
    }
}

/// Whether `c` is a digit or one of the letters `a` to `f`.
pub open spec fn is_lower_hex(c: char) -> bool {
    ('0' <= c && c <= '9') || ('a' <= c && c <= 'f')
}

/// Whether `id` has the shape of a session identifier: a random UUID in
/// its hyphenated lower-case form, 36 characters long, with the version
/// digit `4` and a variant digit of `8`, `9`, `a` or `b`.
pub open spec fn is_session_id(id: Seq<char>) -> bool {
    &&& id.len() == 36
    &&& forall|i: int|
        0 <= i < 36 ==> if i == 8 || i == 13 || i == 18 || i == 23 {
            #[trigger] id[i] == '-'
        } else {
            is_lower_hex(id[i])
        }
    &&& id[14] == '4'
    &&& (id[19] == '8' || id[19] == '9' || id[19] == 'a' || id[19] == 'b')
}

/// Calls `uuid::Uuid::new_v4`, which draws a random UUID, and `to_string` on
/// it. Claims what holds of every outcome: the text is the hyphenated
/// lower-case form, 36 characters with hyphens in four fixed places, the
/// version digit 4 and a variant digit with its two top bits at 1 and 0.
#[verifier::external_body]
fn uuid_v4_text() -> (id: String)
    ensures
        is_session_id(id@),
{
    uuid::Uuid::new_v4().to_string()
}

/// A fresh session identifier, drawn at random.
pub fn new_session_id() -> (id: String)
    ensures
        is_session_id(id@),
        resource_path(id@).len() == 46,
{
    proof {
        reveal_strlit("/resource/");
    }
    uuid_v4_text()
}

/// Completes an offer: registers `connection` as the session `id` and
/// returns the answer for the viewer. A session registered under the same
/// identifier before is replaced.
pub fn whep_offer(state: &mut AppState, id: String, connection: Connection, sdp: String) -> (answer:
    SDPAnswer)
    ensures
        final(state).peer_connections@ == old(state).peer_connections@.insert(id@, connection),
        final(state).api == old(state).api,
        final(state).video_track == old(state).video_track,
        final(state).audio_track == old(state).audio_track,
        answer.sdp == sdp,
        answer.id == id,
        final(state).peer_connections@.len() == if old(state).peer_connections@.contains_key(id@) {
            old(state).peer_connections@.len()
        } else {
            old(state).peer_connections@.len() + 1
        },
{
    let answer = SDPAnswer { sdp, id: id.clone() };
    state.peer_connections.insert(id, connection);
    answer
}

/// How a delete request ended: the status for the viewer, and the
/// connection to close where the session existed.
pub struct DeleteOutcome {
    pub status: SignalingStatus,
    pub released: Option<Connection>,
}

/// Deletes the session `id`: where it is live, it leaves the registry, its
/// connection is handed back to be closed, and the status is 204; where it
/// is unknown, nothing changes and the status is 404.
pub fn whep_delete(state: &mut AppState, id: &str) -> (outcome: DeleteOutcome)
    ensures
        final(state).peer_connections@ == old(state).peer_connections@.remove(id@),
        final(state).api == old(state).api,
        final(state).video_track == old(state).video_track,
        final(state).audio_track == old(state).audio_track,
        outcome.released == connection_of(old(state).peer_connections@, id@),
        outcome.status == if old(state).peer_connections@.contains_key(id@) {
            SignalingStatus::NoContent
        } else {
            SignalingStatus::NotFound
        },
        outcome.status == SignalingStatus::NotFound ==> final(state).peer_connections@ == old(
            state,
        ).peer_connections@,
        final(state).peer_connections@.len() + (if outcome.released is Some {
            1nat
        } else {
            0nat
        }) == old(state).peer_connections@.len(),
{
    match state.peer_connections.remove(id) {
        Some(connection) => DeleteOutcome {
            status: SignalingStatus::NoContent,
            released: Some(connection),
        },
        None => DeleteOutcome { status: SignalingStatus::NotFound, released: None },
    }
}

} // verus!
