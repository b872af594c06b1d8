use std::sync::Arc;

use webrtc::api::APIBuilder;
use webrtc::peer_connection::configuration::RTCConfiguration;
use webrtc::peer_connection::RTCPeerConnection;
use webrtc::rtp_transceiver::rtp_codec::RTCRtpCodecCapability;
use webrtc::track::track_local::track_local_static_rtp::TrackLocalStaticRTP;
use whep_relay::registry::ConnectionState;
use whep_relay::state::AppState;
use whep_relay::whep::{
    is_sdp_content_type, new_session_id, whep_delete, whep_offer, SDPAnswer, SDPOffer,
    SignalingResponse, SignalingStatus, MAX_OFFER_BYTES,
};

const OFFER: &str = "v=0\r\no=- 4611731400430051336 2 IN IP4 127.0.0.1\r\ns=-\r\nt=0 0\r\nm=video 9 UDP/TLS/RTP/SAVPF 96\r\nc=IN IP4 0.0.0.0\r\na=rtpmap:96 H264/90000\r\n";

fn connection() -> Arc<RTCPeerConnection> {
    let runtime = tokio::runtime::Builder::new_current_thread()
        .enable_all()
        .build()
        .unwrap();
    let api = APIBuilder::new().build();
    let made = runtime
        .block_on(api.new_peer_connection(RTCConfiguration::default()))
        .unwrap();
    Arc::new(made)
}

fn track(mime_type: &str, id: &str) -> Arc<TrackLocalStaticRTP> {
    Arc::new(TrackLocalStaticRTP::new(
        RTCRtpCodecCapability {
            mime_type: mime_type.to_string(),
            ..Default::default()
        },
        id.to_string(),
        "webrtc-rs".to_string(),
    ))
}

fn state() -> AppState {
    AppState::new(
        APIBuilder::new().build(),
        (0, track("video/h264", "video")),
        Some((1, track("audio/opus", "audio"))),
    )
}

fn is_uuid_like(id: &str) -> bool {
    id.len() == 36
        && id.chars().enumerate().all(|(i, c)| match i {
            8 | 13 | 18 | 23 => c == '-',
            _ => c.is_ascii_digit() || ('a'..='f').contains(&c),
        })
}

#[test]
fn content_type_must_be_application_sdp() {
    assert!(is_sdp_content_type("application/sdp"));
    assert!(is_sdp_content_type("application/sdp; charset=utf-8"));
    assert!(is_sdp_content_type("  application/sdp\t;x=y;z"));
    assert!(is_sdp_content_type("\u{a0}application/sdp\u{3000}"));
    assert!(!is_sdp_content_type("text/plain"));
    assert!(!is_sdp_content_type(""));
    assert!(!is_sdp_content_type(";application/sdp"));
    assert!(!is_sdp_content_type("application/sdpx"));
    assert!(!is_sdp_content_type("application/sd"));
    assert!(!is_sdp_content_type("Application/SDP"));
    assert!(!is_sdp_content_type("application /sdp"));
    assert!(!is_sdp_content_type("text/plain; application/sdp"));
}

#[test]
fn offer_with_wrong_content_type_is_unsupported_media_type() {
    let rejected = SDPOffer::from_request("text/plain", OFFER.as_bytes());
    assert_eq!(rejected.err(), Some(SignalingStatus::UnsupportedMediaType));
    assert_eq!(SignalingStatus::UnsupportedMediaType.code(), 415);
    let missing = SDPOffer::from_request("", OFFER.as_bytes());
    assert_eq!(missing.err(), Some(SignalingStatus::UnsupportedMediaType));
    let both_wrong = SDPOffer::from_request("text/plain", b"not a description");
    assert_eq!(both_wrong.err(), Some(SignalingStatus::UnsupportedMediaType));
}

#[test]
fn malformed_offer_is_a_bad_request() {
    let rejected = SDPOffer::from_request("application/sdp", b"not a description");
    assert_eq!(rejected.err(), Some(SignalingStatus::BadRequest));
    assert_eq!(SignalingStatus::BadRequest.code(), 400);
    let empty = SDPOffer::from_request("application/sdp", b"");
    assert_eq!(empty.err(), Some(SignalingStatus::BadRequest));
    let binary = SDPOffer::from_request("application/sdp", &[0xff, 0xfe, 0x00]);
    assert_eq!(binary.err(), Some(SignalingStatus::BadRequest));
}

#[test]
fn oversized_offer_is_a_bad_request() {
    assert_eq!(MAX_OFFER_BYTES, 16 * 1024);
    let mut body = OFFER.as_bytes().to_vec();
    while body.len() + 10 <= MAX_OFFER_BYTES {
        body.extend_from_slice(b"a=x:12345\n");
    }
    while body.len() < MAX_OFFER_BYTES {
        body.insert(body.len() - 1, b'6');
    }
    assert_eq!(body.len(), MAX_OFFER_BYTES);
    assert!(SDPOffer::from_request("application/sdp", &body).is_ok());
    body.insert(body.len() - 1, b'7');
    assert_eq!(body.len(), MAX_OFFER_BYTES + 1);
    let rejected = SDPOffer::from_request("application/sdp", &body);
    assert_eq!(rejected.err(), Some(SignalingStatus::BadRequest));
}

#[test]
fn valid_offer_is_parsed() {
    let offer = SDPOffer::from_request("application/sdp; charset=utf-8", OFFER.as_bytes()).unwrap();
    assert_eq!(offer.0.sdp, OFFER);
    assert_eq!(
        offer.0.sdp_type,
        webrtc::peer_connection::sdp::sdp_type::RTCSdpType::Offer
    );
}

#[test]
fn parse_outcome_decides_between_offer_and_bad_request() {
    let parsed = webrtc::peer_connection::sdp::session_description::RTCSessionDescription::offer(
        OFFER.to_string(),
    );
    assert!(SDPOffer::from_parsed(parsed).is_ok());
    let failed = webrtc::peer_connection::sdp::session_description::RTCSessionDescription::offer(
        "nothing".to_string(),
    );
    assert_eq!(SDPOffer::from_parsed(failed).err(), Some(SignalingStatus::BadRequest));
}

#[test]
fn session_ids_are_hyphenated_uuids_and_differ() {
    let first = new_session_id();
    let second = new_session_id();
    assert!(is_uuid_like(&first));
    assert!(is_uuid_like(&second));
    assert_eq!(first.as_bytes()[14], b'4');
    assert_eq!(second.as_bytes()[14], b'4');
    assert!(b"89ab".contains(&first.as_bytes()[19]));
    assert!(b"89ab".contains(&second.as_bytes()[19]));
    assert_ne!(first, second);
}

#[test]
fn answer_becomes_a_created_response() {
    let answer = SDPAnswer {
        sdp: "v=0\r\n".to_string(),
        id: "0123".to_string(),
    };
    let response = answer.into_response();
    assert_eq!(response.status, SignalingStatus::Created);
    assert_eq!(response.status.code(), 201);
    assert_eq!(response.content_type.as_deref(), Some("application/sdp"));
    assert_eq!(response.location.as_deref(), Some("/resource/0123"));
    assert_eq!(response.body, "v=0\r\n");
}

#[test]
fn bare_response_carries_only_a_status() {
    let response = SignalingResponse::bare(SignalingStatus::NotFound);
    assert_eq!(response.status.code(), 404);
    assert!(response.content_type.is_none());
    assert!(response.location.is_none());
    assert_eq!(response.body, "");
    assert_eq!(SignalingStatus::NoContent.code(), 204);
}

#[test]
fn offer_scenario_registers_one_session_and_answers_created() {
    let mut state = state();
    let offer = SDPOffer::from_request("application/sdp", OFFER.as_bytes());
    assert!(offer.is_ok());
    let before = state.peer_connections.len();
    let id = new_session_id();
    let answer = whep_offer(&mut state, id.clone(), connection(), "v=0\r\n".to_string());
    assert_eq!(state.peer_connections.len(), before + 1);
    assert!(state.peer_connections.contains(&id));
    assert_eq!(answer.id, id);
    let response = answer.into_response();
    assert_eq!(response.status.code(), 201);
    assert_eq!(response.content_type.as_deref(), Some("application/sdp"));
    let location = response.location.unwrap();
    assert_eq!(location.len(), 46);
    assert!(location.starts_with("/resource/"));
    assert!(is_uuid_like(&location["/resource/".len()..]));
    assert_eq!(response.body, "v=0\r\n");
}

#[test]
fn rejected_offer_leaves_the_registry_alone() {
    let mut state = state();
    whep_offer(&mut state, new_session_id(), connection(), String::new());
    let before = state.peer_connections.len();
    let rejected = SDPOffer::from_request("text/plain", OFFER.as_bytes());
    assert_eq!(rejected.err().map(|status| status.code()), Some(415));
    assert_eq!(state.peer_connections.len(), before);
}

#[test]
fn offer_under_a_live_id_replaces_the_connection() {
    let mut state = state();
    let first = connection();
    let second = connection();
    whep_offer(&mut state, "same".to_string(), first.clone(), String::new());
    whep_offer(&mut state, "same".to_string(), second.clone(), String::new());
    assert_eq!(state.peer_connections.len(), 1);
    let released = whep_delete(&mut state, "same").released.unwrap();
    assert!(Arc::ptr_eq(&released, &second));
    assert!(!Arc::ptr_eq(&released, &first));
}

#[test]
fn delete_of_a_live_session_is_no_content() {
    let mut state = state();
    let kept = connection();
    whep_offer(&mut state, "a".to_string(), kept.clone(), String::new());
    whep_offer(&mut state, "b".to_string(), connection(), String::new());
    let outcome = whep_delete(&mut state, "a");
    assert_eq!(outcome.status, SignalingStatus::NoContent);
    assert_eq!(outcome.status.code(), 204);
    assert!(Arc::ptr_eq(&outcome.released.unwrap(), &kept));
    assert_eq!(state.peer_connections.len(), 1);
    assert!(state.peer_connections.contains("b"));
}

#[test]
fn delete_of_an_unknown_session_is_not_found() {
    let mut state = state();
    whep_offer(&mut state, "a".to_string(), connection(), String::new());
    let never = whep_delete(&mut state, "never-created");
    assert_eq!(never.status, SignalingStatus::NotFound);
    assert!(never.released.is_none());
    assert_eq!(state.peer_connections.len(), 1);
    let short = whep_delete(&mut state, "");
    assert_eq!(short.status.code(), 404);
    assert_eq!(whep_delete(&mut state, "a").status.code(), 204);
    let again = whep_delete(&mut state, "a");
    assert_eq!(again.status.code(), 404);
    assert!(again.released.is_none());
    assert_eq!(state.peer_connections.len(), 0);
}

#[test]
fn delete_and_terminal_state_release_a_session_once() {
    let mut state = state();
    whep_offer(&mut state, "x".to_string(), connection(), String::new());
    whep_offer(&mut state, "y".to_string(), connection(), String::new());
    let by_delete = whep_delete(&mut state, "x");
    let by_state = state
        .peer_connections
        .on_connection_state("x", ConnectionState::Closed);
    assert!(by_delete.released.is_some());
    assert!(by_state.is_none());
    assert_eq!(state.peer_connections.len(), 1);
    let by_state = state
        .peer_connections
        .on_connection_state("y", ConnectionState::Disconnected);
    let by_delete = whep_delete(&mut state, "y");
    assert!(by_state.is_some());
    assert_eq!(by_delete.status.code(), 404);
    assert!(by_delete.released.is_none());
    assert_eq!(state.peer_connections.len(), 0);
}

#[test]
fn offer_bytes_are_decoded_lossily() {
    let body = b"v=0\r\no=- 4611731400430051336 2 IN IP4 127.0.0.1\r\ns=caf\xff\r\nt=0 0\r\n";
    let offer = SDPOffer::from_request("application/sdp", body).unwrap();
    assert!(offer.0.sdp.contains("s=caf\u{fffd}\r\n"));
    let accented = "v=0\r\no=- 4611731400430051336 2 IN IP4 127.0.0.1\r\ns=caf\u{e9}\r\nt=0 0\r\n";
    let offer = SDPOffer::from_request("application/sdp", accented.as_bytes()).unwrap();
    assert_eq!(offer.0.sdp, accented);
}
