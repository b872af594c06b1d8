//! What the signaling handlers share: the WebRTC API, the output tracks that
//! every viewer attaches to, and the registry of live sessions.

use std::sync::Arc;
use vstd::prelude::*;
use vstd::string::StringExecFns;
use webrtc::rtp_transceiver::rtp_codec::RTCRtpCodecCapability;
use webrtc::track::track_local::track_local_static_rtp::TrackLocalStaticRTP;
use crate::codec::MediaKind;
use crate::registry::{no_entries, SessionRegistry};
use crate::selection::{media_name, mime_type_of, SelectedStream, Selection};

verus! {

/// `webrtc::api::API`, from which peer connections are made. Verus sees
/// nothing inside it.
#[verifier::external_type_specification]
#[verifier::external_body]
pub struct ExAPI(webrtc::api::API);

/// `webrtc::track::track_local::track_local_static_rtp::TrackLocalStaticRTP`,
/// the output track of one media kind, to which every viewer's connection
/// attaches. Verus sees nothing inside it.
#[verifier::external_type_specification]
#[verifier::external_body]
pub struct ExTrackLocalStaticRTP(TrackLocalStaticRTP);

/// An output track, shared by its writer and by every viewer's connection.
pub type OutputTrack = Arc<TrackLocalStaticRTP>;

/// The stream identifier that every output track of the relay carries.
pub const TRACK_STREAM_ID: &'static str = "webrtc-rs";

/// The MIME type of the codec that a track offers: the `mime_type` of what
/// `TrackLocalStaticRTP::codec` returns.
pub uninterp spec fn track_mime_type(track: TrackLocalStaticRTP) -> Seq<char>;

/// The identifier of a track, as `TrackLocalStaticRTP::id` returns it.
pub uninterp spec fn track_id(track: TrackLocalStaticRTP) -> Seq<char>;

/// The stream identifier of a track, as `TrackLocalStaticRTP::stream_id`
/// returns it.
pub uninterp spec fn track_stream_id(track: TrackLocalStaticRTP) -> Seq<char>;

/// Whether `track` is the output track of a stream of `kind` in `encoding`:
/// it offers the MIME type of that encoding, is named after the media type
/// of the kind, and carries the relay's stream identifier.
pub open spec fn is_track_of(
    track: TrackLocalStaticRTP,
    kind: MediaKind,
    encoding: Seq<char>,
) -> bool {
    &&& track_mime_type(track) == mime_type_of(kind, encoding)
    &&& track_id(track) == media_name(kind)
    &&& track_stream_id(track) == TRACK_STREAM_ID@
}

/// Calls `TrackLocalStaticRTP::new` with a codec capability that names
/// `mime_type` and is otherwise the default. Claims that the new track keeps
/// the three texts it was made with.
#[verifier::external_body]
fn new_track(mime_type: String, id: String, stream_id: String) -> (track: TrackLocalStaticRTP)
    ensures
        track_mime_type(track) == mime_type@,
        track_id(track) == id@,
        track_stream_id(track) == stream_id@,
{
    TrackLocalStaticRTP::new(
        RTCRtpCodecCapability { mime_type, ..Default::default() },
        id,
        stream_id,
    )
}

/// A new output track for a selected stream, with the stream's upstream
/// index. The track is named after the stream's media type, offers the
/// stream's MIME type and carries the relay's stream identifier.
pub fn output_track(stream: &SelectedStream) -> (r: (usize, OutputTrack))
    ensures
        r.0 == stream.index,
        is_track_of(*r.1, stream.kind, stream.encoding@),
{
    let track = new_track(
        stream.mime_type(),
        String::from_str(stream.media()),
        String::from_str(TRACK_STREAM_ID),
    );
    (stream.index, Arc::new(track))
}

/// The state of the relay that signaling requests work on.
pub struct AppState {
    pub api: Arc<webrtc::api::API>,
    pub peer_connections: SessionRegistry,
    /// The upstream index of the selected video stream, and its output track.
    pub video_track: (usize, OutputTrack),
    /// The same for the selected audio stream, where there is one.
    pub audio_track: Option<(usize, OutputTrack)>,
}

impl AppState {
    /// The relay state at startup: the given API and tracks, and no session.
    pub fn new(
        api: webrtc::api::API,
        video_track: (usize, OutputTrack),
        audio_track: Option<(usize, OutputTrack)>,
    ) -> (state: AppState)
        ensures
            *state.api == api,
            state.video_track == video_track,
            state.audio_track == audio_track,
            state.peer_connections@ == no_entries(),
    {
        AppState {
            api: Arc::new(api),
            peer_connections: SessionRegistry::new(),
            video_track,
            audio_track,
        }
    }

    /// The relay state at startup for the streams of `selection`: one new
    /// output track for the video stream, one for the audio stream where
    /// one was selected, and no session.
    pub fn for_selection(api: webrtc::api::API, selection: &Selection) -> (state: AppState)
        ensures
            *state.api == api,
            state.video_track.0 == selection.video.index,
            is_track_of(*state.video_track.1, selection.video.kind, selection.video.encoding@),
            state.audio_track is Some <==> selection.audio is Some,
            state.audio_track matches Some(track) ==> {
                &&& track.0 == selection.audio->0.index
                &&& is_track_of(*track.1, selection.audio->0.kind, selection.audio->0.encoding@)
            },
            state.peer_connections@ == no_entries(),
    {
        let video = output_track(&selection.video);
        let audio = match &selection.audio {
            Some(stream) => Some(output_track(stream)),
            None => None,
        };
        AppState::new(api, video, audio)
    }

    /// The tracks that each new viewer's connection attaches to, in the
    /// order of attachment: the video track, then the audio track where the
    /// relay has one. Each is attached once.
    pub fn tracks(&self) -> (tracks: Vec<OutputTrack>)
        ensures
            tracks@ == match self.audio_track {
                Some(audio) => seq![self.video_track.1, audio.1],
                None => seq![self.video_track.1],
            },
    {
        let mut tracks: Vec<OutputTrack> = Vec::new();
        tracks.push(self.video_track.1.clone());
        match &self.audio_track {
            Some(audio) => {
                tracks.push(audio.1.clone());
            },
            None => {},
        }
        tracks
    }
}

} // verus!
