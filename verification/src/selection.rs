//! Stream selection: from the streams that the upstream source advertises,
//! pick the one video stream and at most one audio stream to republish.

use vstd::prelude::*;
use vstd::string::StringExecFns;
use crate::codec::{
    is_listed, is_supported, lemma_configured_ranks, priority, rank_in, table_of, MediaKind,
};
use crate::text::same_text;

verus! {

/// One stream of the upstream description.
#[derive(Clone, Debug)]
pub struct StreamDescriptor {
    /// Index that the upstream session assigned to the stream.
    pub index: usize,
    /// Media type as advertised, such as `video`, `audio` or `application`.
    pub media: String,
    /// Encoding name as advertised, lower case, such as `h264`.
    pub encoding: String,
    /// Frame width and height in pixels, where the description gave them.
    pub dimensions: Option<(u32, u32)>,
}

/// What a `StreamDescriptor` holds, as mathematical values.
pub struct DescriptorView {
    pub index: usize,
    pub media: Seq<char>,
    pub encoding: Seq<char>,
    pub dimensions: Option<(u32, u32)>,
}

impl View for StreamDescriptor {
    type V = DescriptorView;

    open spec fn view(&self) -> DescriptorView {
        DescriptorView {
            index: self.index,
            media: self.media@,
            encoding: self.encoding@,
            dimensions: self.dimensions,
        }
    }
}

/// A stream chosen for republishing.
#[derive(Clone, Debug)]
pub struct SelectedStream {
    pub index: usize,
    pub kind: MediaKind,
    pub encoding: String,
}

/// What a `SelectedStream` holds, as mathematical values.
pub struct SelectedView {
    pub index: usize,
    pub kind: MediaKind,
    pub encoding: Seq<char>,
}

impl View for SelectedStream {
    type V = SelectedView;

    open spec fn view(&self) -> SelectedView {
        SelectedView { index: self.index, kind: self.kind, encoding: self.encoding@ }
    }
}

/// The outcome of a selection: one video stream, and one audio stream where
/// the source offers a supported one.
#[derive(Clone, Debug)]
pub struct Selection {
    pub video: SelectedStream,
    pub audio: Option<SelectedStream>,
}

/// What a `Selection` holds, as mathematical values.
pub struct SelectionView {
    pub video: SelectedView,
    pub audio: Option<SelectedView>,
}

impl View for Selection {
    type V = SelectionView;

    open spec fn view(&self) -> SelectionView {
        SelectionView {
            video: self.video@,
            audio: match self.audio {
                Some(a) => Some(a@),
                None => None,
            },
        }
    }
}

/// Why a selection failed.
#[derive(Clone, Copy, Debug, PartialEq, Eq, Structural)]
pub enum SelectionError {
    /// No advertised stream is video in a supported encoding.
    NoVideoStream,
}

/// The views of a list of descriptors, in order.
pub open spec fn views(streams: Seq<StreamDescriptor>) -> Seq<DescriptorView> {
    streams.map_values(|d: StreamDescriptor| d@)
}

/// The media type that streams of `kind` advertise.
pub open spec fn media_name(kind: MediaKind) -> Seq<char> {
    match kind {
        MediaKind::Video => "video"@,
        MediaKind::Audio => "audio"@,
    }
}

/// Whether `d` may be chosen for `kind`: it is of that media type, and its
/// encoding is listed in the kind's priority table.
pub open spec fn is_candidate(d: DescriptorView, kind: MediaKind) -> bool {
    d.media == media_name(kind) && is_listed(table_of(kind), d.encoding)
}

/// Frame width times height; 0 where the dimensions are unknown.
pub open spec fn pixel_area(d: DescriptorView) -> nat {
    match d.dimensions {
        Some((w, h)) => (w * h) as nat,
        None => 0,
    }
}

/// The area by which candidates of `kind` are ordered. Audio has none.
pub open spec fn ordering_area(d: DescriptorView, kind: MediaKind) -> nat {
    match kind {
        MediaKind::Video => pixel_area(d),
        MediaKind::Audio => 0,
    }
}

/// Whether `a` is strictly preferred to `b` among candidates of `kind`:
/// larger area first, then lower codec rank.
pub open spec fn is_preferred(a: DescriptorView, b: DescriptorView, kind: MediaKind) -> bool {
    ordering_area(a, kind) > ordering_area(b, kind) || (ordering_area(a, kind) == ordering_area(
        b,
        kind,
    ) && rank_in(table_of(kind), a.encoding) < rank_in(table_of(kind), b.encoding))
}

/// Whether some stream of the list is a candidate for `kind`.
pub open spec fn has_candidate(s: Seq<DescriptorView>, kind: MediaKind) -> bool {
    exists|i: int| 0 <= i < s.len() && is_candidate(#[trigger] s[i], kind)
}

/// Whether position `i` holds the stream chosen for `kind`: a candidate to
/// which no candidate is preferred, and the earliest such in the list. It is
/// the head of the candidates after a stable sort by preference.
pub open spec fn is_choice(s: Seq<DescriptorView>, kind: MediaKind, i: int) -> bool {
    &&& 0 <= i < s.len()
    &&& is_candidate(s[i], kind)
    &&& forall|j: int|
        0 <= j < s.len() && is_candidate(#[trigger] s[j], kind) ==> !is_preferred(s[j], s[i], kind)
            && (j < i ==> is_preferred(s[i], s[j], kind))
}

/// The position of the stream chosen for `kind`, if the list has a candidate.
pub open spec fn choice(s: Seq<DescriptorView>, kind: MediaKind) -> Option<int> {
    if has_candidate(s, kind) {
        Some(choose|i: int| is_choice(s, kind, i))
    } else {
        None
    }
}

/// The stream selected when `d` is chosen for `kind`.
pub open spec fn selected(d: DescriptorView, kind: MediaKind) -> SelectedView {
    SelectedView { index: d.index, kind, encoding: d.encoding }
}

/// The selection that a list of advertised streams determines.
pub open spec fn selection_of(s: Seq<DescriptorView>) -> Result<SelectionView, SelectionError> {
    match choice(s, MediaKind::Video) {
        None => Err(SelectionError::NoVideoStream),
        Some(v) => Ok(
            SelectionView {
                video: selected(s[v], MediaKind::Video),
                audio: match choice(s, MediaKind::Audio) {
                    Some(a) => Some(selected(s[a], MediaKind::Audio)),
                    None => None,
                },
            },
        ),
    }
}

/// At most one position of a list holds the choice for a kind.
pub proof fn lemma_choice_unique(s: Seq<DescriptorView>, kind: MediaKind, i: int, j: int)
    requires
        is_choice(s, kind, i),
        is_choice(s, kind, j),
    ensures
        i == j,
{
    if i < j {
        assert(is_preferred(s[j], s[i], kind));
        assert(!is_preferred(s[j], s[i], kind));
    } else if j < i {
        assert(is_preferred(s[i], s[j], kind));
        assert(!is_preferred(s[i], s[j], kind));
    }
}

/// A position that holds the choice is the one that `choice` names.
pub proof fn lemma_choice_is(s: Seq<DescriptorView>, kind: MediaKind, i: int)
    requires
        is_choice(s, kind, i),
    ensures
        choice(s, kind) == Some(i),
{
    assert(is_candidate(s[i], kind));
    let c = choose|k: int| is_choice(s, kind, k);
    lemma_choice_unique(s, kind, i, c);
}

/// A list with a candidate has a choice: `choice` names a position that
/// holds it.
pub proof fn lemma_choice_exists(s: Seq<DescriptorView>, kind: MediaKind)
    requires
        has_candidate(s, kind),
    ensures
        choice(s, kind) matches Some(i) && is_choice(s, kind, i),
    decreases s.len(),
{
    let n = s.len() - 1;
    let front = s.take(n);
    assert(forall|j: int| 0 <= j < n ==> #[trigger] front[j] == s[j]);
    let found: int;
    if has_candidate(front, kind) {
        lemma_choice_exists(front, kind);
        let b = choice(front, kind)->0;
        if is_candidate(s[n], kind) && is_preferred(s[n], s[b], kind) {
            found = n;
            assert forall|j: int| 0 <= j < s.len() && is_candidate(#[trigger] s[j], kind) implies {
                &&& !is_preferred(s[j], s[n], kind)
                &&& (j < n ==> is_preferred(s[n], s[j], kind))
            } by {
                if j < n {
                    assert(is_candidate(front[j], kind));
                }
            }
        } else {
            found = b;
            assert forall|j: int| 0 <= j < s.len() && is_candidate(#[trigger] s[j], kind) implies {
                &&& !is_preferred(s[j], s[b], kind)
                &&& (j < b ==> is_preferred(s[b], s[j], kind))
            } by {
                if j < n {
                    assert(is_candidate(front[j], kind));
                }
            }
        }
    } else {
        found = n;
        let w = choose|i: int| 0 <= i < s.len() && is_candidate(#[trigger] s[i], kind);
        if w < n {
            assert(is_candidate(front[w], kind));
        }
        assert forall|j: int| 0 <= j < s.len() && is_candidate(#[trigger] s[j], kind) implies j
            == n by {
            if j < n {
                assert(is_candidate(front[j], kind));
            }
        }
    }
    assert(is_choice(s, kind, found));
    lemma_choice_is(s, kind, found);
}

/// Selection fails exactly where no advertised stream is video in a listed
/// encoding: streams of other media types, and streams in unlisted encodings,
/// never make a selection succeed.
pub proof fn lemma_no_video_is_fatal(s: Seq<DescriptorView>)
    ensures
        selection_of(s) is Err <==> forall|i: int|
            0 <= i < s.len() ==> !is_candidate(#[trigger] s[i], MediaKind::Video),
        selection_of(s) matches Err(reason) ==> reason == SelectionError::NoVideoStream,
{
}

/// Every stream of a list occurs in each list with the same streams.
proof fn lemma_occurs_in_permutation(a: Seq<DescriptorView>, b: Seq<DescriptorView>, i: int)
    requires
        a.to_multiset() == b.to_multiset(),
        0 <= i < a.len(),
    ensures
        exists|j: int| 0 <= j < b.len() && #[trigger] b[j] == a[i],
{
    a.to_multiset_ensures();
    b.to_multiset_ensures();
    assert(a.contains(a[i]));
    assert(a.to_multiset().count(a[i]) > 0);
    assert(b.to_multiset().count(a[i]) > 0);
    assert(b.contains(a[i]));
}

/// Whether the candidates of `kind` that tie in preference all carry the
/// same upstream index.
pub open spec fn ties_share_index(s: Seq<DescriptorView>, kind: MediaKind) -> bool {
    forall|i: int, j: int|
        0 <= i < s.len() && 0 <= j < s.len() && is_candidate(#[trigger] s[i], kind)
            && is_candidate(#[trigger] s[j], kind) && !is_preferred(s[i], s[j], kind)
            && !is_preferred(s[j], s[i], kind) ==> s[i].index == s[j].index
}

/// Listing the same streams in another order changes neither whether a
/// stream is chosen for `kind`, nor the media type, encoding and ordering
/// area of the chosen one. Where the candidates that tie in preference share
/// their index, the chosen stream is the same.
pub proof fn lemma_choice_of_permutation(
    a: Seq<DescriptorView>,
    b: Seq<DescriptorView>,
    kind: MediaKind,
)
    requires
        a.to_multiset() == b.to_multiset(),
    ensures
        choice(a, kind) is Some <==> choice(b, kind) is Some,
        choice(a, kind) matches Some(i) ==> {
            &&& choice(b, kind) matches Some(j)
            &&& a[i].media == b[j].media
            &&& a[i].encoding == b[j].encoding
            &&& ordering_area(a[i], kind) == ordering_area(b[j], kind)
            &&& ties_share_index(a, kind) ==> selected(a[i], kind) == selected(b[j], kind)
        },
{
    if has_candidate(a, kind) {
        let w = choose|i: int| 0 <= i < a.len() && is_candidate(#[trigger] a[i], kind);
        lemma_occurs_in_permutation(a, b, w);
        let w2 = choose|j: int| 0 <= j < b.len() && #[trigger] b[j] == a[w];
        assert(is_candidate(b[w2], kind));
    }
    if has_candidate(b, kind) {
        let w = choose|i: int| 0 <= i < b.len() && is_candidate(#[trigger] b[i], kind);
        lemma_occurs_in_permutation(b, a, w);
        let w2 = choose|j: int| 0 <= j < a.len() && #[trigger] a[j] == b[w];
        assert(is_candidate(a[w2], kind));
    }
    if has_candidate(a, kind) {
        lemma_choice_exists(a, kind);
        lemma_choice_exists(b, kind);
        let i = choice(a, kind)->0;
        let j = choice(b, kind)->0;
        lemma_occurs_in_permutation(a, b, i);
        let i2 = choose|k: int| 0 <= k < b.len() && #[trigger] b[k] == a[i];
        assert(is_candidate(b[i2], kind));
        assert(!is_preferred(b[i2], b[j], kind));
        lemma_occurs_in_permutation(b, a, j);
        let j2 = choose|k: int| 0 <= k < a.len() && #[trigger] a[k] == b[j];
        assert(is_candidate(a[j2], kind));
        assert(!is_preferred(a[j2], a[i], kind));
        lemma_configured_ranks(kind, a[i].encoding);
        if ties_share_index(a, kind) {
            assert(a[i].index == a[j2].index);
        }
    }
}

/// The selection is a function of the streams advertised, whatever their
/// order, as long as candidates that tie in preference share their index.
pub proof fn lemma_selection_of_permutation(a: Seq<DescriptorView>, b: Seq<DescriptorView>)
    requires
        a.to_multiset() == b.to_multiset(),
        ties_share_index(a, MediaKind::Video),
        ties_share_index(a, MediaKind::Audio),
    ensures
        selection_of(a) == selection_of(b),
{
    lemma_choice_of_permutation(a, b, MediaKind::Video);
    lemma_choice_of_permutation(a, b, MediaKind::Audio);
}

/// Whether a stream is of the media type of `kind`.
pub fn is_media(media: &str, kind: MediaKind) -> (r: bool)
    ensures
        r == (media@ == media_name(kind)),
{
    match kind {
        MediaKind::Video => same_text(media, "video"),
        MediaKind::Audio => same_text(media, "audio"),
    }
}

/// The MIME type of an encoding of `kind`, such as `video/h264`.
pub open spec fn mime_type_of(kind: MediaKind, encoding: Seq<char>) -> Seq<char> {
    media_name(kind) + "/"@ + encoding
}

impl SelectedStream {
    /// The media type of the stream, which also names its output track.
    pub fn media(&self) -> (r: &'static str)
        ensures
            r@ == media_name(self.kind),
    {
        match self.kind {
            MediaKind::Video => "video",
            MediaKind::Audio => "audio",
        }
    }

    /// The MIME type under which the stream is offered to viewers.
    pub fn mime_type(&self) -> (r: String)
        ensures
            r@ == mime_type_of(self.kind, self.encoding@),
    {
        String::from_str(self.media()).concat("/").concat(self.encoding.as_str())
    }
}

impl StreamDescriptor {
    /// Whether the stream may be chosen for `kind`.
    pub fn is_candidate_for(&self, kind: MediaKind) -> (r: bool)
        ensures
            r == is_candidate(self@, kind),
    {
        is_media(self.media.as_str(), kind) && is_supported(self.encoding.as_str(), kind)
    }

    /// Frame width times height; 0 where the dimensions are unknown.
    pub fn pixel_area(&self) -> (r: u64)
        ensures
            r == pixel_area(self@),
    {
        match self.dimensions {
            Some((w, h)) => {
                assert(w * h <= u32::MAX * u32::MAX) by (nonlinear_arith)
                    requires
                        w <= u32::MAX,
                        h <= u32::MAX,
                ;
                (w as u64) * (h as u64)
            },
            None => 0,
        }
    }

    /// The area by which the stream is ordered among candidates of `kind`.
    pub fn ordering_area(&self, kind: MediaKind) -> (r: u64)
        ensures
            r == ordering_area(self@, kind),
    {
        match kind {
            MediaKind::Video => self.pixel_area(),
            MediaKind::Audio => 0,
        }
    }
}

/// The position in `streams` of the stream to republish for `kind`, or `None`
/// where no stream qualifies.
pub fn choose_stream(streams: &[StreamDescriptor], kind: MediaKind) -> (r: Option<usize>)
    ensures
        match r {
            Some(i) => {
                &&& i < streams@.len()
                &&& is_choice(views(streams@), kind, i as int)
                &&& choice(views(streams@), kind) == Some(i as int)
            },
            None => !has_candidate(views(streams@), kind) && choice(views(streams@), kind) is None,
        },
{
    let ghost s = views(streams@);
    let mut best: Option<usize> = None;
    let mut best_area: u64 = 0;
    let mut best_rank: u32 = 0;
    let mut k: usize = 0;
    while k < streams.len()
        invariant
            k <= streams.len(),
            s == views(streams@),
            s.len() == streams@.len(),
            match best {
                Some(b) => {
                    &&& b < k
                    &&& is_choice(s.take(k as int), kind, b as int)
                    &&& best_area == ordering_area(s[b as int], kind)
                    &&& best_rank == rank_in(table_of(kind), s[b as int].encoding)
                },
                None => forall|j: int| 0 <= j < k ==> !is_candidate(#[trigger] s[j], kind),
            },
        decreases streams.len() - k,
    {
        let d = &streams[k];
        assert(s[k as int] == d@);
        let ghost before = s.take(k as int);
        let ghost after = s.take(k + 1);
        assert(forall|j: int| 0 <= j < k ==> #[trigger] after[j] == before[j]);
        assert(after[k as int] == s[k as int]);
        if d.is_candidate_for(kind) {
            let area = d.ordering_area(kind);
            let rank = priority(d.encoding.as_str(), kind);
            let better = match best {
                None => true,
                Some(_) => area > best_area || (area == best_area && rank < best_rank),
            };
            if better {
                assert(is_choice(after, kind, k as int)) by {
                    assert forall|j: int|
                        0 <= j < after.len() && is_candidate(#[trigger] after[j], kind) implies {
                        &&& !is_preferred(after[j], after[k as int], kind)
                        &&& (j < k ==> is_preferred(after[k as int], after[j], kind))
                    } by {
                        if j < k {
                            assert(is_candidate(before[j], kind));
                        }
                    }
                }
                best = Some(k);
                best_area = area;
                best_rank = rank;
            } else {
                assert(is_choice(after, kind, best->0 as int));
            }
        } else {
            if best.is_some() {
                assert(is_choice(after, kind, best->0 as int));
            }
        }
        k += 1;
    }
    proof {
        assert(s.take(k as int) =~= s);
        match best {
            Some(b) => {
                lemma_choice_is(s, kind, b as int);
            },
            None => {},
        }
    }
    best
}

/// Picks the streams to republish: the video candidate with the largest
/// pixel area, ties going to the lowest codec rank and then to the earliest
/// in the list; and the audio candidate with the lowest codec rank, the
/// earliest on a tie. Fails where no video stream qualifies.
pub fn select_streams(streams: &[StreamDescriptor]) -> (r: Result<Selection, SelectionError>)
    ensures
        match r {
            Ok(sel) => selection_of(views(streams@)) matches Ok(chosen) && chosen == sel@,
            Err(e) => selection_of(views(streams@)) matches Err(reason) && reason == e,
        },
        r is Err <==> !has_candidate(views(streams@), MediaKind::Video),
{
    let video = match choose_stream(streams, MediaKind::Video) {
        Some(v) => SelectedStream {
            index: streams[v].index,
            kind: MediaKind::Video,
            encoding: streams[v].encoding.clone(),
        },
        None => {
            return Err(SelectionError::NoVideoStream);
        },
    };
    let audio = match choose_stream(streams, MediaKind::Audio) {
        Some(a) => Some(
            SelectedStream {
                index: streams[a].index,
                kind: MediaKind::Audio,
                encoding: streams[a].encoding.clone(),
            },
        ),
        None => None,
    };
    Ok(Selection { video, audio })
}

} // verus!
