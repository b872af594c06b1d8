//! The ingest pump: routes each packet received from upstream to the bounded
//! queue of its media kind, dropping it when the queue is full, and tells a
//! writer what to do after each write to its output track.

use vstd::prelude::*;
use crate::codec::MediaKind;
use crate::selection::Selection;

verus! {

/// Number of packets that each queue of the relay holds.
pub const PACKET_QUEUE_CAPACITY: usize = 100;

/// The largest capacity a queue can be opened with.
pub const MAX_QUEUE_CAPACITY: usize = usize::MAX / 8;

/// `tokio::sync::mpsc::Sender`, the sending half of tokio's bounded channel.
/// Verus sees nothing inside it.
#[verifier::external_type_specification]
#[verifier::external_body]
#[verifier::reject_recursive_types(T)]
pub struct ExSender<T>(tokio::sync::mpsc::Sender<T>);

/// `tokio::sync::mpsc::Receiver`, the receiving half of tokio's bounded
/// channel. Verus sees nothing inside it.
#[verifier::external_type_specification]
#[verifier::external_body]
#[verifier::reject_recursive_types(T)]
pub struct ExReceiver<T>(tokio::sync::mpsc::Receiver<T>);

/// The messages that wait in the channel of `rx`, oldest first.
pub uninterp spec fn channel_items(rx: tokio::sync::mpsc::Receiver<Vec<u8>>) -> Seq<Seq<u8>>;

/// The buffer size that the channel of `rx` was created with.
pub uninterp spec fn channel_bound(rx: tokio::sync::mpsc::Receiver<Vec<u8>>) -> nat;

/// A bounded first-in first-out queue of raw packets: both halves of one
/// tokio channel, held by a single owner.
pub struct PacketQueue {
    tx: tokio::sync::mpsc::Sender<Vec<u8>>,
    rx: tokio::sync::mpsc::Receiver<Vec<u8>>,
}

/// Calls `tokio::sync::mpsc::channel`, which panics on a buffer of 0 or
/// above `usize::MAX >> 3`. Claims that the new channel is empty and bounded
/// by `capacity`.
#[verifier::external_body]
fn channel_open(capacity: usize) -> (halves: (
    tokio::sync::mpsc::Sender<Vec<u8>>,
    tokio::sync::mpsc::Receiver<Vec<u8>>,
))
    requires
        0 < capacity <= MAX_QUEUE_CAPACITY,
    ensures
        channel_items(halves.1) == Seq::<Seq<u8>>::empty(),
        channel_bound(halves.1) == capacity,
{
    tokio::sync::mpsc::channel(capacity)
}

/// Calls `Sender::try_send` on the sending half. A queue holds the two
/// halves of one channel and never closes the receiving one, so the call
/// fails only when the channel is full. Claims that the message is appended exactly when fewer than the
/// bound are waiting, and that nothing changes otherwise.
#[verifier::external_body]
fn channel_try_send(q: &mut PacketQueue, payload: Vec<u8>) -> (sent: bool)
    ensures
        channel_bound(final(q).rx) == channel_bound(old(q).rx),
        sent == (channel_items(old(q).rx).len() < channel_bound(old(q).rx)),
        channel_items(final(q).rx) == if sent {
            channel_items(old(q).rx).push(payload@)
        } else {
            channel_items(old(q).rx)
        },
{
    q.tx.try_send(payload).is_ok()
}

/// Calls `Receiver::try_recv`. Claims that it hands out the oldest waiting
/// message and removes it, and gives `None` only when none is waiting.
#[verifier::external_body]
fn channel_try_recv(q: &mut PacketQueue) -> (r: Option<Vec<u8>>)
    ensures
        channel_bound(final(q).rx) == channel_bound(old(q).rx),
        match r {
            Some(p) => {
                &&& channel_items(old(q).rx).len() > 0
                &&& p@ == channel_items(old(q).rx)[0]
                &&& channel_items(final(q).rx) == channel_items(old(q).rx).drop_first()
            },
            None => {
                &&& channel_items(old(q).rx).len() == 0
                &&& channel_items(final(q).rx) == channel_items(old(q).rx)
            },
        },
{
    q.rx.try_recv().ok()
}

/// Calls `Receiver::len`. Claims that it is the number of waiting messages.
#[verifier::external_body]
fn channel_len(q: &PacketQueue) -> (n: usize)
    ensures
        n == channel_items(q.rx).len(),
{
    q.rx.len()
}

impl View for PacketQueue {
    type V = Seq<Seq<u8>>;

    /// The packets that wait in the queue, oldest first.
    closed spec fn view(&self) -> Seq<Seq<u8>> {
        channel_items(self.rx)
    }
}

impl PacketQueue {
    /// The number of packets the queue holds at most.
    pub closed spec fn capacity(&self) -> nat {
        channel_bound(self.rx)
    }

    /// A queue has room for at least one packet and never holds more than
    /// its capacity.
    #[verifier::type_invariant]
    spec fn well_formed(&self) -> bool {
        0 < channel_bound(self.rx) && channel_items(self.rx).len() <= channel_bound(self.rx)
    }

    /// An empty queue for up to `capacity` packets; `None` where `capacity`
    /// is 0 or above `MAX_QUEUE_CAPACITY`.
    pub fn bounded(capacity: usize) -> (r: Option<PacketQueue>)
        ensures
            r is Some <==> 0 < capacity <= MAX_QUEUE_CAPACITY,
            r matches Some(q) ==> q@.len() == 0 && q.capacity() == capacity,
    {
        if capacity == 0 || capacity > MAX_QUEUE_CAPACITY {
            None
        } else {
            let (tx, rx) = channel_open(capacity);
            Some(PacketQueue { tx, rx })
        }
    }

    /// Appends `payload` unless the queue is full; never waits. Returns
    /// whether the packet was taken. A packet that finds the queue full is
    /// dropped, and the queue stays as it was.
    pub fn try_enqueue(&mut self, payload: Vec<u8>) -> (taken: bool)
        ensures
            final(self).capacity() == old(self).capacity(),
            taken == (old(self)@.len() < old(self).capacity()),
            final(self)@ == after_offer(old(self)@, old(self).capacity(), payload@),
            final(self)@.len() <= final(self).capacity(),
    {
        proof {
            use_type_invariant(&*self);
        }
        channel_try_send(self, payload)
    }

    /// Removes and returns the oldest packet; `None` where the queue is empty.
    pub fn try_dequeue(&mut self) -> (r: Option<Vec<u8>>)
        ensures
            final(self).capacity() == old(self).capacity(),
            final(self)@ == after_take(old(self)@),
            match r {
                Some(p) => old(self)@.len() > 0 && p@ == old(self)@[0],
                None => old(self)@.len() == 0,
            },
    {
        proof {
            use_type_invariant(&*self);
        }
        channel_try_recv(self)
    }

    /// The number of packets that wait in the queue.
    pub fn len(&self) -> (n: usize)
        ensures
            n == self@.len(),
            n <= self.capacity(),
    {
        proof {
            use_type_invariant(self);
        }
        channel_len(self)
    }
}

/// What a queue of capacity `capacity` holds after `payload` is offered to
/// it: the packet is appended where there is room, and dropped otherwise.
pub open spec fn after_offer(queue: Seq<Seq<u8>>, capacity: nat, payload: Seq<u8>) -> Seq<
    Seq<u8>,
> {
    if queue.len() < capacity {
        queue.push(payload)
    } else {
        queue
    }
}

/// What a queue holds after its oldest packet, if any, is taken.
pub open spec fn after_take(queue: Seq<Seq<u8>>) -> Seq<Seq<u8>> {
    if queue.len() > 0 {
        queue.drop_first()
    } else {
        queue
    }
}

/// Adds one to a counter that stops at its largest value.
pub open spec fn bumped(count: u64) -> u64 {
    if count < u64::MAX {
        (count + 1) as u64
    } else {
        count
    }
}

/// What became of a packet handed to the pump.
#[derive(Clone, Copy, Debug, PartialEq, Eq, Structural)]
pub enum IngestOutcome {
    /// The packet waits in the queue of this kind.
    Queued(MediaKind),
    /// The queue of this kind was full: the packet was dropped.
    Dropped(MediaKind),
    /// The packet belongs to no selected stream: it was discarded.
    UnknownStream,
}

/// The queue of one media kind, with the upstream index of its stream and
/// the counts of packets it took and dropped.
struct Lane {
    index: usize,
    queue: PacketQueue,
    queued: u64,
    dropped: u64,
}

/// What a `Lane` holds, as mathematical values.
pub struct LaneView {
    pub index: usize,
    pub capacity: nat,
    pub queue: Seq<Seq<u8>>,
    pub queued: u64,
    pub dropped: u64,
}

impl View for Lane {
    type V = LaneView;

    closed spec fn view(&self) -> LaneView {
        LaneView {
            index: self.index,
            capacity: self.queue.capacity(),
            queue: self.queue@,
            queued: self.queued,
            dropped: self.dropped,
        }
    }
}

/// The lane after `payload` is offered to it: queued and counted where
/// there is room, dropped and counted otherwise.
pub open spec fn lane_after_offer(lane: LaneView, payload: Seq<u8>) -> LaneView {
    if lane.queue.len() < lane.capacity {
        LaneView { queue: lane.queue.push(payload), queued: bumped(lane.queued), ..lane }
    } else {
        LaneView { dropped: bumped(lane.dropped), ..lane }
    }
}

/// The lane after its oldest packet, if any, is taken.
pub open spec fn lane_after_take(lane: LaneView) -> LaneView {
    LaneView { queue: after_take(lane.queue), ..lane }
}

impl Lane {
    fn open(index: usize, capacity: usize) -> (lane: Lane)
        requires
            0 < capacity <= MAX_QUEUE_CAPACITY,
        ensures
            lane@ == (LaneView {
                index,
                capacity: capacity as nat,
                queue: Seq::empty(),
                queued: 0,
                dropped: 0,
            }),
    {
        let (tx, rx) = channel_open(capacity);
        Lane { index, queue: PacketQueue { tx, rx }, queued: 0, dropped: 0 }
    }

    fn offer(&mut self, payload: Vec<u8>) -> (taken: bool)
        ensures
            taken == (old(self)@.queue.len() < old(self)@.capacity),
            final(self)@ == lane_after_offer(old(self)@, payload@),
    {
        let taken = self.queue.try_enqueue(payload);
        if taken {
            self.queued = self.queued.saturating_add(1);
        } else {
            self.dropped = self.dropped.saturating_add(1);
        }
        taken
    }

    fn take(&mut self) -> (r: Option<Vec<u8>>)
        ensures
            final(self)@ == lane_after_take(old(self)@),
            match r {
                Some(p) => old(self)@.queue.len() > 0 && p@ == old(self)@.queue[0],
                None => old(self)@.queue.len() == 0,
            },
    {
        self.queue.try_dequeue()
    }
}

/// The ingest pump: one lane for the selected video stream, one for the
/// selected audio stream where there is one, the count of packets that
/// belonged to neither, and whether the upstream has ended.
pub struct IngestPump {
    video: Lane,
    audio: Option<Lane>,
    unknown: u64,
    ended: bool,
}

/// What an `IngestPump` holds, as mathematical values.
pub struct PumpView {
    pub video: LaneView,
    pub audio: Option<LaneView>,
    pub unknown: u64,
    pub ended: bool,
}

impl View for IngestPump {
    type V = PumpView;

    closed spec fn view(&self) -> PumpView {
        PumpView {
            video: self.video@,
            audio: match self.audio {
                Some(lane) => Some(lane@),
                None => None,
            },
            unknown: self.unknown,
            ended: self.ended,
        }
    }
}

/// The lane that a packet of upstream stream `stream_id` goes to. Video is
/// asked first.
pub open spec fn route_of(pump: PumpView, stream_id: usize) -> Option<MediaKind> {
    if stream_id == pump.video.index {
        Some(MediaKind::Video)
    } else if pump.audio matches Some(lane) && lane.index == stream_id {
        Some(MediaKind::Audio)
    } else {
        None
    }
}

/// The lane of `kind`, where the pump has one.
pub open spec fn lane_of(pump: PumpView, kind: MediaKind) -> Option<LaneView> {
    match kind {
        MediaKind::Video => Some(pump.video),
        MediaKind::Audio => pump.audio,
    }
}

/// What becomes of a packet of stream `stream_id` handed to the pump.
pub open spec fn outcome_of(pump: PumpView, stream_id: usize) -> IngestOutcome {
    match route_of(pump, stream_id) {
        Some(kind) => {
            let lane = lane_of(pump, kind)->0;
            if lane.queue.len() < lane.capacity {
                IngestOutcome::Queued(kind)
            } else {
                IngestOutcome::Dropped(kind)
            }
        },
        None => IngestOutcome::UnknownStream,
    }
}

/// The pump after a packet of stream `stream_id` is handed to it.
pub open spec fn pump_after_ingest(pump: PumpView, stream_id: usize, payload: Seq<u8>) -> PumpView {
    match route_of(pump, stream_id) {
        Some(MediaKind::Video) => PumpView {
            video: lane_after_offer(pump.video, payload),
            ..pump
        },
        Some(MediaKind::Audio) => PumpView {
            audio: Some(lane_after_offer(pump.audio->0, payload)),
            ..pump
        },
        None => PumpView { unknown: bumped(pump.unknown), ..pump },
    }
}

/// The pump after a writer takes the oldest packet of `kind`.
pub open spec fn pump_after_take(pump: PumpView, kind: MediaKind) -> PumpView {
    match kind {
        MediaKind::Video => PumpView { video: lane_after_take(pump.video), ..pump },
        MediaKind::Audio => match pump.audio {
            Some(lane) => PumpView { audio: Some(lane_after_take(lane)), ..pump },
            None => pump,
        },
    }
}

impl IngestPump {
    /// A pump for the streams of `selection`, with empty queues of
    /// `capacity` packets each and all counts at 0; `None` where `capacity`
    /// is 0 or above `MAX_QUEUE_CAPACITY`.
    pub fn new(selection: &Selection, capacity: usize) -> (r: Option<IngestPump>)
        ensures
            r is Some <==> 0 < capacity <= MAX_QUEUE_CAPACITY,
            r matches Some(pump) ==> {
                &&& pump@.video == idle_lane(selection.video.index, capacity as nat)
                &&& pump@.audio == match selection.audio {
                    Some(a) => Some(idle_lane(a.index, capacity as nat)),
                    None => None,
                }
                &&& pump@.unknown == 0
                &&& !pump@.ended
            },
    {
        if capacity == 0 || capacity > MAX_QUEUE_CAPACITY {
            return None;
        }
        let video = Lane::open(selection.video.index, capacity);
        let audio = match &selection.audio {
            Some(a) => Some(Lane::open(a.index, capacity)),
            None => None,
        };
        Some(IngestPump { video, audio, unknown: 0, ended: false })
    }

    /// The lane that packets of upstream stream `stream_id` go to, if any.
    pub fn route(&self, stream_id: usize) -> (r: Option<MediaKind>)
        ensures
            r == route_of(self@, stream_id),
    {
        if stream_id == self.video.index {
            return Some(MediaKind::Video);
        }
        match &self.audio {
            Some(lane) => {
                if lane.index == stream_id {
                    Some(MediaKind::Audio)
                } else {
                    None
                }
            },
            None => None,
        }
    }

    /// Hands one received packet to the pump, without ever waiting: it is
    /// appended to the queue of its stream's kind, dropped where that queue
    /// is full, and discarded where the stream was not selected. Each case
    /// is counted.
    pub fn ingest(&mut self, stream_id: usize, payload: Vec<u8>) -> (r: IngestOutcome)
        ensures
            r == outcome_of(old(self)@, stream_id),
            final(self)@ == pump_after_ingest(old(self)@, stream_id, payload@),
    {
        match self.route(stream_id) {
            Some(MediaKind::Video) => {
                if self.video.offer(payload) {
                    IngestOutcome::Queued(MediaKind::Video)
                } else {
                    IngestOutcome::Dropped(MediaKind::Video)
                }
            },
            Some(MediaKind::Audio) => {
                let mut lane = self.audio.take().unwrap();
                let taken = lane.offer(payload);
                self.audio = Some(lane);
                if taken {
                    IngestOutcome::Queued(MediaKind::Audio)
                } else {
                    IngestOutcome::Dropped(MediaKind::Audio)
                }
            },
            None => {
                self.unknown = self.unknown.saturating_add(1);
                IngestOutcome::UnknownStream
            },
        }
    }

    /// Takes the oldest waiting packet of `kind` for its writer; `None`
    /// where none waits, or where the pump has no lane of that kind.
    pub fn next_packet(&mut self, kind: MediaKind) -> (r: Option<Vec<u8>>)
        ensures
            final(self)@ == pump_after_take(old(self)@, kind),
            match r {
                Some(p) => lane_of(old(self)@, kind) matches Some(lane) && lane.queue.len() > 0
                    && p@ == lane.queue[0],
                None => lane_of(old(self)@, kind) matches Some(lane) ==> lane.queue.len() == 0,
            },
    {
        match kind {
            MediaKind::Video => self.video.take(),
            MediaKind::Audio => {
                match self.audio.take() {
                    Some(mut lane) => {
                        let r = lane.take();
                        self.audio = Some(lane);
                        r
                    },
                    None => None,
                }
            },
        }
    }

    /// Records that the upstream has ended: no further packet will come.
    /// What waits in the queues stays for the writers.
    pub fn end(&mut self)
        ensures
            final(self)@ == (PumpView { ended: true, ..old(self)@ }),
    {
        self.ended = true;
    }

    /// Whether the writer of `kind` has nothing left to do: the upstream has
    /// ended, and no packet of the kind waits.
    pub fn is_finished(&self, kind: MediaKind) -> (r: bool)
        ensures
            r == writer_finished(self@, kind),
    {
        self.ended && self.waiting(kind) == 0
    }

    /// How many packets of `kind` the pump has queued since it was made.
    pub fn queued(&self, kind: MediaKind) -> (n: u64)
        ensures
            n == match lane_of(self@, kind) {
                Some(lane) => lane.queued,
                None => 0,
            },
    {
        match kind {
            MediaKind::Video => self.video.queued,
            MediaKind::Audio => match &self.audio {
                Some(lane) => lane.queued,
                None => 0,
            },
        }
    }

    /// How many packets of `kind` the pump has dropped on a full queue.
    pub fn dropped(&self, kind: MediaKind) -> (n: u64)
        ensures
            n == match lane_of(self@, kind) {
                Some(lane) => lane.dropped,
                None => 0,
            },
    {
        match kind {
            MediaKind::Video => self.video.dropped,
            MediaKind::Audio => match &self.audio {
                Some(lane) => lane.dropped,
                None => 0,
            },
        }
    }

    /// How many packets of unselected streams the pump has discarded.
    pub fn unknown(&self) -> (n: u64)
        ensures
            n == self@.unknown,
    {
        self.unknown
    }

    /// How many packets of `kind` wait for their writer.
    pub fn waiting(&self, kind: MediaKind) -> (n: usize)
        ensures
            n == match lane_of(self@, kind) {
                Some(lane) => lane.queue.len(),
                None => 0,
            },
    {
        match kind {
            MediaKind::Video => self.video.queue.len(),
            MediaKind::Audio => match &self.audio {
                Some(lane) => lane.queue.len(),
                None => 0,
            },
        }
    }
}

/// Whether the writer of `kind` may end: the upstream has ended and the
/// queue of the kind, if there is one, is empty.
pub open spec fn writer_finished(pump: PumpView, kind: MediaKind) -> bool {
    pump.ended && match lane_of(pump, kind) {
        Some(lane) => lane.queue.len() == 0,
        None => true,
    }
}

/// A lane that has seen no packet yet.
pub open spec fn idle_lane(index: usize, capacity: nat) -> LaneView {
    LaneView { index, capacity, queue: Seq::empty(), queued: 0, dropped: 0 }
}

/// How a write of one packet to an output track ended.
#[derive(Clone, Copy, Debug, PartialEq, Eq, Structural)]
pub enum WriteOutcome {
    /// The track took the packet.
    Written,
    /// The track is closed, as it is during shutdown.
    SinkClosed,
    /// The write failed for another reason.
    Failed,
}

/// What a writer does after a write.
#[derive(Clone, Copy, Debug, PartialEq, Eq, Structural)]
pub enum WriterStep {
    /// Go on with the next packet.
    Continue,
    /// End the writer.
    Stop,
}

/// The counts of a writer, and whether it has ended.
#[derive(Clone, Copy, Debug, PartialEq, Eq, Structural)]
pub struct WriterState {
    pub written: u64,
    pub failed: u64,
    pub stopped: bool,
}

/// The state of a writer after a write that ended in `outcome`.
pub open spec fn writer_after(state: WriterState, outcome: WriteOutcome) -> WriterState {
    match outcome {
        WriteOutcome::Written => WriterState { written: bumped(state.written), ..state },
        WriteOutcome::SinkClosed => WriterState { stopped: true, ..state },
        WriteOutcome::Failed => WriterState { failed: bumped(state.failed), ..state },
    }
}

impl WriterState {
    /// A writer that has written nothing yet.
    pub fn new() -> (r: WriterState)
        ensures
            r == (WriterState { written: 0, failed: 0, stopped: false }),
    {
        WriterState { written: 0, failed: 0, stopped: false }
    }

    /// Records how a write ended and says how the writer goes on: it stops
    /// on a closed sink, and only then. Any other failure is counted, and
    /// the next packet is attempted all the same.
    pub fn record(&mut self, outcome: WriteOutcome) -> (step: WriterStep)
        ensures
            *final(self) == writer_after(*old(self), outcome),
            step == WriterStep::Stop <==> outcome == WriteOutcome::SinkClosed,
    {
        match outcome {
            WriteOutcome::Written => {
                self.written = self.written.saturating_add(1);
                WriterStep::Continue
            },
            WriteOutcome::SinkClosed => {
                self.stopped = true;
                WriterStep::Stop
            },
            WriteOutcome::Failed => {
                self.failed = self.failed.saturating_add(1);
                WriterStep::Continue
            },
        }
    }
}

/// One step in the life of a queue: the ingest loop offers a packet, or the
/// writer takes one.
pub enum QueueEvent {
    Offer(Seq<u8>),
    Take,
}

/// The packets that wait in a queue of capacity `capacity`, empty at first,
/// after `events`.
pub open spec fn waiting_after(capacity: nat, events: Seq<QueueEvent>) -> Seq<Seq<u8>>
    decreases events.len(),
{
    if events.len() == 0 {
        Seq::empty()
    } else {
        let before = waiting_after(capacity, events.drop_last());
        match events.last() {
            QueueEvent::Offer(payload) => after_offer(before, capacity, payload),
            QueueEvent::Take => after_take(before),
        }
    }
}

/// The packets that the writer took during `events`, in the order taken.
pub open spec fn taken_during(capacity: nat, events: Seq<QueueEvent>) -> Seq<Seq<u8>>
    decreases events.len(),
{
    if events.len() == 0 {
        Seq::empty()
    } else {
        let before = waiting_after(capacity, events.drop_last());
        let taken = taken_during(capacity, events.drop_last());
        match events.last() {
            QueueEvent::Offer(_) => taken,
            QueueEvent::Take => if before.len() > 0 {
                taken.push(before[0])
            } else {
                taken
            },
        }
    }
}

/// The packets that the ingest loop offered during `events`, in the order
/// received.
pub open spec fn offered_during(events: Seq<QueueEvent>) -> Seq<Seq<u8>>
    decreases events.len(),
{
    if events.len() == 0 {
        Seq::empty()
    } else {
        match events.last() {
            QueueEvent::Offer(payload) => offered_during(events.drop_last()).push(payload),
            QueueEvent::Take => offered_during(events.drop_last()),
        }
    }
}

/// The packets dropped on a full queue during `events`.
pub open spec fn dropped_during(capacity: nat, events: Seq<QueueEvent>) -> nat
    decreases events.len(),
{
    if events.len() == 0 {
        0
    } else {
        let before = waiting_after(capacity, events.drop_last());
        let dropped = dropped_during(capacity, events.drop_last());
        match events.last() {
            QueueEvent::Offer(_) => if before.len() < capacity {
                dropped
            } else {
                dropped + 1
            },
            QueueEvent::Take => dropped,
        }
    }
}

/// Whether `part` can be had from `whole` by leaving packets out, without
/// changing the order of those that stay.
pub open spec fn is_in_order_part(part: Seq<Seq<u8>>, whole: Seq<Seq<u8>>) -> bool
    decreases whole.len(),
{
    if part.len() == 0 {
        true
    } else if whole.len() == 0 {
        false
    } else {
        (part.last() == whole.last() && is_in_order_part(part.drop_last(), whole.drop_last()))
            || is_in_order_part(part, whole.drop_last())
    }
}

/// Backpressure loses packets but never reorders them: however offers and
/// takes alternate, the packets written so far followed by those still
/// waiting are the packets received, in receive order, less the dropped
/// ones. The queue never exceeds its capacity, and each packet offered is
/// written, waiting or counted as dropped.
pub proof fn lemma_backpressure_keeps_order(capacity: nat, events: Seq<QueueEvent>)
    ensures
        waiting_after(capacity, events).len() <= capacity,
        is_in_order_part(
            taken_during(capacity, events) + waiting_after(capacity, events),
            offered_during(events),
        ),
        taken_during(capacity, events).len() + waiting_after(capacity, events).len()
            + dropped_during(capacity, events) == offered_during(events).len(),
    decreases events.len(),
{
    if events.len() > 0 {
        let earlier = events.drop_last();
        lemma_backpressure_keeps_order(capacity, earlier);
        let before = waiting_after(capacity, earlier);
        let taken = taken_during(capacity, earlier);
        let offered = offered_during(earlier);
        match events.last() {
            QueueEvent::Offer(payload) => {
                assert(offered.push(payload).drop_last() =~= offered);
                if before.len() < capacity {
                    assert((taken + before.push(payload)).drop_last() =~= taken + before);
                }
            },
            QueueEvent::Take => {
                if before.len() > 0 {
                    assert(taken.push(before[0]) + before.drop_first() =~= taken + before);
                }
            },
        }
    }
}

/// A writer is handed packets in the order in which the ingest loop
/// received them: what was taken from a queue is an in-order part of what
/// was offered to it.
pub proof fn lemma_written_in_receive_order(capacity: nat, events: Seq<QueueEvent>)
    ensures
        is_in_order_part(taken_during(capacity, events), offered_during(events)),
{
    lemma_backpressure_keeps_order(capacity, events);
    lemma_front_in_order(
        taken_during(capacity, events),
        waiting_after(capacity, events),
        offered_during(events),
    );
}

/// The front of an in-order part is an in-order part.
proof fn lemma_front_in_order(front: Seq<Seq<u8>>, back: Seq<Seq<u8>>, whole: Seq<Seq<u8>>)
    requires
        is_in_order_part(front + back, whole),
    ensures
        is_in_order_part(front, whole),
    decreases whole.len(), back.len(),
{
    if back.len() == 0 {
        assert(front + back =~= front);
    } else if front.len() > 0 {
        let joined = front + back;
        assert(joined.last() == back.last());
        assert(joined.drop_last() =~= front + back.drop_last());
        if joined.last() == whole.last() && is_in_order_part(
            joined.drop_last(),
            whole.drop_last(),
        ) {
            lemma_front_in_order(front, back.drop_last(), whole.drop_last());
            lemma_in_order_part_grows(front, whole);
        } else {
            lemma_front_in_order(front, back, whole.drop_last());
            lemma_in_order_part_grows(front, whole);
        }
    }
}

/// An in-order part of all but the last packet is one of the whole.
proof fn lemma_in_order_part_grows(part: Seq<Seq<u8>>, whole: Seq<Seq<u8>>)
    requires
        whole.len() > 0,
        is_in_order_part(part, whole.drop_last()),
    ensures
        is_in_order_part(part, whole),
{
}

/// Offers to a full queue are dropped and leave it as it was; offers to a
/// queue with room are appended behind what waits.
pub proof fn lemma_full_queue_drops(queue: Seq<Seq<u8>>, capacity: nat, payload: Seq<u8>)
    requires
        queue.len() <= capacity,
    ensures
        queue.len() == capacity ==> after_offer(queue, capacity, payload) == queue,
        queue.len() < capacity ==> after_offer(queue, capacity, payload) == queue.push(payload),
        after_offer(queue, capacity, payload).len() <= capacity,
{
}

} // verus!
