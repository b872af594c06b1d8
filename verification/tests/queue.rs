use whep_relay::codec::MediaKind;
use whep_relay::pump::{
    IngestOutcome, IngestPump, PacketQueue, WriteOutcome, WriterState, WriterStep,
    MAX_QUEUE_CAPACITY, PACKET_QUEUE_CAPACITY,
};
use whep_relay::selection::{SelectedStream, Selection};

fn selection(video: usize, audio: Option<usize>) -> Selection {
    Selection {
        video: SelectedStream {
            index: video,
            kind: MediaKind::Video,
            encoding: "h264".to_string(),
        },
        audio: audio.map(|index| SelectedStream {
            index,
            kind: MediaKind::Audio,
            encoding: "opus".to_string(),
        }),
    }
}

#[test]
fn queue_drops_when_full_and_keeps_order() {
    let mut q = PacketQueue::bounded(2).unwrap();
    assert!(q.try_enqueue(vec![1]));
    assert!(q.try_enqueue(vec![2]));
    assert!(!q.try_enqueue(vec![3]));
    assert_eq!(q.len(), 2);
    assert_eq!(q.try_dequeue(), Some(vec![1]));
    assert!(q.try_enqueue(vec![4]));
    assert_eq!(q.try_dequeue(), Some(vec![2]));
    assert_eq!(q.try_dequeue(), Some(vec![4]));
    assert_eq!(q.try_dequeue(), None);
    assert_eq!(q.len(), 0);
}

#[test]
fn queue_refuses_capacities_out_of_range() {
    assert!(PacketQueue::bounded(0).is_none());
    assert!(PacketQueue::bounded(usize::MAX).is_none());
    assert!(PacketQueue::bounded(MAX_QUEUE_CAPACITY + 1).is_none());
    assert!(PacketQueue::bounded(1).is_some());
    assert_eq!(MAX_QUEUE_CAPACITY, usize::MAX >> 3);
}

#[test]
fn reference_capacity_takes_a_hundred_packets() {
    assert_eq!(PACKET_QUEUE_CAPACITY, 100);
    let mut q = PacketQueue::bounded(PACKET_QUEUE_CAPACITY).unwrap();
    for i in 0..100u8 {
        assert!(q.try_enqueue(vec![i]));
    }
    assert!(!q.try_enqueue(vec![100]));
    assert_eq!(q.len(), 100);
    for i in 0..100u8 {
        assert_eq!(q.try_dequeue(), Some(vec![i]));
    }
    assert_eq!(q.try_dequeue(), None);
}

#[test]
fn pump_routes_by_stream_index() {
    let mut pump = IngestPump::new(&selection(3, Some(5)), 4).unwrap();
    assert_eq!(pump.route(3), Some(MediaKind::Video));
    assert_eq!(pump.route(5), Some(MediaKind::Audio));
    assert_eq!(pump.route(0), None);
    assert_eq!(pump.ingest(3, vec![1, 2]), IngestOutcome::Queued(MediaKind::Video));
    assert_eq!(pump.ingest(5, vec![3]), IngestOutcome::Queued(MediaKind::Audio));
    assert_eq!(pump.ingest(4, vec![9]), IngestOutcome::UnknownStream);
    assert_eq!(pump.waiting(MediaKind::Video), 1);
    assert_eq!(pump.waiting(MediaKind::Audio), 1);
    assert_eq!(pump.unknown(), 1);
    assert_eq!(pump.next_packet(MediaKind::Video), Some(vec![1, 2]));
    assert_eq!(pump.next_packet(MediaKind::Audio), Some(vec![3]));
    assert_eq!(pump.next_packet(MediaKind::Video), None);
}

#[test]
fn pump_without_audio_discards_audio_packets() {
    let mut pump = IngestPump::new(&selection(0, None), 4).unwrap();
    assert_eq!(pump.route(1), None);
    assert_eq!(pump.ingest(1, vec![1]), IngestOutcome::UnknownStream);
    assert_eq!(pump.next_packet(MediaKind::Audio), None);
    assert_eq!(pump.waiting(MediaKind::Audio), 0);
    assert_eq!(pump.queued(MediaKind::Audio), 0);
    assert_eq!(pump.dropped(MediaKind::Audio), 0);
    assert_eq!(pump.unknown(), 1);
}

#[test]
fn video_is_asked_first_when_indices_coincide() {
    let mut pump = IngestPump::new(&selection(2, Some(2)), 4).unwrap();
    assert_eq!(pump.ingest(2, vec![7]), IngestOutcome::Queued(MediaKind::Video));
    assert_eq!(pump.waiting(MediaKind::Audio), 0);
}

#[test]
fn backpressure_drops_and_counts_without_reordering() {
    let mut pump = IngestPump::new(&selection(0, Some(1)), 3).unwrap();
    let mut written: Vec<Vec<u8>> = Vec::new();
    for i in 0..10u8 {
        let outcome = pump.ingest(0, vec![i]);
        if i < 3 {
            assert_eq!(outcome, IngestOutcome::Queued(MediaKind::Video));
        } else {
            assert_eq!(outcome, IngestOutcome::Dropped(MediaKind::Video));
        }
    }
    assert_eq!(pump.queued(MediaKind::Video), 3);
    assert_eq!(pump.dropped(MediaKind::Video), 7);
    assert_eq!(pump.waiting(MediaKind::Video), 3);
    written.push(pump.next_packet(MediaKind::Video).unwrap());
    assert_eq!(pump.ingest(0, vec![10]), IngestOutcome::Queued(MediaKind::Video));
    assert_eq!(pump.ingest(0, vec![11]), IngestOutcome::Dropped(MediaKind::Video));
    while let Some(packet) = pump.next_packet(MediaKind::Video) {
        written.push(packet);
    }
    assert_eq!(written, vec![vec![0], vec![1], vec![2], vec![10]]);
    assert_eq!(pump.queued(MediaKind::Video), 4);
    assert_eq!(pump.dropped(MediaKind::Video), 8);
    assert_eq!(pump.dropped(MediaKind::Audio), 0);
    assert_eq!(pump.ingest(1, vec![1]), IngestOutcome::Queued(MediaKind::Audio));
}

#[test]
fn pump_refuses_capacities_out_of_range() {
    assert!(IngestPump::new(&selection(0, None), 0).is_none());
    assert!(IngestPump::new(&selection(0, None), usize::MAX).is_none());
    assert!(IngestPump::new(&selection(0, None), PACKET_QUEUE_CAPACITY).is_some());
}

#[test]
fn writer_stops_on_a_closed_sink_only() {
    let mut writer = WriterState::new();
    assert_eq!(writer, WriterState { written: 0, failed: 0, stopped: false });
    assert_eq!(writer.record(WriteOutcome::Written), WriterStep::Continue);
    assert_eq!(writer.record(WriteOutcome::Failed), WriterStep::Continue);
    assert_eq!(writer.record(WriteOutcome::Written), WriterStep::Continue);
    assert_eq!(writer, WriterState { written: 2, failed: 1, stopped: false });
    assert_eq!(writer.record(WriteOutcome::SinkClosed), WriterStep::Stop);
    assert_eq!(writer, WriterState { written: 2, failed: 1, stopped: true });
}

#[test]
fn writer_counts_stop_at_their_largest_value() {
    let mut writer = WriterState { written: u64::MAX, failed: u64::MAX - 1, stopped: false };
    writer.record(WriteOutcome::Written);
    writer.record(WriteOutcome::Failed);
    writer.record(WriteOutcome::Failed);
    assert_eq!(writer, WriterState { written: u64::MAX, failed: u64::MAX, stopped: false });
}

#[test]
fn writers_finish_when_upstream_has_ended_and_queues_are_empty() {
    let mut pump = IngestPump::new(&selection(0, None), 4).unwrap();
    assert!(!pump.is_finished(MediaKind::Video));
    assert!(!pump.is_finished(MediaKind::Audio));
    pump.ingest(0, vec![1]);
    pump.ingest(0, vec![2]);
    pump.end();
    assert!(!pump.is_finished(MediaKind::Video));
    assert!(pump.is_finished(MediaKind::Audio));
    assert_eq!(pump.next_packet(MediaKind::Video), Some(vec![1]));
    assert!(!pump.is_finished(MediaKind::Video));
    assert_eq!(pump.next_packet(MediaKind::Video), Some(vec![2]));
    assert!(pump.is_finished(MediaKind::Video));
    assert_eq!(pump.next_packet(MediaKind::Video), None);
    assert_eq!(pump.queued(MediaKind::Video), 2);
}
