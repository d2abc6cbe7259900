use imhumane::{
    default_eight, default_size, default_three, first_action, next_action, Draw, WorkerAction,
    WorkerEvent, BACKOFF_MILLIS,
};

#[test]
fn config_defaults() {
    assert_eq!(default_three(), 3);
    assert_eq!(default_eight(), 8);
    assert_eq!(default_size(), 96);
}

#[test]
fn worker_registers_then_pushes() {
    assert_eq!(first_action(), WorkerAction::Generate);
    assert_eq!(next_action(WorkerEvent::Generated), WorkerAction::Register);
    assert_eq!(next_action(WorkerEvent::Registered { buffer_full: false }), WorkerAction::Push);
    assert_eq!(next_action(WorkerEvent::Pushed), WorkerAction::Generate);
}

#[test]
fn worker_warms_thumbnails_while_buffer_full() {
    assert_eq!(
        next_action(WorkerEvent::Registered { buffer_full: true }),
        WorkerAction::WarmThumbnail
    );
    assert_eq!(next_action(WorkerEvent::Warmed { buffer_full: true }), WorkerAction::WarmThumbnail);
    assert_eq!(next_action(WorkerEvent::Warmed { buffer_full: false }), WorkerAction::Push);
    assert_eq!(next_action(WorkerEvent::NothingToWarm), WorkerAction::Push);
}

#[test]
fn worker_backs_off_after_failure() {
    assert_eq!(BACKOFF_MILLIS, 1000);
    assert_eq!(
        next_action(WorkerEvent::GenerationFailed),
        WorkerAction::Backoff { millis: 1000 }
    );
    assert_eq!(next_action(WorkerEvent::BackedOff), WorkerAction::Generate);
}

#[test]
fn challenge_from_draw() {
    let d = Draw {
        id: "id-1".to_string(),
        topic: "cats".to_string(),
        answer: "0110".to_string(),
        cells: vec![],
    };
    let c = d.into_challenge(vec![1, 2, 3], 96, 8, 2);
    assert_eq!(c.id, "id-1");
    assert_eq!(c.topic, "cats");
    assert_eq!(c.answer, "0110");
    assert_eq!(c.image, vec![1, 2, 3]);
    assert_eq!((c.image_size, c.gap_size, c.grid_length), (96, 8, 2));
    assert_eq!(c.describe(), "ID: id-1, topic: cats, answer: 0110");
}
