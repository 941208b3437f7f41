use fractal_wire::assembler::AssemblyError;
use fractal_wire::coordinator::{Coordinator, Event, Exhaustion, Reply};
use fractal_wire::fragment_task::{create_identification, RangeManager, RangeManagerTrait};
use fractal_wire::message::{FragmentRequest, FragmentTask, Message, PixelIntensity};
use fractal_wire::worker::{self, WorkerAction, MAXIMAL_WORK_LOAD};

fn request_message() -> Message {
    worker::request(String::from("w"))
}

fn tile_pixels(seed: u32) -> Vec<PixelIntensity> {
    (0..90_000u32).map(|k| PixelIntensity { zn: k ^ seed, count: k.wrapping_mul(seed) }).collect()
}

fn reply_to(task: &FragmentTask, data_id: Vec<u8>, seed: u32) -> (Message, Vec<u8>) {
    let (result, payload) = task.calculate_fractal(data_id, tile_pixels(seed));
    (Message::FragmentResult(result), payload)
}

fn expect_task(reply: Reply, tile: u8) -> (FragmentTask, Vec<u8>) {
    match reply {
        Reply::Task { task, payload } => {
            assert_eq!(task, RangeManager::new().get_current_range(tile));
            assert_eq!(payload, create_identification());
            (task, payload)
        }
        Reply::Close => panic!("the connection was closed before tile {tile}"),
    }
}

#[test]
fn worker_asks_for_work() {
    assert_eq!(
        request_message(),
        Message::FragmentRequest(FragmentRequest {
            worker_name: String::from("w"),
            maximal_work_load: 1000,
        })
    );
    assert_eq!(MAXIMAL_WORK_LOAD, 1000);
}

#[test]
fn worker_computes_tasks_and_nothing_else() {
    let task = RangeManager::new().get_current_range(3);
    match worker::on_message(Message::FragmentTask(task), vec![1, 2, 3]) {
        WorkerAction::Compute { task: got, data_id } => {
            assert_eq!(got, task);
            assert_eq!(data_id, vec![1, 2, 3]);
        }
        WorkerAction::ProtocolError => panic!("a task is no protocol error"),
    }
    assert!(matches!(worker::on_message(request_message(), Vec::new()), WorkerAction::ProtocolError));
    let (result, payload) = reply_to(&task, create_identification(), 1);
    assert!(matches!(worker::on_message(result, payload), WorkerAction::ProtocolError));
}

#[test]
fn request_gets_the_tile_that_is_out() {
    let mut coordinator = Coordinator::new(Exhaustion::Close);
    assert_eq!(coordinator.plan.current_range, 0);
    let (event, reply) = coordinator.on_message(&request_message(), &[]);
    assert!(matches!(event, Event::Requested));
    expect_task(reply, 0);
    assert_eq!(coordinator.plan.current_range, 0);
    // Asking again gives the same tile.
    let (_, reply) = coordinator.on_message(&request_message(), &[0xff; 5]);
    expect_task(reply, 0);
}

#[test]
fn result_moves_on_to_the_next_tile() {
    let mut coordinator = Coordinator::new(Exhaustion::Close);
    let (_, reply) = coordinator.on_message(&request_message(), &[]);
    let (task, data_id) = expect_task(reply, 0);
    let (message, payload) = reply_to(&task, data_id, 7);
    assert_eq!(&payload[..16], &create_identification()[..]);
    let (event, reply) = coordinator.on_message(&message, &payload);
    match event {
        Event::Taken { resolution, range, pixels } => {
            assert_eq!(resolution, task.resolution);
            assert_eq!(range, task.range);
            assert_eq!(pixels, tile_pixels(7));
        }
        _ => panic!("the result was not taken"),
    }
    expect_task(reply, 1);
    assert_eq!(coordinator.plan.current_range, 1);
}

#[test]
fn every_tile_goes_out_once_then_the_connection_closes() {
    let mut coordinator = Coordinator::new(Exhaustion::Close);
    let (_, mut reply) = coordinator.on_message(&request_message(), &[]);
    for tile in 0..16u8 {
        let (task, data_id) = expect_task(reply, tile);
        let (message, payload) = reply_to(&task, data_id, tile as u32);
        let (event, next) = coordinator.on_message(&message, &payload);
        assert!(matches!(event, Event::Taken { .. }));
        reply = next;
    }
    assert!(matches!(reply, Reply::Close));
    assert_eq!(coordinator.plan.current_range, 16);
    let (event, reply) = coordinator.on_message(&request_message(), &[]);
    assert!(matches!(event, Event::Requested));
    assert!(matches!(reply, Reply::Close));
}

#[test]
fn wrap_around_starts_over() {
    let mut coordinator = Coordinator::new(Exhaustion::WrapAround);
    let (_, mut reply) = coordinator.on_message(&request_message(), &[]);
    for round in 0..40u8 {
        let (task, data_id) = expect_task(reply, round % 16);
        let (message, payload) = reply_to(&task, data_id, 3);
        reply = coordinator.on_message(&message, &payload).1;
    }
    expect_task(reply, 40 % 16);
    assert_eq!(coordinator.plan.current_range, 8);
}

#[test]
fn dropped_result_sends_the_same_tile_again() {
    let mut coordinator = Coordinator::new(Exhaustion::Close);
    let (_, reply) = coordinator.on_message(&request_message(), &[]);
    let (task, data_id) = expect_task(reply, 0);
    let (message, mut payload) = reply_to(&task, data_id, 9);
    payload[8] = 0;
    let (event, reply) = coordinator.on_message(&message, &payload);
    assert!(matches!(
        event,
        Event::Discarded { error: AssemblyError::IdentificationMismatch }
    ));
    expect_task(reply, 0);
    assert_eq!(coordinator.plan.current_range, 0);

    let (event, reply) = coordinator.on_message(&message, &payload[..100]);
    assert!(matches!(event, Event::Discarded { error: AssemblyError::IdentificationMismatch }));
    expect_task(reply, 0);

    payload[8] = 0x6a;
    let (event, _) = coordinator.on_message(&message, &payload[..100]);
    assert!(matches!(event, Event::Discarded { error: AssemblyError::Truncated }));
    let (event, _) = coordinator.on_message(&message, &payload[..10]);
    assert!(matches!(event, Event::Discarded { error: AssemblyError::Truncated }));
    assert_eq!(coordinator.plan.current_range, 0);
}

#[test]
fn task_at_the_coordinator_is_a_protocol_error() {
    let mut coordinator = Coordinator::new(Exhaustion::WrapAround);
    let task = RangeManager::new().get_current_range(0);
    let (event, reply) =
        coordinator.on_message(&Message::FragmentTask(task), &create_identification());
    assert!(matches!(event, Event::ProtocolError));
    assert!(matches!(reply, Reply::Close));
    assert_eq!(coordinator.plan.current_range, 0);
}
