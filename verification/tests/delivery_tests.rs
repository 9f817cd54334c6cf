use res_relay::delivery::{Action, Event, Failure, LoopState, IDLE_MILLIS, PACE_MILLIS};
use res_relay::payload::Payload;
use res_relay::record::Res;

fn rec(no: i32, oekaki_id: Option<i32>) -> Res {
    Res {
        no,
        name_and_trip: String::from("poster"),
        datetime: 0,
        datetime_text: String::from("2024/01/01 00:00"),
        id: String::from("IDID"),
        main_text: String::from("text"),
        main_text_html: String::from("<p>text</p>"),
        oekaki_id,
    }
}

/// Drives the machine over a batch where every external step succeeds,
/// recording what it was asked to do, until the machine asks to fetch
/// again.  Returns (delivered record numbers, persisted cursor values,
/// sleeps requested).
fn drain(mut state: LoopState) -> (LoopState, Vec<i32>, Vec<i32>, Vec<u64>) {
    let mut delivered = Vec::new();
    let mut persisted = Vec::new();
    let mut sleeps = Vec::new();
    loop {
        let event = match state.next_action() {
            Action::Fetch { .. } => break,
            Action::Deliver { record_no, .. } => {
                delivered.push(record_no);
                Event::Delivered
            }
            Action::Persist { value } => {
                persisted.push(value);
                Event::Persisted
            }
            Action::Sleep { millis } => {
                sleeps.push(millis);
                Event::Slept
            }
        };
        state = state.apply(event).expect("no step failed");
    }
    (state, delivered, persisted, sleeps)
}

#[test]
fn first_action_fetches_beyond_the_cursor() {
    let state = LoopState::init(41, String::from("https://img/"));
    match state.next_action() {
        Action::Fetch { since } => assert_eq!(since, 41),
        _ => panic!("expected a fetch"),
    }
}

#[test]
fn batch_is_delivered_in_ascending_order() {
    let state = LoopState::init(0, String::from("https://img/"));
    let batch = vec![rec(1, None), rec(2, Some(9)), rec(5, None)];
    let state = state.apply(Event::Fetched { records: batch }).unwrap();
    let (state, delivered, persisted, sleeps) = drain(state);
    assert_eq!(delivered, vec![1, 2, 5]);
    assert_eq!(persisted, vec![1, 2, 5]);
    assert_eq!(state.cursor, 5);
    // one pacing sleep per record, then the idle sleep
    assert_eq!(sleeps, vec![PACE_MILLIS, PACE_MILLIS, PACE_MILLIS, IDLE_MILLIS]);
}

#[test]
fn resume_skips_nothing_and_repeats_nothing() {
    // a persisted cursor of 2 with records 3 and 4 beyond it
    let state = LoopState::init(2, String::from("https://img/"));
    let state = state
        .apply(Event::Fetched { records: vec![rec(3, None), rec(4, None)] })
        .unwrap();
    let (state, delivered, persisted, _) = drain(state);
    assert_eq!(delivered, vec![3, 4]);
    assert_eq!(persisted, vec![3, 4]);
    assert_eq!(state.cursor, 4);
}

#[test]
fn cursor_is_persisted_after_each_delivery() {
    let state = LoopState::init(0, String::from("p/"));
    let state = state.apply(Event::Fetched { records: vec![rec(8, None)] }).unwrap();
    // deliver, then the very next action must persist the new cursor
    let state = match state.next_action() {
        Action::Deliver { record_no, .. } => {
            assert_eq!(record_no, 8);
            state.apply(Event::Delivered).unwrap()
        }
        _ => panic!("expected a delivery"),
    };
    assert_eq!(state.cursor, 8);
    match state.next_action() {
        Action::Persist { value } => assert_eq!(value, 8),
        _ => panic!("expected a persist"),
    }
}

#[test]
fn delivered_payload_matches_the_record() {
    let state = LoopState::init(0, String::from("https://img/"));
    let state = state.apply(Event::Fetched { records: vec![rec(3, Some(7))] }).unwrap();
    match state.next_action() {
        Action::Deliver { payload, record_no } => {
            assert_eq!(record_no, 3);
            match payload {
                Payload::WithImage { content, image_url } => {
                    assert_eq!(
                        content,
                        "### __3 poster 2024/01/01 00:00 ID: IDID__\ntext\n"
                    );
                    assert_eq!(image_url, "https://img/7.png");
                }
                Payload::TextOnly { .. } => panic!("expected an image payload"),
            }
        }
        _ => panic!("expected a delivery"),
    }
}

#[test]
fn empty_fetch_only_idles() {
    let state = LoopState::init(10, String::from("p/"));
    let state = state.apply(Event::Fetched { records: vec![] }).unwrap();
    // no delivery and no persist may happen before the next fetch
    match state.next_action() {
        Action::Sleep { millis } => assert_eq!(millis, IDLE_MILLIS),
        _ => panic!("expected the idle sleep"),
    }
    let state = state.apply(Event::Slept).unwrap();
    assert_eq!(state.cursor, 10);
    match state.next_action() {
        Action::Fetch { since } => assert_eq!(since, 10),
        _ => panic!("expected a fetch"),
    }
}

#[test]
fn send_failure_halts_with_cursor_unmoved() {
    let state = LoopState::init(3, String::from("p/"));
    let state = state
        .apply(Event::Fetched { records: vec![rec(4, None), rec(5, None), rec(6, None)] })
        .unwrap();
    // record 4 goes through
    let state = state.apply(Event::Delivered).unwrap();
    let state = state.apply(Event::Persisted).unwrap();
    let state = state.apply(Event::Slept).unwrap();
    // the send of record 5 fails: the machine halts, cursor still 4
    let stopped = state.apply(Event::SendFailed).unwrap_err();
    assert!(matches!(stopped.failure, Failure::Delivery));
    assert_eq!(stopped.cursor, 4);
}

#[test]
fn fetch_failure_halts_with_data_access_error() {
    let state = LoopState::init(0, String::from("p/"));
    let stopped = state.apply(Event::FetchFailed).unwrap_err();
    assert!(matches!(stopped.failure, Failure::DataAccess));
    assert_eq!(stopped.cursor, 0);
}

#[test]
fn persist_failure_halts_with_persistence_error() {
    let state = LoopState::init(0, String::from("p/"));
    let state = state.apply(Event::Fetched { records: vec![rec(1, None)] }).unwrap();
    let state = state.apply(Event::Delivered).unwrap();
    let stopped = state.apply(Event::PersistFailed).unwrap_err();
    assert!(matches!(stopped.failure, Failure::Persistence));
    assert_eq!(stopped.cursor, 1);
}
