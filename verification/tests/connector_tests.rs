use sheet_connector::backoff::{backoff_init, Backoff};
use sheet_connector::connector::{
    delivery_event, plan_attempt, Action, Attempt, Connector, Event, Fatal, Phase,
};
use sheet_connector::json::Json;
use sheet_connector::payload::{DecodeError, Field, Payload};
use sheet_connector::sink::{DeliveryOutcome, Rejection};

const IDLE: Phase = Phase::Reconnecting { attempt: None };
const PULLING: Phase = Phase::Connected { delivering: false };
const DELIVERING: Phase = Phase::Connected { delivering: true };

fn started() -> Connector {
    Connector::new(backoff_init().unwrap())
}

fn connected() -> Connector {
    let mut connector = started();
    assert_eq!(connector.step(Event::Resume), Action::Connect);
    assert_eq!(connector.step(Event::ConnectSucceeded), Action::Pull);
    connector
}

fn record(range: &str) -> Vec<u8> {
    format!(
        r#"{{"range":"{}","values":[[1,2]],"major_dimension":"ROWS","spreadsheet_id":"X"}}"#,
        range
    )
    .into_bytes()
}

fn delivered() -> Event {
    Event::DeliveryReturned(DeliveryOutcome::Delivered { status: 200 })
}

#[test]
fn connector_starts_without_a_connection() {
    let connector = started();
    assert_eq!(connector.phase(), IDLE);
    assert_eq!(connector.backoff().current_millis(), 1_000);
}

#[test]
fn new_connector_resets_the_policy_it_is_given() {
    let mut backoff = Backoff::new(10, 2, 1_000).unwrap();
    backoff.next();
    backoff.next();
    let connector = Connector::new(backoff);
    assert_eq!(connector.backoff().current_millis(), 10);
}

#[test]
fn two_failures_then_success() {
    let mut connector = started();
    assert_eq!(connector.step(Event::Resume), Action::Connect);
    assert_eq!(connector.phase(), Phase::Reconnecting { attempt: Some(1_000) });
    assert_eq!(connector.step(Event::ConnectFailed), Action::Sleep { millis: 1_000 });
    assert_eq!(connector.phase(), IDLE);
    assert_eq!(connector.step(Event::Resume), Action::Connect);
    assert_eq!(connector.step(Event::ConnectFailed), Action::Sleep { millis: 2_000 });
    assert_eq!(connector.step(Event::Resume), Action::Connect);
    assert_eq!(connector.backoff().current_millis(), 8_000);
    assert_eq!(connector.step(Event::ConnectSucceeded), Action::Pull);
    assert_eq!(connector.phase(), PULLING);
    assert_eq!(connector.backoff().current_millis(), 1_000);
}

#[test]
fn failures_sleep_longer_each_time_until_the_ceiling() {
    let mut connector = started();
    let mut sleeps: Vec<u64> = Vec::new();
    for _ in 0..17 {
        assert_eq!(connector.step(Event::Resume), Action::Connect);
        match connector.step(Event::ConnectFailed) {
            Action::Sleep { millis } => sleeps.push(millis),
            other => panic!("expected a sleep, got {:?}", other),
        }
    }
    assert_eq!(sleeps.len(), 17);
    assert_eq!(sleeps[0], 1_000);
    assert_eq!(sleeps[16], 65_536_000);
    for pair in sleeps.windows(2) {
        assert_eq!(pair[1], pair[0] * 2);
    }
    for _ in 0..10 {
        assert_eq!(connector.step(Event::Resume), Action::SkipSleep);
        assert_eq!(connector.phase(), IDLE);
        assert_eq!(connector.backoff().current_millis(), 86_400_000);
    }
}

#[test]
fn at_the_ceiling_no_connection_is_tried() {
    let mut connector = Connector::new(Backoff::new(5, 2, 5).unwrap());
    assert_eq!(connector.step(Event::Resume), Action::SkipSleep);
    assert_eq!(connector.step(Event::Resume), Action::SkipSleep);
    assert_eq!(connector.phase(), IDLE);
    assert_eq!(connector.backoff().current_millis(), 5);
}

#[test]
fn record_is_handed_to_the_sink_as_decoded() {
    let mut connector = connected();
    let action = connector.step(Event::Item(record("A1")));
    assert_eq!(
        action,
        Action::Deliver(Payload {
            range: String::from("A1"),
            values: vec![vec![Json::Number(String::from("1")), Json::Number(String::from("2"))]],
            major_dimension: String::from("ROWS"),
            spreadsheet_id: String::from("X"),
        })
    );
    assert_eq!(connector.phase(), DELIVERING);
    assert_eq!(connector.step(delivered()), Action::Pull);
    assert_eq!(connector.phase(), PULLING);
}

#[test]
fn item_with_missing_fields_is_skipped_without_reconnecting() {
    let mut connector = connected();
    let action = connector.step(Event::Item(br#"{"range":"A1"}"#.to_vec()));
    assert_eq!(action, Action::SkipRecord(DecodeError::MissingField(Field::Values)));
    assert_eq!(connector.phase(), PULLING);
    assert_eq!(connector.step(Event::Resume), Action::Pull);
    assert_eq!(connector.phase(), PULLING);
    match connector.step(Event::Item(record("A2"))) {
        Action::Deliver(payload) => assert_eq!(payload.range, "A2"),
        other => panic!("expected a delivery, got {:?}", other),
    }
}

#[test]
fn decode_failure_leaves_the_backoff_alone() {
    let mut backoff = Backoff::new(10, 3, 1_000).unwrap();
    backoff.next();
    let mut connector = Connector::new(backoff);
    connector.step(Event::Resume);
    connector.step(Event::ConnectSucceeded);
    let before = connector.backoff();
    assert_eq!(
        connector.step(Event::Item(b"garbage".to_vec())),
        Action::SkipRecord(DecodeError::Malformed)
    );
    let after = connector.backoff();
    assert_eq!(after.current_millis(), before.current_millis());
    assert_eq!(after.min_millis(), before.min_millis());
    assert_eq!(after.max_millis(), before.max_millis());
    assert_eq!(after.factor(), before.factor());
    assert_eq!(connector.phase(), PULLING);
}

#[test]
fn records_reach_the_sink_in_stream_order() {
    let mut connector = connected();
    let mut items: Vec<Vec<u8>> = Vec::new();
    for tag in 0..20 {
        items.push(record(&format!("T{}", tag)));
        if tag % 3 == 0 {
            items.push(b"no record".to_vec());
        }
    }
    let mut seen: Vec<String> = Vec::new();
    for item in items {
        match connector.step(Event::Item(item)) {
            Action::Deliver(payload) => {
                seen.push(payload.range);
                assert_eq!(connector.step(delivered()), Action::Pull);
            }
            Action::SkipRecord(_) => assert_eq!(connector.step(Event::Resume), Action::Pull),
            other => panic!("unexpected action {:?}", other),
        }
    }
    let expected: Vec<String> = (0..20).map(|tag| format!("T{}", tag)).collect();
    assert_eq!(seen, expected);
    assert_eq!(connector.phase(), PULLING);
}

#[test]
fn rejection_by_the_service_keeps_the_connection() {
    let rejections = [
        Rejection::Transport,
        Rejection::Authentication,
        Rejection::Cancelled,
        Rejection::PayloadTooLarge,
        Rejection::MalformedRequest,
        Rejection::ServerFailure,
        Rejection::ResponseDecode,
    ];
    let mut connector = connected();
    for rejection in rejections {
        connector.step(Event::Item(record("A1")));
        assert_eq!(
            connector.step(Event::DeliveryReturned(DeliveryOutcome::Rejected(rejection))),
            Action::Pull
        );
        assert_eq!(connector.phase(), PULLING);
        assert_eq!(connector.backoff().current_millis(), 1_000);
    }
}

#[test]
fn failed_delivery_call_is_fatal() {
    let mut connector = connected();
    connector.step(Event::Item(record("A1")));
    assert_eq!(
        connector.step(Event::DeliveryCallFailed),
        Action::Stop(Fatal::DeliveryCallFailed)
    );
    assert_eq!(connector.phase(), Phase::Terminated(Fatal::DeliveryCallFailed));
}

#[test]
fn end_of_stream_ends_the_connector_in_good_order() {
    let mut connector = connected();
    assert_eq!(connector.step(Event::SourceClosed), Action::Finish);
    assert_eq!(connector.phase(), Phase::Finished);
    assert_eq!(connector.step(Event::Resume), Action::Finish);
    assert_eq!(connector.step(Event::Item(record("A1"))), Action::Finish);
    assert_eq!(connector.phase(), Phase::Finished);
}

#[test]
fn stream_error_is_fatal() {
    let mut connector = connected();
    assert_eq!(connector.step(Event::SourceFailed), Action::Stop(Fatal::SourceFailed));
    assert_eq!(connector.phase(), Phase::Terminated(Fatal::SourceFailed));
}

#[test]
fn unusable_settings_are_fatal() {
    let mut connector = started();
    assert_eq!(connector.step(Event::Resume), Action::Connect);
    assert_eq!(
        connector.step(Event::ConfigurationInvalid),
        Action::Stop(Fatal::InvalidConfiguration)
    );
    assert_eq!(connector.phase(), Phase::Terminated(Fatal::InvalidConfiguration));
}

#[test]
fn terminated_connector_stays_terminated() {
    let mut connector = connected();
    connector.step(Event::SourceFailed);
    assert_eq!(connector.step(Event::Resume), Action::Stop(Fatal::SourceFailed));
    assert_eq!(connector.step(Event::ConnectSucceeded), Action::Stop(Fatal::SourceFailed));
    assert_eq!(connector.phase(), Phase::Terminated(Fatal::SourceFailed));
}

#[test]
fn events_out_of_turn_are_fatal() {
    let mut connector = started();
    assert_eq!(connector.step(Event::ConnectFailed), Action::Stop(Fatal::OutOfTurn));

    let mut connector = started();
    connector.step(Event::Resume);
    assert_eq!(connector.step(Event::Resume), Action::Stop(Fatal::OutOfTurn));

    let mut connector = connected();
    assert_eq!(connector.step(delivered()), Action::Stop(Fatal::OutOfTurn));

    let mut connector = connected();
    connector.step(Event::Item(record("A1")));
    assert_eq!(connector.step(Event::Item(record("A2"))), Action::Stop(Fatal::OutOfTurn));
    assert_eq!(connector.phase(), Phase::Terminated(Fatal::OutOfTurn));
}

#[test]
fn resume_while_connected_asks_for_the_next_item() {
    let mut connector = connected();
    assert_eq!(connector.step(Event::Resume), Action::Pull);
    assert_eq!(connector.phase(), PULLING);
}

#[test]
fn attempt_without_a_wait_is_given_up() {
    assert_eq!(plan_attempt(None, 86_400_000), Attempt::Exhausted);
    assert_eq!(plan_attempt(None, 0), Attempt::Exhausted);
}

#[test]
fn attempt_at_or_above_the_ceiling_is_skipped() {
    assert_eq!(plan_attempt(Some(86_400_000), 86_400_000), Attempt::AtCeiling);
    assert_eq!(plan_attempt(Some(86_400_001), 86_400_000), Attempt::AtCeiling);
    assert_eq!(plan_attempt(Some(0), 0), Attempt::AtCeiling);
}

#[test]
fn attempt_below_the_ceiling_goes_ahead_with_its_wait() {
    assert_eq!(plan_attempt(Some(86_399_999), 86_400_000), Attempt::Try { wait: 86_399_999 });
    assert_eq!(plan_attempt(Some(1_000), 86_400_000), Attempt::Try { wait: 1_000 });
}

#[test]
fn end_of_a_delivery_is_reported_with_its_outcome() {
    let taken = DeliveryOutcome::Delivered { status: 200 };
    assert_eq!(delivery_event(Some(taken)), Event::DeliveryReturned(taken));
    let refused = DeliveryOutcome::Rejected(Rejection::ServerFailure);
    assert_eq!(delivery_event(Some(refused)), Event::DeliveryReturned(refused));
}

#[test]
fn end_of_a_delivery_without_an_outcome_is_a_failed_call() {
    assert_eq!(delivery_event(None), Event::DeliveryCallFailed);
    let mut connector = connected();
    connector.step(Event::Item(record("A1")));
    assert_eq!(connector.step(delivery_event(None)), Action::Stop(Fatal::DeliveryCallFailed));
}

#[test]
fn caller_that_answers_each_action_is_never_out_of_turn() {
    let mut connector = started();
    let mut items = vec![record("A1"), b"junk".to_vec(), record("A2")].into_iter();
    let mut failures_left = 3;
    let mut event = Event::Resume;
    let mut delivered_ranges: Vec<String> = Vec::new();
    loop {
        event = match connector.step(event) {
            Action::Connect => {
                if failures_left > 0 {
                    failures_left -= 1;
                    Event::ConnectFailed
                } else {
                    Event::ConnectSucceeded
                }
            }
            Action::Sleep { .. } | Action::SkipSleep | Action::SkipRecord(_) => Event::Resume,
            Action::Pull => match items.next() {
                Some(item) => Event::Item(item),
                None => Event::SourceClosed,
            },
            Action::Deliver(payload) => {
                delivered_ranges.push(payload.range);
                delivery_event(Some(DeliveryOutcome::Rejected(Rejection::Transport)))
            }
            Action::Stop(fatal) => panic!("stopped with {:?}", fatal),
            Action::Finish => break,
        };
    }
    assert_eq!(delivered_ranges, vec![String::from("A1"), String::from("A2")]);
    assert_eq!(connector.phase(), Phase::Finished);
}
