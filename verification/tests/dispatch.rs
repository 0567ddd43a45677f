use phone_validation::batch_window::Window;
use phone_validation::dispatcher::{Action, Dispatcher, Event, Phase};
use phone_validation::lookup_client::{
    LookupOutcome, ProviderReply, ResponseData, ResponsePhoneBasic,
};
use phone_validation::online_validation::run_online;
use phone_validation::CsvRow;

fn numbered_rows(count: usize) -> Vec<CsvRow> {
    (0..count)
        .map(|i| CsvRow {
            internal_id: format!("id{}", i),
            phone: format!("65025300{:02}", i),
            phone_type: None,
        })
        .collect()
}

fn typed(line_type: &str) -> ProviderReply {
    ProviderReply::Received {
        http_status: 200,
        body: String::new(),
        decoded: Some(ResponseData {
            phone: None,
            search_date: None,
            status_code: Some("200".to_string()),
            status_message: None,
            phone_basic: Some(ResponsePhoneBasic {
                line_type: Some(line_type.to_string()),
                ..ResponsePhoneBasic::default()
            }),
        }),
    }
}

fn unreachable_reply() -> ProviderReply {
    ProviderReply::Unreachable("timed out".to_string())
}

fn record_all(machine: &mut Dispatcher, window: Window) {
    for position in window.start..window.end {
        let action = machine.record(position, typed(&format!("T{}", position)));
        assert!(matches!(action, Action::Recorded { .. }));
    }
}

#[test]
fn new_run_is_idle_and_empty() {
    let machine = Dispatcher::new(numbered_rows(3));
    assert_eq!(machine.phase(), Phase::Idle);
    assert_eq!(machine.total(), 3);
    assert!(machine.results().is_empty());
    assert!(machine.origins().is_empty());
    assert_eq!(machine.rows(), &numbered_rows(3));
}

#[test]
fn run_without_rows_is_complete_at_once() {
    let mut machine = Dispatcher::new(Vec::new());
    assert!(matches!(machine.begin(), Action::Finish));
    assert_eq!(machine.phase(), Phase::Complete);
    assert!(machine.results().is_empty());
}

#[test]
fn twenty_five_rows_take_three_windows_and_three_pauses() {
    let mut machine = Dispatcher::new(numbered_rows(25));
    let mut dispatched = Vec::new();
    let mut pauses = Vec::new();
    let mut action = machine.step(Event::Start);
    loop {
        match action {
            Action::Dispatch(window) => {
                assert_eq!(machine.phase(), Phase::Dispatching);
                assert_eq!(machine.window(), window);
                assert_eq!(machine.results().len(), window.start);
                dispatched.push(window);
                record_all(&mut machine, window);
                match machine.step(Event::Joined { elapsed_millis: 250 }) {
                    Action::Wait(millis) => pauses.push(millis),
                    other => panic!("unexpected action {:?}", other),
                }
                assert_eq!(machine.phase(), Phase::Waiting);
                action = machine.step(Event::DelayElapsed);
            }
            Action::Finish => break,
            other => panic!("unexpected action {:?}", other),
        }
    }
    assert_eq!(
        dispatched,
        vec![
            Window { start: 0, end: 10 },
            Window { start: 10, end: 20 },
            Window { start: 20, end: 25 },
        ]
    );
    assert_eq!(pauses, vec![750, 750, 750]);
    assert!(pauses.len() >= 2);
    assert!(pauses.iter().sum::<u64>() + 3 * 250 >= 2000);
    assert_eq!(machine.phase(), Phase::Complete);
    assert_eq!(machine.results().len(), 25);
    for (i, row) in machine.results().iter().enumerate() {
        assert_eq!(row.internal_id, format!("id{}", i));
        assert_eq!(row.phone, format!("65025300{:02}", i));
        assert_eq!(row.phone_type, Some(format!("T{}", i)));
    }
    assert_eq!(machine.origins(), &(0..25).collect::<Vec<usize>>());
}

#[test]
fn results_follow_the_order_of_completion_within_a_window() {
    let mut machine = Dispatcher::new(numbered_rows(12));
    assert!(matches!(machine.begin(), Action::Dispatch(Window { start: 0, end: 10 })));
    let order = [3usize, 0, 9, 1, 2, 8, 7, 4, 6, 5];
    for position in order {
        assert!(matches!(
            machine.record(position, typed(&format!("T{}", position))),
            Action::Recorded { .. }
        ));
    }
    assert_eq!(machine.origins(), &order.to_vec());
    for (slot, position) in order.iter().enumerate() {
        assert_eq!(machine.results()[slot].internal_id, format!("id{}", position));
        assert_eq!(machine.results()[slot].phone_type, Some(format!("T{}", position)));
    }
    assert!(matches!(machine.pace(1500), Action::Wait(0)));
    assert!(matches!(machine.resume(), Action::Dispatch(Window { start: 10, end: 12 })));
    assert!(matches!(machine.record(11, typed("b")), Action::Recorded { .. }));
    assert!(matches!(machine.record(10, typed("a")), Action::Recorded { .. }));
    assert!(matches!(machine.pace(0), Action::Wait(1000)));
    assert!(matches!(machine.resume(), Action::Finish));
    assert_eq!(machine.phase(), Phase::Complete);
    let mut seen: Vec<usize> = machine.origins().clone();
    seen.sort();
    assert_eq!(seen, (0..12).collect::<Vec<usize>>());
    for slot in 0..12 {
        assert_eq!(machine.origins()[slot] / 10, slot / 10);
    }
}

#[test]
fn a_row_is_recorded_once_only() {
    let mut machine = Dispatcher::new(numbered_rows(5));
    machine.begin();
    assert!(matches!(machine.record(2, typed("first")), Action::Recorded { .. }));
    assert!(matches!(machine.record(2, typed("second")), Action::Rejected));
    assert_eq!(machine.results().len(), 1);
    assert_eq!(machine.results()[0].phone_type, Some("first".to_string()));
}

#[test]
fn a_row_outside_the_window_is_rejected() {
    let mut machine = Dispatcher::new(numbered_rows(25));
    machine.begin();
    assert!(matches!(machine.record(10, typed("x")), Action::Rejected));
    assert!(matches!(machine.record(25, typed("x")), Action::Rejected));
    assert!(matches!(machine.record(usize::MAX, typed("x")), Action::Rejected));
    assert!(machine.results().is_empty());
    assert_eq!(machine.phase(), Phase::Dispatching);
}

#[test]
fn events_out_of_turn_are_rejected() {
    let mut machine = Dispatcher::new(numbered_rows(3));
    assert!(matches!(machine.record(0, typed("x")), Action::Rejected));
    assert!(matches!(machine.pace(0), Action::Rejected));
    assert!(matches!(machine.resume(), Action::Rejected));
    assert!(matches!(machine.interrupt(), Action::Rejected));
    assert_eq!(machine.phase(), Phase::Idle);
    machine.begin();
    assert!(matches!(machine.begin(), Action::Rejected));
    assert!(matches!(machine.resume(), Action::Rejected));
    assert!(matches!(machine.pace(0), Action::Rejected));
    assert_eq!(machine.phase(), Phase::Dispatching);
    record_all(&mut machine, Window { start: 0, end: 3 });
    assert!(matches!(machine.pace(0), Action::Wait(1000)));
    assert!(matches!(machine.record(0, typed("x")), Action::Rejected));
    assert!(matches!(machine.pace(0), Action::Rejected));
    assert_eq!(machine.phase(), Phase::Waiting);
}

#[test]
fn transport_failure_ends_the_run_and_keeps_what_was_recorded() {
    let mut machine = Dispatcher::new(numbered_rows(25));
    machine.begin();
    record_all(&mut machine, Window { start: 0, end: 10 });
    machine.pace(0);
    assert!(matches!(machine.resume(), Action::Dispatch(Window { start: 10, end: 20 })));
    assert!(matches!(machine.record(14, typed("a")), Action::Recorded { .. }));
    assert!(matches!(machine.record(11, typed("b")), Action::Recorded { .. }));
    match machine.record(12, unreachable_reply()) {
        Action::Abort { outcome: LookupOutcome::TransportFailure(text), http_warning: None } => {
            assert_eq!(text, "timed out")
        }
        other => panic!("unexpected action {:?}", other),
    }
    assert_eq!(machine.phase(), Phase::Aborted);
    assert!(matches!(machine.record(13, typed("late")), Action::Rejected));
    assert!(matches!(machine.pace(0), Action::Rejected));
    assert!(matches!(machine.resume(), Action::Rejected));
    assert!(matches!(machine.begin(), Action::Rejected));
    assert!(matches!(machine.interrupt(), Action::Rejected));
    assert_eq!(machine.phase(), Phase::Aborted);
    assert_eq!(machine.results().len(), 12);
    let mut expected: Vec<usize> = (0..10).collect();
    expected.push(14);
    expected.push(11);
    assert_eq!(machine.origins(), &expected);
    assert_eq!(machine.results()[10].internal_id, "id14");
    assert_eq!(machine.results()[11].phone_type, Some("b".to_string()));
}

#[test]
fn undecodable_reply_ends_the_run() {
    let mut machine = Dispatcher::new(numbered_rows(2));
    machine.begin();
    let reply =
        ProviderReply::Received { http_status: 502, body: "gateway".to_string(), decoded: None };
    match machine.record(0, reply) {
        Action::Abort { outcome: LookupOutcome::DecodeFailure(body), http_warning } => {
            assert_eq!(body, "gateway");
            assert_eq!(http_warning, Some(502));
        }
        other => panic!("unexpected action {:?}", other),
    }
    assert_eq!(machine.phase(), Phase::Aborted);
    assert!(machine.results().is_empty());
}

#[test]
fn window_cannot_be_closed_before_all_its_rows_are_recorded() {
    let mut machine = Dispatcher::new(numbered_rows(4));
    machine.begin();
    machine.record(0, typed("a"));
    machine.record(1, typed("b"));
    assert!(matches!(machine.pace(10), Action::Rejected));
    assert_eq!(machine.phase(), Phase::Dispatching);
    machine.record(3, typed("d"));
    machine.record(2, typed("c"));
    assert!(matches!(machine.pace(10), Action::Wait(990)));
}

#[test]
fn interrupt_while_dispatching_keeps_the_rows_recorded_so_far() {
    let mut machine = Dispatcher::new(numbered_rows(25));
    machine.begin();
    machine.record(4, typed("a"));
    machine.record(0, typed("b"));
    assert!(matches!(machine.step(Event::Interrupt), Action::Flush));
    assert_eq!(machine.phase(), Phase::Interrupted);
    assert_eq!(machine.origins(), &vec![4, 0]);
    assert_eq!(machine.results().len(), 2);
    assert_eq!(machine.results()[0].internal_id, "id4");
    assert_eq!(machine.results()[1].internal_id, "id0");
    assert!(matches!(machine.record(1, typed("late")), Action::Rejected));
    assert!(matches!(machine.pace(0), Action::Rejected));
    assert!(matches!(machine.resume(), Action::Rejected));
    assert!(matches!(machine.interrupt(), Action::Rejected));
    assert_eq!(machine.results().len(), 2);
}

#[test]
fn interrupt_while_waiting_prevents_the_next_window() {
    let mut machine = Dispatcher::new(numbered_rows(15));
    machine.begin();
    record_all(&mut machine, Window { start: 0, end: 10 });
    machine.pace(300);
    assert!(matches!(machine.interrupt(), Action::Flush));
    assert!(matches!(machine.resume(), Action::Rejected));
    assert_eq!(machine.phase(), Phase::Interrupted);
    assert_eq!(machine.into_results().len(), 10);
}

#[test]
fn interrupt_after_completion_is_rejected() {
    let mut machine = Dispatcher::new(numbered_rows(1));
    machine.begin();
    machine.record(0, typed("a"));
    machine.pace(0);
    assert!(matches!(machine.resume(), Action::Finish));
    assert!(matches!(machine.interrupt(), Action::Rejected));
    assert_eq!(machine.phase(), Phase::Complete);
}

#[test]
fn step_and_methods_agree() {
    let mut by_step = Dispatcher::new(numbered_rows(11));
    let mut by_call = Dispatcher::new(numbered_rows(11));
    assert!(matches!(by_step.step(Event::Start), Action::Dispatch(Window { start: 0, end: 10 })));
    assert!(matches!(by_call.begin(), Action::Dispatch(Window { start: 0, end: 10 })));
    for position in 0..10 {
        by_step.step(Event::Completed { position, reply: typed("t") });
        by_call.record(position, typed("t"));
    }
    assert!(matches!(by_step.step(Event::Joined { elapsed_millis: 1 }), Action::Wait(999)));
    assert!(matches!(by_call.pace(1), Action::Wait(999)));
    assert!(matches!(by_step.step(Event::DelayElapsed), Action::Dispatch(Window { start: 10, end: 11 })));
    assert!(matches!(by_call.resume(), Action::Dispatch(Window { start: 10, end: 11 })));
    assert_eq!(by_step.results(), by_call.results());
    assert_eq!(by_step.phase(), by_call.phase());
}

#[test]
fn complete_online_run_resolves_every_row() {
    let replies = (0..25).map(|i| typed(&format!("T{}", i))).collect();
    let run = run_online(numbered_rows(25), replies);
    assert_eq!(run.phase, Phase::Complete);
    assert!(run.failure.is_none());
    assert_eq!(run.results.len(), 25);
    for (i, row) in run.results.iter().enumerate() {
        assert_eq!(row.internal_id, format!("id{}", i));
        assert_eq!(row.phone_type, Some(format!("T{}", i)));
    }
}

#[test]
fn online_run_stops_at_the_first_failure() {
    let mut replies: Vec<ProviderReply> = (0..25).map(|i| typed(&format!("T{}", i))).collect();
    replies[13] = unreachable_reply();
    let run = run_online(numbered_rows(25), replies);
    assert_eq!(run.phase, Phase::Aborted);
    assert!(matches!(run.failure, Some(LookupOutcome::TransportFailure(ref t)) if t == "timed out"));
    assert_eq!(run.results.len(), 13);
    assert_eq!(run.results[12].internal_id, "id12");
    assert_eq!(run.results[12].phone_type, Some("T12".to_string()));
}

#[test]
fn online_run_is_cut_short_where_the_replies_give_out() {
    let replies = (0..7).map(|i| typed(&format!("T{}", i))).collect();
    let run = run_online(numbered_rows(25), replies);
    assert_eq!(run.phase, Phase::Interrupted);
    assert!(run.failure.is_none());
    assert_eq!(run.results.len(), 7);
}

#[test]
fn online_run_ignores_replies_beyond_the_rows() {
    let mut replies: Vec<ProviderReply> = (0..3).map(|i| typed(&format!("T{}", i))).collect();
    replies.push(unreachable_reply());
    let run = run_online(numbered_rows(3), replies);
    assert_eq!(run.phase, Phase::Complete);
    assert!(run.failure.is_none());
    assert_eq!(run.results.len(), 3);
}

#[test]
fn online_run_without_rows_is_complete() {
    let run = run_online(Vec::new(), Vec::new());
    assert_eq!(run.phase, Phase::Complete);
    assert!(run.results.is_empty());
}

#[test]
fn online_run_gives_no_type_where_the_record_is_missing() {
    let reply = ProviderReply::Received {
        http_status: 200,
        body: String::new(),
        decoded: Some(ResponseData {
            phone: None,
            search_date: None,
            status_code: Some("200".to_string()),
            status_message: None,
            phone_basic: None,
        }),
    };
    let mut rows = numbered_rows(1);
    rows[0].phone_type = Some("old".to_string());
    let run = run_online(rows, vec![reply]);
    assert_eq!(run.results[0].phone_type, None);
}
