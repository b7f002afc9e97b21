use mail_worker::config::Config;
use mail_worker::database::{get_smtp_config, mark_timed_task, Setting, Store, TimedTask};
use mail_worker::mailer::try_send_mail;
use mail_worker::model::serve;
use mail_worker::models::{MailList, MailQueue, Timestamp, User};
use mail_worker::worker::{
    advance, heartbeat, is_valid_email, process_mail_queue, Action, Cycle, CyclePhase, Event, MailStatus,
};

fn entry(id: i32, status: &str, locked: &str, deleted: &str) -> MailQueue {
    MailQueue {
        id,
        user_uuid: format!("u{}", id),
        subject: format!("subject {}", id),
        body: format!("<p>body {}</p>", id),
        status: status.to_string(),
        deleted: deleted.to_string(),
        locked: locked.to_string(),
        created_at: None,
        updated_at: None,
    }
}

fn pending(id: i32) -> MailQueue {
    entry(id, "pending", "false", "false")
}

fn detail(id: i32, user_uuid: &str) -> MailList {
    MailList {
        id,
        queue_id: id,
        user_uuid: user_uuid.to_string(),
        deleted: "false".to_string(),
        locked: "false".to_string(),
        created_at: None,
        updated_at: None,
    }
}

fn user(uuid: &str, email: &str) -> User {
    User {
        id: 1,
        username: "name".to_string(),
        first_name: "First".to_string(),
        last_name: "Last".to_string(),
        email: email.to_string(),
        uuid: uuid.to_string(),
    }
}

fn config(max_retries: u32, retry_delay: u64) -> Config {
    Config {
        database_host: "mysql".to_string(),
        database_port: 3306,
        database_name: "featherpanel".to_string(),
        database_user: "featherpanel".to_string(),
        database_password: "featherpanel_password".to_string(),
        worker_interval: 60,
        max_retries,
        retry_delay,
    }
}

fn begin(max_retries: u32, retry_delay: u64) -> Cycle {
    let cycle = Cycle::new(&config(max_retries, retry_delay));
    assert!(cycle.is_well_formed());
    cycle
}

fn setting(name: &str, value: &str) -> Setting {
    Setting { name: name.to_string(), value: value.to_string() }
}

fn smtp_settings(encryption: &str) -> Vec<Setting> {
    vec![
        setting("smtp_enabled", "true"),
        setting("smtp_host", "smtp.example.com"),
        setting("smtp_port", "587"),
        setting("smtp_user", "mailer"),
        setting("smtp_pass", "hunter2"),
        setting("smtp_from", "noreply@example.com"),
        setting("smtp_encryption", encryption),
        setting("app_name", "Panel"),
    ]
}

fn store_with(settings: Vec<Setting>, queue: Vec<MailQueue>) -> Store {
    Store {
        now: Timestamp { seconds: 1_700_000_000, nanos: 0 },
        settings,
        mail_queue: queue,
        mail_list: vec![],
        users: vec![],
        timed_tasks: vec![],
    }
}

/// What was asked of the surroundings during one cycle, in order.
#[derive(Debug, Default)]
struct Trace {
    steps: Vec<String>,
    attempts: Vec<(i32, u32)>,
    sleeps: Vec<u64>,
}

fn describe(action: &Action) -> String {
    match action {
        Action::GetSetting { name } => format!("setting {}", name),
        Action::GetPendingMails => "fetch".to_string(),
        Action::UpdateMailLock { id, locked } => format!("lock {} {}", id, locked),
        Action::GetMailInfo { id } => format!("detail {}", id),
        Action::GetUserByUuid { uuid } => format!("user {}", uuid),
        Action::GetSmtpConfig => "smtp".to_string(),
        Action::Attempt { mail, number, .. } => format!("attempt {} {}", mail.id, number),
        Action::Sleep { seconds } => format!("sleep {}", seconds),
        Action::UpdateMailStatus { id, status, locked } => {
            format!("status {} {} {}", id, status.as_str(), locked)
        }
        Action::MarkTimedTask { task_name, success, .. } => {
            format!("heartbeat {} {}", task_name, success)
        }
        Action::Rest { seconds } => format!("rest {}", seconds),
    }
}

/// Runs one cycle against the store. The relay stub answers the attempt with
/// the number `n` for the entry `id` by `relay(id, n)`.
fn run_cycle(
    store: &mut Store,
    max_retries: u32,
    retry_delay: u64,
    relay: &dyn Fn(i32, u32) -> Result<(), String>,
) -> Trace {
    let mut trace = Trace::default();
    let cycle = begin(max_retries, retry_delay);
    assert!(cycle.accepts(&Event::Start));
    let (mut cycle, mut action) = process_mail_queue(cycle, Event::Start);
    loop {
        trace.steps.push(describe(&action));
        let event = match serve(store, &action) {
            Some(event) => event,
            None => match action {
                Action::Attempt { smtp_config, mail, user, number } => {
                    trace.attempts.push((mail.id, number));
                    let row = store.mail_queue.iter().find(|m| m.id == mail.id).unwrap();
                    assert_eq!(row.locked, "true");
                    assert_eq!(row.status, "pending");
                    Event::Attempted(match try_send_mail(&smtp_config, &mail, &user) {
                        Err(error) => Err(error.message()),
                        Ok(_) => relay(mail.id, number),
                    })
                }
                Action::Sleep { seconds } => {
                    trace.sleeps.push(seconds);
                    Event::Resumed
                }
                Action::Rest { .. } => {
                    assert!(cycle.is_finished());
                    return trace;
                }
                other => panic!("the store did not answer {:?}", other),
            },
        };
        assert!(cycle.is_well_formed());
        assert!(cycle.accepts(&event));
        let next = process_mail_queue(cycle, event);
        cycle = next.0;
        action = next.1;
    }
}

fn working(_id: i32, _attempt: u32) -> Result<(), String> {
    Ok(())
}

fn broken(_id: i32, _attempt: u32) -> Result<(), String> {
    Err("relay says no".to_string())
}

fn heartbeat_of(store: &Store) -> &TimedTask {
    assert_eq!(store.timed_tasks.len(), 1);
    &store.timed_tasks[0]
}

#[test]
fn email_with_at_and_dot_is_valid() {
    assert!(is_valid_email("a@b.c"));
    assert!(is_valid_email(".@"));
    assert!(is_valid_email("x@y.z"));
}

#[test]
fn email_without_at_or_dot_is_invalid() {
    assert!(!is_valid_email(""));
    assert!(!is_valid_email("abc"));
    assert!(!is_valid_email("a@b"));
    assert!(!is_valid_email("a.b"));
}

#[test]
fn end_to_end_single_entry_is_sent() {
    let mut store = store_with(smtp_settings("tls"), vec![pending(1)]);
    store.mail_queue[0].user_uuid = "u1".to_string();
    store.mail_list = vec![detail(1, "u1")];
    store.users = vec![user("u1", "x@y.z")];
    let trace = run_cycle(&mut store, 3, 2, &working);
    assert_eq!(
        trace.steps,
        vec![
            "setting smtp_enabled",
            "fetch",
            "lock 1 true",
            "detail 1",
            "user u1",
            "smtp",
            "attempt 1 1",
            "status 1 sent false",
            "heartbeat mail-sender true",
            "rest 60",
        ]
    );
    assert_eq!(store.mail_queue[0].status, "sent");
    assert_eq!(store.mail_queue[0].locked, "false");
    let beat = heartbeat_of(&store);
    assert!(beat.last_run_success);
    assert_eq!(beat.task_name, "mail-sender");
    assert_eq!(beat.last_run_message, "Mail sender heartbeat");
}

#[test]
fn disabled_cycle_fetches_nothing_and_reports_success() {
    for value in ["false", "TRUE", "True", "1", "", " true", "true "] {
        let mut store = store_with(vec![setting("smtp_enabled", value)], vec![pending(1)]);
        let trace = run_cycle(&mut store, 3, 2, &working);
        assert_eq!(trace.steps, vec!["setting smtp_enabled", "heartbeat mail-sender true", "rest 60"]);
        assert_eq!(store.mail_queue, vec![pending(1)]);
        assert!(heartbeat_of(&store).last_run_success);
    }
}

#[test]
fn unset_flag_disables_the_cycle() {
    let mut store = store_with(vec![], vec![pending(1)]);
    let trace = run_cycle(&mut store, 3, 2, &working);
    assert_eq!(trace.steps, vec!["setting smtp_enabled", "heartbeat mail-sender true", "rest 60"]);
    assert_eq!(store.mail_queue, vec![pending(1)]);
}

#[test]
fn empty_queue_ends_the_cycle_in_success() {
    let mut store = store_with(smtp_settings("tls"), vec![]);
    let trace = run_cycle(&mut store, 3, 2, &working);
    assert_eq!(
        trace.steps,
        vec!["setting smtp_enabled", "fetch", "heartbeat mail-sender true", "rest 60"]
    );
    assert!(heartbeat_of(&store).last_run_success);
}

#[test]
fn every_claimable_entry_ends_settled() {
    let mut store = store_with(
        smtp_settings("starttls"),
        vec![pending(1), pending(2), pending(3), pending(4), pending(5)],
    );
    store.mail_list = vec![detail(1, "a"), detail(2, "ghost"), detail(4, "b"), detail(5, "c")];
    store.users = vec![user("a", "a@x.y"), user("b", "no-at-sign.y"), user("c", "c@x.y")];
    let relay = |id: i32, _n: u32| if id == 5 { Err("down".to_string()) } else { Ok(()) };
    let trace = run_cycle(&mut store, 2, 1, &relay);
    let statuses: Vec<&str> = store.mail_queue.iter().map(|m| m.status.as_str()).collect();
    assert_eq!(statuses, vec!["sent", "failed", "failed", "failed", "failed"]);
    for row in &store.mail_queue {
        assert_eq!(row.locked, "false");
        assert_eq!(row.deleted, "false");
    }
    assert_eq!(trace.attempts, vec![(1, 1), (5, 1), (5, 2)]);
    assert_eq!(trace.sleeps, vec![1]);
    assert!(heartbeat_of(&store).last_run_success);
}

#[test]
fn entries_are_processed_in_fetch_order_each_locked_first() {
    let mut store = store_with(smtp_settings("tls"), vec![pending(7), pending(3), pending(5)]);
    let trace = run_cycle(&mut store, 3, 2, &working);
    assert_eq!(
        trace.steps,
        vec![
            "setting smtp_enabled",
            "fetch",
            "lock 7 true",
            "detail 7",
            "status 7 failed false",
            "lock 3 true",
            "detail 3",
            "status 3 failed false",
            "lock 5 true",
            "detail 5",
            "status 5 failed false",
            "heartbeat mail-sender true",
            "rest 60",
        ]
    );
}

#[test]
fn deleted_locked_and_finished_entries_are_left_alone() {
    let others = vec![
        entry(1, "pending", "true", "false"),
        entry(2, "pending", "false", "true"),
        entry(3, "sent", "false", "false"),
        entry(4, "failed", "false", "false"),
        entry(5, "pending", "true", "true"),
    ];
    let mut queue = others.clone();
    queue.insert(2, pending(9));
    let mut store = store_with(smtp_settings("tls"), queue);
    store.mail_list = vec![detail(9, "u9")];
    store.users = vec![user("u9", "nine@x.y")];
    let trace = run_cycle(&mut store, 3, 2, &working);
    assert_eq!(trace.attempts, vec![(9, 1)]);
    for step in &trace.steps {
        for id in [1, 2, 3, 4, 5] {
            assert!(!step.starts_with(&format!("lock {} ", id)), "{}", step);
            assert!(!step.starts_with(&format!("status {} ", id)), "{}", step);
        }
    }
    let mut left = store.mail_queue.clone();
    let nine = left.remove(2);
    assert_eq!(left, others);
    assert_eq!(nine.status, "sent");
    assert_eq!(nine.locked, "false");
}

#[test]
fn missing_detail_marks_the_entry_failed() {
    let mut store = store_with(smtp_settings("tls"), vec![pending(1)]);
    store.mail_list = vec![detail(2, "u1")];
    store.users = vec![user("u1", "x@y.z")];
    let trace = run_cycle(&mut store, 3, 2, &working);
    assert!(trace.attempts.is_empty());
    assert_eq!(store.mail_queue[0].status, "failed");
    assert_eq!(store.mail_queue[0].locked, "false");
    assert!(heartbeat_of(&store).last_run_success);
}

#[test]
fn recipient_is_the_one_the_detail_names() {
    let mut store = store_with(smtp_settings("tls"), vec![pending(1)]);
    store.mail_queue[0].user_uuid = "queue-side".to_string();
    store.mail_list = vec![detail(1, "detail-side")];
    store.users = vec![user("queue-side", "wrong@x.y"), user("detail-side", "right@x.y")];
    let trace = run_cycle(&mut store, 3, 2, &working);
    assert!(trace.steps.contains(&"user detail-side".to_string()));
    assert!(!trace.steps.contains(&"user queue-side".to_string()));
    assert_eq!(store.mail_queue[0].status, "sent");
}

#[test]
fn missing_user_marks_the_entry_failed() {
    let mut store = store_with(smtp_settings("tls"), vec![pending(1)]);
    store.mail_list = vec![detail(1, "nobody")];
    store.users = vec![user("u1", "x@y.z")];
    let trace = run_cycle(&mut store, 3, 2, &working);
    assert!(trace.attempts.is_empty());
    assert!(!trace.steps.contains(&"smtp".to_string()));
    assert_eq!(store.mail_queue[0].status, "failed");
    assert_eq!(store.mail_queue[0].locked, "false");
}

#[test]
fn invalid_email_marks_the_entry_failed_without_loading_smtp() {
    for email in ["", "abc", "a@b", "a.b"] {
        let mut store = store_with(smtp_settings("tls"), vec![pending(1)]);
        store.mail_list = vec![detail(1, "u1")];
        store.users = vec![user("u1", email)];
        let trace = run_cycle(&mut store, 3, 2, &working);
        assert!(trace.attempts.is_empty());
        assert!(!trace.steps.contains(&"smtp".to_string()));
        assert_eq!(store.mail_queue[0].status, "failed");
        assert_eq!(store.mail_queue[0].locked, "false");
        assert!(heartbeat_of(&store).last_run_success);
    }
}

#[test]
fn exhausted_delivery_marks_failed_but_cycle_succeeds() {
    let mut store = store_with(smtp_settings("tls"), vec![pending(1), pending(2)]);
    store.mail_list = vec![detail(1, "u1"), detail(2, "u1")];
    store.users = vec![user("u1", "x@y.z")];
    let trace = run_cycle(&mut store, 3, 5, &broken);
    assert_eq!(trace.attempts, vec![(1, 1), (1, 2), (1, 3), (2, 1), (2, 2), (2, 3)]);
    assert_eq!(trace.sleeps, vec![5, 5, 5, 5]);
    assert_eq!(store.mail_queue[0].status, "failed");
    assert_eq!(store.mail_queue[1].status, "failed");
    assert_eq!(store.mail_queue[0].locked, "false");
    assert_eq!(store.mail_queue[1].locked, "false");
    assert!(heartbeat_of(&store).last_run_success);
}

#[test]
fn delivery_that_recovers_is_sent() {
    let mut store = store_with(smtp_settings("tls"), vec![pending(1)]);
    store.mail_list = vec![detail(1, "u1")];
    store.users = vec![user("u1", "x@y.z")];
    let relay = |_id: i32, n: u32| if n < 3 { Err("busy".to_string()) } else { Ok(()) };
    let trace = run_cycle(&mut store, 3, 0, &relay);
    assert_eq!(trace.attempts, vec![(1, 1), (1, 2), (1, 3)]);
    assert_eq!(trace.sleeps, vec![0, 0]);
    assert_eq!(store.mail_queue[0].status, "sent");
}

#[test]
fn incomplete_smtp_settings_fail_the_entry_without_an_attempt() {
    let mut store = store_with(vec![setting("smtp_enabled", "true")], vec![pending(1)]);
    store.mail_list = vec![detail(1, "u1")];
    store.users = vec![user("u1", "x@y.z")];
    let trace = run_cycle(&mut store, 3, 2, &working);
    assert!(trace.steps.contains(&"smtp".to_string()));
    assert!(trace.attempts.is_empty());
    assert_eq!(store.mail_queue[0].status, "failed");
    assert_eq!(store.mail_queue[0].locked, "false");
    assert!(heartbeat_of(&store).last_run_success);
}

#[test]
fn unknown_encryption_is_retried_then_fails_the_entry() {
    let mut store = store_with(smtp_settings("ftp"), vec![pending(1)]);
    store.mail_list = vec![detail(1, "u1")];
    store.users = vec![user("u1", "x@y.z")];
    let trace = run_cycle(&mut store, 3, 2, &working);
    assert_eq!(trace.attempts, vec![(1, 1), (1, 2), (1, 3)]);
    assert_eq!(store.mail_queue[0].status, "failed");
}

#[test]
fn zero_retries_fail_every_entry_without_an_attempt() {
    let mut store = store_with(smtp_settings("tls"), vec![pending(1)]);
    store.mail_list = vec![detail(1, "u1")];
    store.users = vec![user("u1", "x@y.z")];
    let trace = run_cycle(&mut store, 0, 2, &working);
    assert!(trace.attempts.is_empty());
    assert_eq!(store.mail_queue[0].status, "failed");
    assert_eq!(store.mail_queue[0].locked, "false");
}

#[test]
fn smtp_read_failure_is_contained_in_the_entry() {
    let cycle = begin(3, 2);
    let (cycle, _) = process_mail_queue(cycle, Event::Start);
    let (cycle, _) = process_mail_queue(cycle, Event::Setting("true".to_string()));
    let (cycle, _) = process_mail_queue(cycle, Event::Pending(vec![pending(4), pending(6)]));
    let (cycle, _) = process_mail_queue(cycle, Event::Written);
    let (cycle, _) = process_mail_queue(cycle, Event::MailInfo(Some(detail(4, "u"))));
    let (cycle, action) = process_mail_queue(cycle, Event::UserInfo(Some(user("u", "x@y.z"))));
    assert!(matches!(action, Action::GetSmtpConfig));
    assert!(!cycle.accepts(&Event::GatewayError("x".to_string())));
    let (cycle, action) =
        process_mail_queue(cycle, Event::SmtpConfig(Err("settings unreadable".to_string())));
    assert!(matches!(
        action,
        Action::UpdateMailStatus { id: 4, status: MailStatus::Failed, locked: false }
    ));
    let (cycle, action) = process_mail_queue(cycle, Event::Written);
    assert!(matches!(action, Action::UpdateMailLock { id: 6, locked: true }));
    assert_eq!(cycle.phase, CyclePhase::Locking);
}

#[test]
fn gateway_failure_ends_the_cycle_with_a_failed_heartbeat() {
    let scripts: Vec<Vec<Event>> = vec![
        vec![],
        vec![Event::Setting("true".to_string())],
        vec![Event::Setting("true".to_string()), Event::Pending(vec![pending(1)])],
        vec![
            Event::Setting("true".to_string()),
            Event::Pending(vec![pending(1)]),
            Event::Written,
        ],
        vec![
            Event::Setting("true".to_string()),
            Event::Pending(vec![pending(1)]),
            Event::Written,
            Event::MailInfo(Some(detail(1, "u1"))),
        ],
        vec![
            Event::Setting("true".to_string()),
            Event::Pending(vec![pending(1)]),
            Event::Written,
            Event::MailInfo(None),
        ],
    ];
    for script in scripts {
        let (mut cycle, _) = process_mail_queue(begin(3, 2), Event::Start);
        for event in script {
            assert!(cycle.accepts(&event));
            cycle = process_mail_queue(cycle, event).0;
        }
        let failure = Event::GatewayError("connection reset".to_string());
        assert!(cycle.accepts(&failure));
        let (cycle, action) = process_mail_queue(cycle, failure);
        assert_eq!(cycle.phase, CyclePhase::Reporting);
        match action {
            Action::MarkTimedTask { task_name, success, message } => {
                assert_eq!(task_name, "mail-sender");
                assert!(!success);
                assert_eq!(message, "connection reset");
            }
            other => panic!("unexpected action {:?}", other),
        }
        let (cycle, action) = process_mail_queue(cycle, Event::Written);
        assert!(cycle.is_finished());
        assert!(matches!(action, Action::Rest { seconds: 60 }));
    }
}

#[test]
fn fetched_rows_are_filtered_again_by_the_cycle() {
    let (cycle, _) = process_mail_queue(begin(3, 2), Event::Start);
    let (cycle, _) = process_mail_queue(cycle, Event::Setting("true".to_string()));
    let rows = vec![
        entry(1, "pending", "true", "false"),
        entry(2, "pending", "false", "true"),
        pending(3),
        entry(4, "sent", "false", "false"),
    ];
    let (cycle, action) = process_mail_queue(cycle, Event::Pending(rows));
    assert!(matches!(action, Action::UpdateMailLock { id: 3, locked: true }));
    assert_eq!(cycle.queue, vec![pending(3)]);
}

#[test]
fn attempt_carries_config_mail_and_recipient() {
    let (cycle, _) = process_mail_queue(begin(2, 9), Event::Start);
    let (cycle, _) = process_mail_queue(cycle, Event::Setting("true".to_string()));
    let (cycle, _) = process_mail_queue(cycle, Event::Pending(vec![pending(4)]));
    let (cycle, _) = process_mail_queue(cycle, Event::Written);
    let (cycle, action) = process_mail_queue(cycle, Event::MailInfo(Some(detail(4, "u"))));
    match action {
        Action::GetUserByUuid { uuid } => assert_eq!(uuid, "u"),
        other => panic!("unexpected action {:?}", other),
    }
    let (cycle, _) = process_mail_queue(cycle, Event::UserInfo(Some(user("u", "x@y.z"))));
    let store = store_with(smtp_settings("ssl"), vec![]);
    let config = get_smtp_config(&store);
    let (cycle, action) = process_mail_queue(cycle, Event::SmtpConfig(Ok(config.clone())));
    match action {
        Action::Attempt { smtp_config, mail, user: to, number } => {
            assert_eq!(smtp_config, config);
            assert_eq!(mail, pending(4));
            assert_eq!(to, user("u", "x@y.z"));
            assert_eq!(number, 1);
        }
        other => panic!("unexpected action {:?}", other),
    }
    let (cycle, action) = process_mail_queue(cycle, Event::Attempted(Err("e".to_string())));
    assert!(matches!(action, Action::Sleep { seconds: 9 }));
    let (cycle, action) = process_mail_queue(cycle, Event::Resumed);
    assert!(matches!(action, Action::Attempt { number: 2, .. }));
    let (_, action) = process_mail_queue(cycle, Event::Attempted(Err("e".to_string())));
    assert!(matches!(
        action,
        Action::UpdateMailStatus { id: 4, status: MailStatus::Failed, locked: false }
    ));
}

#[test]
fn cycle_accepts_only_what_it_waits_for() {
    let cycle = begin(3, 2);
    assert_eq!(cycle.phase, CyclePhase::Idle);
    assert!(!cycle.is_finished());
    assert!(!cycle.accepts(&Event::Written));
    assert!(!cycle.accepts(&Event::GatewayError("e".to_string())));
    let (cycle, _) = process_mail_queue(cycle, Event::Start);
    assert!(!cycle.accepts(&Event::Start));
    assert!(!cycle.accepts(&Event::Pending(vec![])));
    assert!(cycle.accepts(&Event::Setting("x".to_string())));
    let (cycle, _) = process_mail_queue(cycle, Event::Setting("x".to_string()));
    assert_eq!(cycle.phase, CyclePhase::Reporting);
    assert!(!cycle.is_finished());
    assert!(!cycle.accepts(&Event::Start));
    assert!(!cycle.accepts(&Event::Resumed));
    assert!(cycle.accepts(&Event::Written));
    assert!(cycle.accepts(&Event::GatewayError("e".to_string())));
    let (cycle, _) = process_mail_queue(cycle, Event::Written);
    assert!(cycle.is_finished());
    assert!(!cycle.accepts(&Event::Start));
    assert!(!cycle.accepts(&Event::Written));
    assert!(!cycle.accepts(&Event::GatewayError("e".to_string())));
}

#[test]
fn unwritten_heartbeat_does_not_stop_the_rest() {
    let mut settings = config(3, 2);
    settings.worker_interval = 5;
    let (cycle, _) = process_mail_queue(Cycle::new(&settings), Event::Start);
    let (cycle, action) = process_mail_queue(cycle, Event::Setting("false".to_string()));
    assert!(matches!(action, Action::MarkTimedTask { success: true, .. }));
    let failure = Event::GatewayError("table is read only".to_string());
    let (cycle, action) = process_mail_queue(cycle, failure);
    assert!(cycle.is_finished());
    assert!(matches!(action, Action::Rest { seconds: 5 }));
}

#[test]
fn advance_refuses_what_the_cycle_does_not_wait_for() {
    let cycle = begin(3, 2);
    let (cycle, event) = advance(cycle, Event::Written).unwrap_err();
    assert!(matches!(event, Event::Written));
    assert_eq!(cycle.phase, CyclePhase::Idle);
    let (cycle, action) = advance(cycle, Event::Start).unwrap();
    assert!(matches!(action, Action::GetSetting { .. }));
    let mut broken = cycle;
    broken.phase = CyclePhase::Locking;
    assert!(!broken.is_well_formed());
    assert!(advance(broken, Event::Written).is_err());
}

#[test]
fn heartbeat_texts() {
    match heartbeat(Ok(())) {
        Action::MarkTimedTask { task_name, success, message } => {
            assert_eq!(task_name, "mail-sender");
            assert!(success);
            assert_eq!(message, "Mail sender heartbeat");
        }
        other => panic!("unexpected action {:?}", other),
    }
    match heartbeat(Err("boom".to_string())) {
        Action::MarkTimedTask { task_name, success, message } => {
            assert_eq!(task_name, "mail-sender");
            assert!(!success);
            assert_eq!(message, "boom");
        }
        other => panic!("unexpected action {:?}", other),
    }
}

#[test]
fn status_texts() {
    assert_eq!(MailStatus::Sent.as_str(), "sent");
    assert_eq!(MailStatus::Failed.as_str(), "failed");
}

#[test]
fn two_cycles_leave_one_heartbeat_with_the_later_outcome() {
    let mut store = store_with(smtp_settings("tls"), vec![pending(1)]);
    run_cycle(&mut store, 3, 2, &working);
    assert!(heartbeat_of(&store).last_run_success);
    let (cycle, _) = process_mail_queue(begin(3, 2), Event::Start);
    let (_, action) = process_mail_queue(cycle, Event::GatewayError("gone away".to_string()));
    store.now = Timestamp { seconds: 1_700_000_060, nanos: 5 };
    match action {
        Action::MarkTimedTask { task_name, success, message } => {
            mark_timed_task(&mut store, &task_name, success, &message)
        }
        other => panic!("unexpected action {:?}", other),
    }
    let beat = heartbeat_of(&store);
    assert!(!beat.last_run_success);
    assert_eq!(beat.last_run_message, "gone away");
    assert_eq!(beat.last_run_at, Timestamp { seconds: 1_700_000_060, nanos: 5 });
}

#[test]
fn store_serves_requests_and_writes_but_no_attempts() {
    let mut store = store_with(smtp_settings("tls"), vec![pending(1)]);
    store.mail_list = vec![detail(1, "u1")];
    store.users = vec![user("u1", "x@y.z")];
    let asked = Action::GetSetting { name: "smtp_enabled".to_string() };
    assert!(matches!(serve(&mut store, &asked), Some(Event::Setting(v)) if v == "true"));
    let asked = Action::GetSetting { name: "missing".to_string() };
    assert!(matches!(serve(&mut store, &asked), Some(Event::Setting(v)) if v == "false"));
    match serve(&mut store, &Action::GetPendingMails) {
        Some(Event::Pending(rows)) => assert_eq!(rows, vec![pending(1)]),
        other => panic!("unexpected event {:?}", other),
    }
    let asked = Action::UpdateMailLock { id: 1, locked: true };
    assert!(matches!(serve(&mut store, &asked), Some(Event::Written)));
    assert_eq!(store.mail_queue[0].locked, "true");
    match serve(&mut store, &Action::GetPendingMails) {
        Some(Event::Pending(rows)) => assert!(rows.is_empty()),
        other => panic!("unexpected event {:?}", other),
    }
    let asked = Action::GetMailInfo { id: 1 };
    assert!(matches!(serve(&mut store, &asked), Some(Event::MailInfo(Some(d))) if d.id == 1));
    let asked = Action::GetMailInfo { id: 2 };
    assert!(matches!(serve(&mut store, &asked), Some(Event::MailInfo(None))));
    let asked = Action::GetUserByUuid { uuid: "u1".to_string() };
    assert!(matches!(serve(&mut store, &asked), Some(Event::UserInfo(Some(u))) if u.email == "x@y.z"));
    let config = match serve(&mut store, &Action::GetSmtpConfig) {
        Some(Event::SmtpConfig(Ok(config))) => config,
        other => panic!("unexpected event {:?}", other),
    };
    assert_eq!(config, get_smtp_config(&store));
    let asked = Action::UpdateMailStatus { id: 1, status: MailStatus::Sent, locked: false };
    assert!(matches!(serve(&mut store, &asked), Some(Event::Written)));
    assert_eq!(store.mail_queue[0].status, "sent");
    assert_eq!(store.mail_queue[0].locked, "false");
    let asked = Action::MarkTimedTask {
        task_name: "mail-sender".to_string(),
        success: false,
        message: "m".to_string(),
    };
    assert!(matches!(serve(&mut store, &asked), Some(Event::Written)));
    assert_eq!(heartbeat_of(&store).last_run_message, "m");
    let attempt = Action::Attempt {
        smtp_config: config,
        mail: pending(1),
        user: user("u1", "x@y.z"),
        number: 1,
    };
    assert!(serve(&mut store, &attempt).is_none());
    assert!(serve(&mut store, &Action::Sleep { seconds: 1 }).is_none());
    assert!(serve(&mut store, &Action::Rest { seconds: 1 }).is_none());
    assert_eq!(store.mail_queue[0].status, "sent");
}
