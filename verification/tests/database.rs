use mail_worker::database::{
    assemble_smtp_config, flag_str, get_mail_info, get_pending_mails, get_setting,
    get_smtp_config, get_user_by_uuid, mark_timed_task, select_pending, setting_or_default,
    success_value, update_mail_lock, update_mail_status, Setting, Store, TimedTask,
};
use mail_worker::models::{MailList, MailQueue, Timestamp, User};

fn at(seconds: i64) -> Timestamp {
    Timestamp { seconds, nanos: 0 }
}

fn entry(id: i32, status: &str, locked: &str, deleted: &str) -> MailQueue {
    MailQueue {
        id,
        user_uuid: format!("u{}", id),
        subject: format!("subject {}", id),
        body: format!("<p>body {}</p>", id),
        status: status.to_string(),
        deleted: deleted.to_string(),
        locked: locked.to_string(),
        created_at: Some(at(100)),
        updated_at: None,
    }
}

fn detail(id: i32, queue_id: i32, user_uuid: &str) -> MailList {
    MailList {
        id,
        queue_id,
        user_uuid: user_uuid.to_string(),
        deleted: "false".to_string(),
        locked: "false".to_string(),
        created_at: None,
        updated_at: None,
    }
}

fn user(id: i32, uuid: &str, email: &str) -> User {
    User {
        id,
        username: format!("user{}", id),
        first_name: "First".to_string(),
        last_name: "Last".to_string(),
        email: email.to_string(),
        uuid: uuid.to_string(),
    }
}

fn setting(name: &str, value: &str) -> Setting {
    Setting { name: name.to_string(), value: value.to_string() }
}

fn empty_store() -> Store {
    Store {
        now: at(1_700_000_000),
        settings: vec![],
        mail_queue: vec![],
        mail_list: vec![],
        users: vec![],
        timed_tasks: vec![],
    }
}

fn text(value: &str) -> Option<String> {
    Some(value.to_string())
}

#[test]
fn absent_setting_reads_as_false() {
    let store = empty_store();
    assert_eq!(get_setting(&store, "smtp_enabled"), "false");
    assert_eq!(setting_or_default(None), "false");
}

#[test]
fn stored_setting_is_returned_as_it_stands() {
    let mut store = empty_store();
    store.settings = vec![
        setting("app_name", "Panel"),
        setting("smtp_enabled", "true"),
        setting("empty", ""),
    ];
    assert_eq!(get_setting(&store, "smtp_enabled"), "true");
    assert_eq!(get_setting(&store, "app_name"), "Panel");
    assert_eq!(get_setting(&store, "empty"), "");
    assert_eq!(get_setting(&store, "smtp_enable"), "false");
    assert_eq!(setting_or_default(text("TRUE")), "TRUE");
}

#[test]
fn first_of_two_settings_with_one_name_wins() {
    let mut store = empty_store();
    store.settings = vec![setting("k", "first"), setting("k", "second")];
    assert_eq!(get_setting(&store, "k"), "first");
}

#[test]
fn pending_mails_are_the_claimable_ones_in_table_order() {
    let mut store = empty_store();
    store.mail_queue = vec![
        entry(5, "pending", "false", "false"),
        entry(1, "sent", "false", "false"),
        entry(9, "pending", "true", "false"),
        entry(2, "pending", "false", "true"),
        entry(3, "failed", "false", "false"),
        entry(4, "pending", "false", "false"),
    ];
    let pending = get_pending_mails(&store);
    let ids: Vec<i32> = pending.iter().map(|m| m.id).collect();
    assert_eq!(ids, vec![5, 4]);
    assert_eq!(pending[0], store.mail_queue[0]);
    assert_eq!(pending[1], store.mail_queue[5]);
}

#[test]
fn deleted_or_locked_entries_are_never_selected() {
    let rows = vec![
        entry(1, "pending", "true", "false"),
        entry(2, "pending", "false", "true"),
        entry(3, "pending", "true", "true"),
        entry(4, "pending", "TRUE", "false"),
        entry(5, "pending", "false", "1"),
        entry(6, "Pending", "false", "false"),
        entry(7, "", "false", "false"),
    ];
    assert!(select_pending(&rows).is_empty());
    for row in &rows {
        assert!(!row.is_claimable());
    }
    assert!(entry(8, "pending", "false", "false").is_claimable());
}

#[test]
fn mail_info_is_found_by_its_own_id() {
    let mut store = empty_store();
    store.mail_list = vec![detail(7, 1, "a"), detail(1, 7, "b"), detail(1, 8, "c")];
    assert_eq!(get_mail_info(&store, 1).unwrap().user_uuid, "b");
    assert_eq!(get_mail_info(&store, 7).unwrap().user_uuid, "a");
    assert_eq!(get_mail_info(&store, 8), None);
    assert_eq!(get_mail_info(&store, -1), None);
}

#[test]
fn user_is_found_by_uuid() {
    let mut store = empty_store();
    store.users = vec![user(1, "u1", "x@y.z"), user(2, "u2", "a@b.c"), user(3, "u2", "late@b.c")];
    assert_eq!(get_user_by_uuid(&store, "u2").unwrap().email, "a@b.c");
    assert_eq!(get_user_by_uuid(&store, "u1").unwrap().id, 1);
    assert_eq!(get_user_by_uuid(&store, "U1"), None);
    assert_eq!(get_user_by_uuid(&store, ""), None);
}

#[test]
fn lock_is_written_to_the_entry_and_nothing_else() {
    let mut store = empty_store();
    store.mail_queue =
        vec![entry(1, "pending", "false", "false"), entry(2, "pending", "false", "false")];
    update_mail_lock(&mut store, 2, true);
    assert_eq!(store.mail_queue[0], entry(1, "pending", "false", "false"));
    assert_eq!(store.mail_queue[1], entry(2, "pending", "true", "false"));
    update_mail_lock(&mut store, 2, false);
    assert_eq!(store.mail_queue[1], entry(2, "pending", "false", "false"));
    update_mail_lock(&mut store, 3, true);
    assert_eq!(store.mail_queue.len(), 2);
    assert_eq!(store.mail_queue[0].locked, "false");
    assert_eq!(store.mail_queue[1].locked, "false");
}

#[test]
fn status_and_lock_are_written_together() {
    let mut store = empty_store();
    store.mail_queue =
        vec![entry(1, "pending", "true", "false"), entry(2, "pending", "true", "false")];
    update_mail_status(&mut store, 1, "sent", false);
    assert_eq!(store.mail_queue[0], entry(1, "sent", "false", "false"));
    assert_eq!(store.mail_queue[1], entry(2, "pending", "true", "false"));
    update_mail_status(&mut store, 2, "failed", false);
    assert_eq!(store.mail_queue[1], entry(2, "failed", "false", "false"));
}

#[test]
fn flags_are_written_as_text_and_success_as_number() {
    assert_eq!(flag_str(true), "true");
    assert_eq!(flag_str(false), "false");
    assert_eq!(success_value(true), 1);
    assert_eq!(success_value(false), 0);
}

#[test]
fn smtp_config_is_assembled_from_seven_keys() {
    let mut store = empty_store();
    store.settings = vec![
        setting("smtp_host", "mail.example.com"),
        setting("smtp_port", "465"),
        setting("smtp_user", "mailer"),
        setting("smtp_pass", "hunter2"),
        setting("smtp_from", "noreply@example.com"),
        setting("smtp_encryption", "ssl"),
        setting("app_name", "Panel"),
    ];
    let config = get_smtp_config(&store);
    assert_eq!(config.host, "mail.example.com");
    assert_eq!(config.port, 465);
    assert_eq!(config.user, "mailer");
    assert_eq!(config.password, "hunter2");
    assert_eq!(config.from, "noreply@example.com");
    assert_eq!(config.encryption, "ssl");
    assert_eq!(config.app_name, "Panel");
}

#[test]
fn missing_smtp_keys_read_as_empty_and_app_name_as_product() {
    let config = get_smtp_config(&empty_store());
    assert_eq!(config.host, "");
    assert_eq!(config.port, 587);
    assert_eq!(config.user, "");
    assert_eq!(config.password, "");
    assert_eq!(config.from, "");
    assert_eq!(config.encryption, "");
    assert_eq!(config.app_name, "FeatherPanel");
}

#[test]
fn malformed_smtp_port_falls_back() {
    for bad in ["", "smtp", "65536", "-25", "2 5"] {
        let config =
            assemble_smtp_config(text("h"), text(bad), text("u"), None, text("f"), None, None);
        assert_eq!(config.port, 587, "port text {:?}", bad);
    }
    let config = assemble_smtp_config(None, text("25"), None, None, None, None, text(""));
    assert_eq!(config.port, 25);
    assert_eq!(config.app_name, "");
}

#[test]
fn heartbeat_is_inserted_then_updated() {
    let mut store = empty_store();
    mark_timed_task(&mut store, "mail-sender", true, "Mail sender heartbeat");
    assert_eq!(
        store.timed_tasks,
        vec![TimedTask {
            task_name: "mail-sender".to_string(),
            last_run_at: at(1_700_000_000),
            last_run_success: true,
            last_run_message: "Mail sender heartbeat".to_string(),
            updated_at: at(1_700_000_000),
        }]
    );
    store.now = at(1_700_000_060);
    mark_timed_task(&mut store, "mail-sender", false, "connection refused");
    assert_eq!(
        store.timed_tasks,
        vec![TimedTask {
            task_name: "mail-sender".to_string(),
            last_run_at: at(1_700_000_060),
            last_run_success: false,
            last_run_message: "connection refused".to_string(),
            updated_at: at(1_700_000_060),
        }]
    );
}

#[test]
fn heartbeat_leaves_other_tasks_alone() {
    let mut store = empty_store();
    mark_timed_task(&mut store, "backup", true, "ok");
    mark_timed_task(&mut store, "mail-sender", false, "first");
    mark_timed_task(&mut store, "cleanup", true, "ok");
    store.now = at(5);
    mark_timed_task(&mut store, "mail-sender", true, "second");
    let names: Vec<&str> = store.timed_tasks.iter().map(|t| t.task_name.as_str()).collect();
    assert_eq!(names, vec!["backup", "mail-sender", "cleanup"]);
    assert_eq!(store.timed_tasks[0].last_run_at, at(1_700_000_000));
    assert_eq!(store.timed_tasks[1].last_run_message, "second");
    assert!(store.timed_tasks[1].last_run_success);
    assert_eq!(store.timed_tasks[1].last_run_at, at(5));
    let rows = store.timed_tasks.iter().filter(|t| t.task_name == "mail-sender").count();
    assert_eq!(rows, 1);
}

#[test]
fn gateway_writes_do_not_touch_other_tables() {
    let mut store = empty_store();
    store.settings = vec![setting("smtp_enabled", "true")];
    store.mail_queue = vec![entry(1, "pending", "false", "false")];
    store.mail_list = vec![detail(1, 1, "u1")];
    store.users = vec![user(1, "u1", "x@y.z")];
    update_mail_lock(&mut store, 1, true);
    update_mail_status(&mut store, 1, "sent", false);
    mark_timed_task(&mut store, "mail-sender", true, "m");
    assert_eq!(store.settings, vec![setting("smtp_enabled", "true")]);
    assert_eq!(store.mail_list, vec![detail(1, 1, "u1")]);
    assert_eq!(store.users, vec![user(1, "u1", "x@y.z")]);
    assert_eq!(store.now, at(1_700_000_000));
    assert_eq!(store.mail_queue.len(), 1);
}
