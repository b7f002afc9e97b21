//! The gateway to the persisted tables: what each query returns and what
//! each write changes, stated over a model of the tables and carried out on
//! a store held in memory.
//!
//! The program that talks to a database sends the same queries to it; what
//! comes back feeds the state machine of the cycle. The model here says what
//! those queries mean, and is what the laws of the cycle are proved against.

use vstd::prelude::*;
use vstd::string::*;
use crate::models::{
    MailList,
    MailListView,
    MailQueue,
    MailQueueView,
    SmtpConfig,
    SmtpConfigView,
    Timestamp,
    User,
    UserView,
};
use crate::text::{parse_u16, parse_unsigned, same_text};

verus! {

/// One entry of the settings store.
#[derive(Debug, PartialEq, Eq)]
pub struct Setting {
    pub name: String,
    pub value: String,
}

/// The mathematical value of a [`Setting`].
pub struct SettingView {
    pub name: Seq<char>,
    pub value: Seq<char>,
}

impl View for Setting {
    type V = SettingView;

    open spec fn view(&self) -> SettingView {
        SettingView { name: self.name@, value: self.value@ }
    }
}

/// The heartbeat of one named recurring task.
#[derive(Debug, PartialEq, Eq)]
pub struct TimedTask {
    pub task_name: String,
    pub last_run_at: Timestamp,
    pub last_run_success: bool,
    pub last_run_message: String,
    pub updated_at: Timestamp,
}

/// The mathematical value of a [`TimedTask`].
pub struct TimedTaskView {
    pub task_name: Seq<char>,
    pub last_run_at: Timestamp,
    pub last_run_success: bool,
    pub last_run_message: Seq<char>,
    pub updated_at: Timestamp,
}

impl View for TimedTask {
    type V = TimedTaskView;

    open spec fn view(&self) -> TimedTaskView {
        TimedTaskView {
            task_name: self.task_name@,
            last_run_at: self.last_run_at,
            last_run_success: self.last_run_success,
            last_run_message: self.last_run_message@,
            updated_at: self.updated_at,
        }
    }
}

impl Clone for TimedTask {
    fn clone(&self) -> (copy: Self)
        ensures
            copy == *self,
    {
        TimedTask {
            task_name: self.task_name.clone(),
            last_run_at: self.last_run_at,
            last_run_success: self.last_run_success,
            last_run_message: self.last_run_message.clone(),
            updated_at: self.updated_at,
        }
    }
}

/// The tables in memory. `now` is the store's clock, which stamps a
/// heartbeat.
#[derive(Debug)]
pub struct Store {
    pub now: Timestamp,
    pub settings: Vec<Setting>,
    pub mail_queue: Vec<MailQueue>,
    pub mail_list: Vec<MailList>,
    pub users: Vec<User>,
    pub timed_tasks: Vec<TimedTask>,
}

/// The mathematical value of the tables.
pub struct Tables {
    pub now: Timestamp,
    pub settings: Seq<SettingView>,
    pub mail_queue: Seq<MailQueueView>,
    pub mail_list: Seq<MailListView>,
    pub users: Seq<UserView>,
    pub timed_tasks: Seq<TimedTaskView>,
}

/// The values of a sequence of rows, in the same order.
pub open spec fn views<T: View>(rows: Seq<T>) -> Seq<T::V> {
    Seq::new(rows.len(), |i: int| rows[i]@)
}

impl View for Store {
    type V = Tables;

    open spec fn view(&self) -> Tables {
        Tables {
            now: self.now,
            settings: views(self.settings@),
            mail_queue: views(self.mail_queue@),
            mail_list: views(self.mail_list@),
            users: views(self.users@),
            timed_tasks: views(self.timed_tasks@),
        }
    }
}

/// The first of `rows` that is wanted, if there is one.
pub open spec fn first_where<V>(rows: Seq<V>, wanted: spec_fn(V) -> bool) -> Option<V>
    decreases rows.len(),
{
    if rows.len() == 0 {
        None
    } else if wanted(rows[0]) {
        Some(rows[0])
    } else {
        first_where(rows.skip(1), wanted)
    }
}

/// Finds the first row that is wanted and gives its index.
fn find_first<T: View, F: Fn(&T) -> bool>(
    rows: &Vec<T>,
    is_wanted: F,
    Ghost(wanted): Ghost<spec_fn(T::V) -> bool>,
) -> (found: Option<usize>)
    requires
        forall|row: &T| call_requires(is_wanted, (row,)),
        forall|row: &T, yes: bool| call_ensures(is_wanted, (row,), yes) ==> yes == wanted(row@),
    ensures
        match found {
            Some(i) => i < rows.len() && first_where(views(rows@), wanted) == Some(rows@[i as int]@),
            None => first_where(views(rows@), wanted) is None,
        },
{
    let ghost all = views(rows@);
    assert(all.skip(0) =~= all);
    let mut i: usize = 0;
    while i < rows.len()
        invariant
            i <= rows.len(),
            all == views(rows@),
            first_where(all, wanted) == first_where(all.skip(i as int), wanted),
            forall|row: &T| call_requires(is_wanted, (row,)),
            forall|row: &T, yes: bool| call_ensures(is_wanted, (row,), yes) ==> yes == wanted(row@),
        decreases rows.len() - i,
    {
        assert(all.skip(i as int)[0] == rows@[i as int]@);
        assert(all.skip(i as int).skip(1) =~= all.skip(i + 1));
        if is_wanted(&rows[i]) {
            return Some(i);
        }
        i += 1;
    }
    None
}

/// What is wanted of a setting that is looked up by its name.
pub open spec fn named(name: Seq<char>) -> spec_fn(SettingView) -> bool {
    |setting: SettingView| setting.name == name
}

/// The value stored under `name`: that of the first entry with this name,
/// if there is one.
pub open spec fn stored_setting(settings: Seq<SettingView>, name: Seq<char>) -> Option<Seq<char>> {
    match first_where(settings, named(name)) {
        Some(setting) => Some(setting.value),
        None => None,
    }
}

/// What a flag reads as: its stored value, and `false` where it was never
/// set. An absent flag and one that was set to `false` are not told apart.
pub open spec fn flag_or_false(found: Option<Seq<char>>) -> Seq<char> {
    match found {
        Some(value) => value,
        None => "false"@,
    }
}

/// Turns the result of a settings lookup into the value of the flag.
pub fn setting_or_default(found: Option<String>) -> (value: String)
    ensures
        value@ == flag_or_false(
            match found {
                Some(text) => Some(text@),
                None => None,
            },
        ),
{
    match found {
        Some(text) => text,
        None => String::from_str("false"),
    }
}

fn lookup_setting(settings: &Vec<Setting>, name: &str) -> (found: Option<String>)
    ensures
        match found {
            Some(value) => stored_setting(views(settings@), name@) == Some(value@),
            None => stored_setting(views(settings@), name@) is None,
        },
{
    let has_name = |row: &Setting| -> (yes: bool)
        ensures
            yes == (row@.name == name@),
        { same_text(row.name.as_str(), name) };
    match find_first(settings, has_name, Ghost(named(name@))) {
        Some(i) => Some(settings[i].value.clone()),
        None => None,
    }
}

/// Reads the setting `name` as a flag: its stored value, or `false`.
pub fn get_setting(store: &Store, name: &str) -> (value: String)
    ensures
        value@ == flag_or_false(stored_setting(store@.settings, name@)),
{
    setting_or_default(lookup_setting(&store.settings, name))
}

/// An entry can be claimed when it is pending, not locked and not deleted.
pub open spec fn claimable(row: MailQueueView) -> bool {
    row.status == "pending"@ && row.locked == "false"@ && row.deleted == "false"@
}

/// The entries of the queue that can be claimed, in the order of the table.
pub open spec fn pending_rows(queue: Seq<MailQueueView>) -> Seq<MailQueueView>
    decreases queue.len(),
{
    if queue.len() == 0 {
        Seq::empty()
    } else if claimable(queue.last()) {
        pending_rows(queue.drop_last()).push(queue.last())
    } else {
        pending_rows(queue.drop_last())
    }
}

/// The selection takes exactly the claimable rows of the queue: a row is
/// selected if and only if it is in the queue and is pending, not locked and
/// not deleted. So an entry that is deleted or locked is never selected, and
/// no claimable entry is passed over.
pub proof fn lemma_selection_is_exact(queue: Seq<MailQueueView>)
    ensures
        pending_rows(queue).len() <= queue.len(),
        forall|row: MailQueueView| #[trigger]
            pending_rows(queue).contains(row) <==> queue.contains(row) && claimable(row),
    decreases queue.len(),
{
    if queue.len() > 0 {
        let front = queue.drop_last();
        let last = queue.last();
        lemma_selection_is_exact(front);
        assert forall|row: MailQueueView| #[trigger]
            pending_rows(queue).contains(row) <==> queue.contains(row) && claimable(row) by {
            let selected = pending_rows(queue);
            if selected.contains(row) {
                let i = choose|i: int| 0 <= i < selected.len() && selected[i] == row;
                if claimable(last) && i == selected.len() - 1 {
                    assert(queue[queue.len() - 1] == row);
                } else {
                    assert(pending_rows(front)[i] == row);
                    assert(pending_rows(front).contains(row));
                    let j = choose|j: int| 0 <= j < front.len() && front[j] == row;
                    assert(queue[j] == row);
                }
            }
            if queue.contains(row) && claimable(row) {
                let j = choose|j: int| 0 <= j < queue.len() && queue[j] == row;
                if j == queue.len() - 1 {
                    assert(selected[selected.len() - 1] == row);
                } else {
                    assert(front[j] == row);
                    assert(front.contains(row));
                    assert(pending_rows(front).contains(row));
                    let i = choose|i: int|
                        0 <= i < pending_rows(front).len() && pending_rows(front)[i] == row;
                    assert(selected[i] == row);
                }
            }
        }
    }
}

impl MailQueue {
    /// Whether this entry is pending, not locked and not deleted.
    pub fn is_claimable(&self) -> (yes: bool)
        ensures
            yes == claimable(self@),
    {
        same_text(self.status.as_str(), "pending") && same_text(self.locked.as_str(), "false")
            && same_text(self.deleted.as_str(), "false")
    }
}

/// Keeps the entries that can be claimed, in their order. An entry that is
/// deleted or locked is never among them.
pub fn select_pending(rows: &Vec<MailQueue>) -> (selected: Vec<MailQueue>)
    ensures
        views(selected@) == pending_rows(views(rows@)),
{
    let ghost all = views(rows@);
    let mut selected: Vec<MailQueue> = Vec::new();
    let mut i: usize = 0;
    assert(views(selected@) =~= pending_rows(all.take(0)));
    while i < rows.len()
        invariant
            i <= rows.len(),
            all == views(rows@),
            views(selected@) == pending_rows(all.take(i as int)),
        decreases rows.len() - i,
    {
        let ghost before = views(selected@);
        assert(all.take(i + 1).drop_last() =~= all.take(i as int));
        assert(all.take(i + 1).last() == rows@[i as int]@);
        if rows[i].is_claimable() {
            selected.push(rows[i].clone());
            assert(views(selected@) =~= before.push(rows@[i as int]@));
        }
        i += 1;
    }
    assert(all.take(rows.len() as int) =~= all);
    selected
}

/// The entries that can be claimed: status `pending`, not locked, not
/// deleted, in the order of the table.
pub fn get_pending_mails(store: &Store) -> (mails: Vec<MailQueue>)
    ensures
        views(mails@) == pending_rows(store@.mail_queue),
{
    select_pending(&store.mail_queue)
}

/// What is wanted of a detail record that is looked up by its identifier.
pub open spec fn numbered(id: int) -> spec_fn(MailListView) -> bool {
    |detail: MailListView| detail.id == id
}

/// The detail record with the identifier `id`: the first one of the table,
/// if there is one. The identifier asked for is that of the queue entry; the
/// record's own `queue_id` is not consulted.
pub open spec fn detail_with_id(details: Seq<MailListView>, id: int) -> Option<MailListView> {
    first_where(details, numbered(id))
}

/// Looks up the detail record of a queue entry by the entry's identifier.
pub fn get_mail_info(store: &Store, id: i32) -> (info: Option<MailList>)
    ensures
        match info {
            Some(detail) => detail_with_id(store@.mail_list, id as int) == Some(detail@),
            None => detail_with_id(store@.mail_list, id as int) is None,
        },
{
    let has_id = |row: &MailList| -> (yes: bool)
        ensures
            yes == (row@.id == id as int),
        { row.id == id };
    match find_first(&store.mail_list, has_id, Ghost(numbered(id as int))) {
        Some(i) => Some(store.mail_list[i].clone()),
        None => None,
    }
}

/// What is wanted of an account that is looked up by its unique identifier.
pub open spec fn identified(uuid: Seq<char>) -> spec_fn(UserView) -> bool {
    |user: UserView| user.uuid == uuid
}

/// The account with the unique identifier `uuid`: the first one of the
/// table, if there is one.
pub open spec fn user_with_uuid(users: Seq<UserView>, uuid: Seq<char>) -> Option<UserView> {
    first_where(users, identified(uuid))
}

/// Looks up an account by its unique identifier.
pub fn get_user_by_uuid(store: &Store, uuid: &str) -> (user: Option<User>)
    ensures
        match user {
            Some(account) => user_with_uuid(store@.users, uuid@) == Some(account@),
            None => user_with_uuid(store@.users, uuid@) is None,
        },
{
    let has_uuid = |row: &User| -> (yes: bool)
        ensures
            yes == (row@.uuid == uuid@),
        { same_text(row.uuid.as_str(), uuid) };
    match find_first(&store.users, has_uuid, Ghost(identified(uuid@))) {
        Some(i) => Some(store.users[i].clone()),
        None => None,
    }
}

/// How a flag is written into the `locked` column.
pub open spec fn flag_text(flag: bool) -> Seq<char> {
    if flag {
        "true"@
    } else {
        "false"@
    }
}

/// The text that stands for `flag` in the `locked` column.
pub fn flag_str(flag: bool) -> (text: &'static str)
    ensures
        text@ == flag_text(flag),
{
    if flag {
        "true"
    } else {
        "false"
    }
}

/// The number that stands for `success` in the heartbeat table.
pub fn success_value(success: bool) -> (value: i32)
    ensures
        value == if success {
            1int
        } else {
            0int
        },
{
    if success {
        1
    } else {
        0
    }
}

/// The queue after a write to every entry with the identifier `id`: the
/// lock is set as given, the status too where one is given, and nothing else
/// changes.
pub open spec fn rewritten(
    queue: Seq<MailQueueView>,
    id: int,
    status: Option<Seq<char>>,
    locked: bool,
) -> Seq<MailQueueView> {
    Seq::new(
        queue.len(),
        |i: int|
            if queue[i].id == id {
                MailQueueView {
                    status: match status {
                        Some(text) => text,
                        None => queue[i].status,
                    },
                    locked: flag_text(locked),
                    ..queue[i]
                }
            } else {
                queue[i]
            },
    )
}

/// The queue after the lock of every entry with the identifier `id` has been
/// written; nothing else changes.
pub open spec fn with_lock(queue: Seq<MailQueueView>, id: int, locked: bool) -> Seq<MailQueueView> {
    rewritten(queue, id, None, locked)
}

/// The queue after status and lock of every entry with the identifier `id`
/// have been written; nothing else changes.
pub open spec fn with_status(
    queue: Seq<MailQueueView>,
    id: int,
    status: Seq<char>,
    locked: bool,
) -> Seq<MailQueueView> {
    rewritten(queue, id, Some(status), locked)
}

fn write_rows(store: &mut Store, id: i32, status: Option<&str>, locked: bool)
    ensures
        final(store)@ == (Tables {
            mail_queue: rewritten(
                old(store)@.mail_queue,
                id as int,
                match status {
                    Some(text) => Some(text@),
                    None => None,
                },
                locked,
            ),
            ..old(store)@
        }),
{
    let ghost before = store@.mail_queue;
    let ghost wanted = match status {
        Some(text) => Some(text@),
        None => None,
    };
    let mut written: Vec<MailQueue> = Vec::new();
    let mut i: usize = 0;
    while i < store.mail_queue.len()
        invariant
            i <= store.mail_queue.len(),
            *store == *old(store),
            before == views(store.mail_queue@),
            wanted == match status {
                Some(text) => Some(text@),
                None => None,
            },
            written@.len() == i,
            forall|j: int|
                0 <= j < i ==> (#[trigger] written@[j])@ == rewritten(
                    before,
                    id as int,
                    wanted,
                    locked,
                )[j],
        decreases store.mail_queue.len() - i,
    {
        let mut row = store.mail_queue[i].clone();
        if row.id == id {
            match status {
                Some(text) => {
                    row.status = String::from_str(text);
                },
                None => {},
            }
            row.locked = String::from_str(flag_str(locked));
        }
        written.push(row);
        i += 1;
    }
    store.mail_queue = written;
    assert(store@.mail_queue =~= rewritten(before, id as int, wanted, locked));
}

/// Writes the lock of the entry with the identifier `id`.
pub fn update_mail_lock(store: &mut Store, id: i32, locked: bool)
    ensures
        final(store)@ == (Tables {
            mail_queue: with_lock(old(store)@.mail_queue, id as int, locked),
            ..old(store)@
        }),
{
    write_rows(store, id, None, locked);
}

/// Writes status and lock of the entry with the identifier `id`. The two
/// writes of a delivery, the lock and this one, are independent: nothing
/// ties them into one transaction.
pub fn update_mail_status(store: &mut Store, id: i32, status: &str, locked: bool)
    ensures
        final(store)@ == (Tables {
            mail_queue: with_status(old(store)@.mail_queue, id as int, status@, locked),
            ..old(store)@
        }),
{
    write_rows(store, id, Some(status), locked);
}

/// The port that is used where the stored one is missing or is no number.
pub const DEFAULT_SMTP_PORT: u16 = 587;

/// The value of a looked-up string.
pub open spec fn found_text(found: Option<String>) -> Option<Seq<char>> {
    match found {
        Some(text) => Some(text@),
        None => None,
    }
}

/// What a missing SMTP parameter reads as: the empty string, which the
/// checks before a delivery reject.
pub open spec fn text_or_empty(found: Option<Seq<char>>) -> Seq<char> {
    match found {
        Some(value) => value,
        None => Seq::empty(),
    }
}

/// The SMTP parameters that seven looked-up values assemble to. A missing
/// value reads as the empty string; a port that is missing or is no number
/// below 65536 reads as 587; a missing application name reads as
/// `FeatherPanel`.
pub open spec fn assembled_smtp(
    host: Option<Seq<char>>,
    port: Option<Seq<char>>,
    user: Option<Seq<char>>,
    password: Option<Seq<char>>,
    from: Option<Seq<char>>,
    encryption: Option<Seq<char>>,
    app_name: Option<Seq<char>>,
) -> SmtpConfigView {
    SmtpConfigView {
        host: text_or_empty(host),
        port: match parse_unsigned(text_or_empty(port), u16::MAX as nat) {
            Some(number) => number as int,
            None => DEFAULT_SMTP_PORT as int,
        },
        user: text_or_empty(user),
        password: text_or_empty(password),
        from: text_or_empty(from),
        encryption: text_or_empty(encryption),
        app_name: match app_name {
            Some(name) => name,
            None => "FeatherPanel"@,
        },
    }
}

/// The SMTP parameters that the settings store holds.
pub open spec fn smtp_settings(settings: Seq<SettingView>) -> SmtpConfigView {
    assembled_smtp(
        stored_setting(settings, "smtp_host"@),
        stored_setting(settings, "smtp_port"@),
        stored_setting(settings, "smtp_user"@),
        stored_setting(settings, "smtp_pass"@),
        stored_setting(settings, "smtp_from"@),
        stored_setting(settings, "smtp_encryption"@),
        stored_setting(settings, "app_name"@),
    )
}

fn text_or_blank(found: Option<String>) -> (text: String)
    ensures
        text@ == text_or_empty(found_text(found)),
{
    match found {
        Some(value) => value,
        None => String::new(),
    }
}

/// Assembles the SMTP parameters of a cycle from the seven values that were
/// looked up in the settings store, `None` standing for a missing key.
pub fn assemble_smtp_config(
    host: Option<String>,
    port: Option<String>,
    user: Option<String>,
    password: Option<String>,
    from: Option<String>,
    encryption: Option<String>,
    app_name: Option<String>,
) -> (config: SmtpConfig)
    ensures
        config@ == assembled_smtp(
            found_text(host),
            found_text(port),
            found_text(user),
            found_text(password),
            found_text(from),
            found_text(encryption),
            found_text(app_name),
        ),
{
    let port_text = text_or_blank(port);
    let port_number = match parse_u16(port_text.as_str()) {
        Some(number) => number,
        None => DEFAULT_SMTP_PORT,
    };
    SmtpConfig {
        host: text_or_blank(host),
        port: port_number,
        user: text_or_blank(user),
        password: text_or_blank(password),
        from: text_or_blank(from),
        encryption: text_or_blank(encryption),
        app_name: match app_name {
            Some(name) => name,
            None => String::from_str("FeatherPanel"),
        },
    }
}

/// Reads the SMTP parameters from the settings store. They are read anew for
/// every delivery and never kept across cycles.
pub fn get_smtp_config(store: &Store) -> (config: SmtpConfig)
    ensures
        config@ == smtp_settings(store@.settings),
{
    assemble_smtp_config(
        lookup_setting(&store.settings, "smtp_host"),
        lookup_setting(&store.settings, "smtp_port"),
        lookup_setting(&store.settings, "smtp_user"),
        lookup_setting(&store.settings, "smtp_pass"),
        lookup_setting(&store.settings, "smtp_from"),
        lookup_setting(&store.settings, "smtp_encryption"),
        lookup_setting(&store.settings, "app_name"),
    )
}

/// Whether the heartbeat table has a row for the task `name`.
pub open spec fn has_task(tasks: Seq<TimedTaskView>, name: Seq<char>) -> bool {
    exists|i: int| 0 <= i < tasks.len() && (#[trigger] tasks[i]).task_name == name
}

/// The heartbeat table after `row` has been written: it replaces the row of
/// its task where there is one, and is added where there is none.
pub open spec fn with_heartbeat(tasks: Seq<TimedTaskView>, row: TimedTaskView) -> Seq<
    TimedTaskView,
> {
    if has_task(tasks, row.task_name) {
        Seq::new(
            tasks.len(),
            |i: int|
                if tasks[i].task_name == row.task_name {
                    row
                } else {
                    tasks[i]
                },
        )
    } else {
        tasks.push(row)
    }
}

/// The row that a heartbeat writes at the time `now`.
pub open spec fn heartbeat_row(
    now: Timestamp,
    task_name: Seq<char>,
    success: bool,
    message: Seq<char>,
) -> TimedTaskView {
    TimedTaskView {
        task_name,
        last_run_at: now,
        last_run_success: success,
        last_run_message: message,
        updated_at: now,
    }
}

fn beat(now: Timestamp, task_name: &str, success: bool, message: &str) -> (row: TimedTask)
    ensures
        row@ == heartbeat_row(now, task_name@, success, message@),
{
    TimedTask {
        task_name: String::from_str(task_name),
        last_run_at: now,
        last_run_success: success,
        last_run_message: String::from_str(message),
        updated_at: now,
    }
}

/// Records the outcome of a run of the task `task_name`, stamped with the
/// store's clock: the task's row is updated, or inserted if the task has
/// none yet. A table in which every task has at most one row stays so.
pub fn mark_timed_task(store: &mut Store, task_name: &str, success: bool, message: &str)
    ensures
        final(store)@ == (Tables {
            timed_tasks: with_heartbeat(
                old(store)@.timed_tasks,
                heartbeat_row(old(store).now, task_name@, success, message@),
            ),
            ..old(store)@
        }),
        distinct_tasks(old(store)@.timed_tasks) ==> distinct_tasks(final(store)@.timed_tasks),
{
    let ghost before = store@.timed_tasks;
    let ghost row = heartbeat_row(store.now, task_name@, success, message@);
    let now = store.now;
    let mut written: Vec<TimedTask> = Vec::new();
    let mut found = false;
    let mut i: usize = 0;
    while i < store.timed_tasks.len()
        invariant
            i <= store.timed_tasks.len(),
            *store == *old(store),
            now == store.now,
            before == views(store.timed_tasks@),
            row == heartbeat_row(now, task_name@, success, message@),
            written@.len() == i,
            found == has_task(before.take(i as int), task_name@),
            forall|j: int|
                0 <= j < i ==> (#[trigger] written@[j])@ == if before[j].task_name == task_name@ {
                    row
                } else {
                    before[j]
                },
        decreases store.timed_tasks.len() - i,
    {
        let ghost seen = before.take(i as int);
        let ghost more = before.take(i + 1);
        if same_text(store.timed_tasks[i].task_name.as_str(), task_name) {
            written.push(beat(now, task_name, success, message));
            found = true;
            assert(more[i as int].task_name == task_name@);
        } else {
            written.push(store.timed_tasks[i].clone());
            proof {
                if has_task(more, task_name@) {
                    let k = choose|k: int|
                        0 <= k < more.len() && (#[trigger] more[k]).task_name == task_name@;
                    assert(seen[k].task_name == task_name@);
                }
                if has_task(seen, task_name@) {
                    let k = choose|k: int|
                        0 <= k < seen.len() && (#[trigger] seen[k]).task_name == task_name@;
                    assert(more[k].task_name == task_name@);
                }
            }
        }
        i += 1;
    }
    assert(before.take(store.timed_tasks.len() as int) =~= before);
    if !found {
        written.push(beat(now, task_name, success, message));
    }
    store.timed_tasks = written;
    assert(store@.timed_tasks =~= with_heartbeat(before, row));
    proof {
        if distinct_tasks(before) {
            lemma_heartbeat_leaves_one_row(before, row);
        }
    }
}

/// No two rows of the heartbeat table belong to the same task: the task name
/// is the table's unique key.
pub open spec fn distinct_tasks(tasks: Seq<TimedTaskView>) -> bool {
    forall|i: int, j: int|
        0 <= i < j < tasks.len() ==> (#[trigger] tasks[i]).task_name != (
        #[trigger] tasks[j]).task_name
}

/// Whether `row` is in the table and is the only row of its task.
pub open spec fn only_row_of_task(tasks: Seq<TimedTaskView>, row: TimedTaskView) -> bool {
    exists|i: int|
        0 <= i < tasks.len() && #[trigger] tasks[i] == row && forall|j: int|
            0 <= j < tasks.len() && j != i ==> (#[trigger] tasks[j]).task_name != row.task_name
}

/// A heartbeat leaves exactly one row for its task, and that row holds the
/// outcome just written; the rows of other tasks stay as they were, each
/// still the only one of its task.
pub proof fn lemma_heartbeat_leaves_one_row(tasks: Seq<TimedTaskView>, row: TimedTaskView)
    requires
        distinct_tasks(tasks),
    ensures
        distinct_tasks(with_heartbeat(tasks, row)),
        only_row_of_task(with_heartbeat(tasks, row), row),
        forall|i: int|
            0 <= i < tasks.len() && (#[trigger] tasks[i]).task_name != row.task_name
                ==> with_heartbeat(tasks, row)[i] == tasks[i],
{
    let after = with_heartbeat(tasks, row);
    if has_task(tasks, row.task_name) {
        let k = choose|k: int| 0 <= k < tasks.len() && (#[trigger] tasks[k]).task_name
            == row.task_name;
        assert(after[k] == row);
        assert forall|j: int| 0 <= j < after.len() && j != k implies (#[trigger] after[j]).task_name
            != row.task_name by {
            if j < k {
                assert(tasks[j].task_name != tasks[k].task_name);
            } else {
                assert(tasks[k].task_name != tasks[j].task_name);
            }
        }
        assert forall|i: int, j: int| 0 <= i < j < after.len() implies (#[trigger] after[i]).task_name
            != (#[trigger] after[j]).task_name by {
            assert(tasks[i].task_name != tasks[j].task_name);
        }
    } else {
        let k = tasks.len() as int;
        assert(after[k] == row);
        assert forall|j: int| 0 <= j < after.len() && j != k implies (#[trigger] after[j]).task_name
            != row.task_name by {
            assert(tasks[j].task_name != row.task_name);
        }
        assert forall|i: int, j: int| 0 <= i < j < after.len() implies (#[trigger] after[i]).task_name
            != (#[trigger] after[j]).task_name by {
            if j < k {
                assert(tasks[i].task_name != tasks[j].task_name);
            } else {
                assert(tasks[i].task_name != row.task_name);
            }
        }
    }
}

/// Two heartbeats of one task, whatever their outcomes, leave exactly one
/// row for the task, and it holds the later outcome.
pub proof fn lemma_later_heartbeat_wins(
    tasks: Seq<TimedTaskView>,
    earlier: TimedTaskView,
    later: TimedTaskView,
)
    requires
        distinct_tasks(tasks),
        earlier.task_name == later.task_name,
    ensures
        distinct_tasks(with_heartbeat(with_heartbeat(tasks, earlier), later)),
        only_row_of_task(with_heartbeat(with_heartbeat(tasks, earlier), later), later),
        with_heartbeat(with_heartbeat(tasks, earlier), later).len() == with_heartbeat(
            tasks,
            earlier,
        ).len(),
{
    lemma_heartbeat_leaves_one_row(tasks, earlier);
    let between = with_heartbeat(tasks, earlier);
    lemma_heartbeat_leaves_one_row(between, later);
    let k = choose|k: int|
        0 <= k < between.len() && #[trigger] between[k] == earlier && forall|j: int|
            0 <= j < between.len() && j != k ==> (#[trigger] between[j]).task_name
                != earlier.task_name;
    assert(between[k].task_name == later.task_name);
    assert(has_task(between, later.task_name));
}

} // verus!
