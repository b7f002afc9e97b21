//! What a whole cycle does to the tables.
//!
//! The cycle is run here, as mathematics, against a faithful environment:
//! the gateway answers every request from the tables and carries out every
//! write, the relay answers every attempt as a given function says, and
//! every pause ends. What is proved of such a run is what the dispatcher
//! promises about a cycle. The store in memory answers as the faithful
//! gateway does, so a cycle can be tried out against it.

use vstd::prelude::*;
use vstd::string::*;
use crate::database::{
    claimable,
    detail_with_id,
    flag_or_false,
    get_mail_info,
    get_pending_mails,
    get_setting,
    get_smtp_config,
    get_user_by_uuid,
    heartbeat_row,
    lemma_selection_is_exact,
    mark_timed_task,
    pending_rows,
    smtp_settings,
    stored_setting,
    update_mail_lock,
    update_mail_status,
    user_with_uuid,
    with_heartbeat,
    with_lock,
    with_status,
    Store,
    Tables,
};
use crate::mailer::{send_step, SendActionView, SendEventView, SendPhase, SendStateView};
use crate::models::MailQueueView;
use crate::worker::{
    cycle_accepts,
    cycle_step,
    heartbeat_of,
    Action,
    ActionView,
    CyclePhase,
    CycleView,
    Event,
    EventView,
    MailStatus,
};

verus! {

/// How the gateway answers `action` where the action is the gateway's to
/// answer: the tables after it, and the event that is reported. Every
/// request is answered from the tables and every write is carried out; an
/// attempt, a pause and a rest are not the gateway's, and leave the tables
/// alone.
pub open spec fn gateway_answer(tables: Tables, action: ActionView) -> (Tables, EventView) {
    match action {
        ActionView::GetSetting { name } => (
            tables,
            EventView::Setting(flag_or_false(stored_setting(tables.settings, name))),
        ),
        ActionView::GetPendingMails => (
            tables,
            EventView::Pending(pending_rows(tables.mail_queue)),
        ),
        ActionView::UpdateMailLock { id, locked } => (
            Tables { mail_queue: with_lock(tables.mail_queue, id, locked), ..tables },
            EventView::Written,
        ),
        ActionView::GetMailInfo { id } => (
            tables,
            EventView::MailInfo(detail_with_id(tables.mail_list, id)),
        ),
        ActionView::GetUserByUuid { uuid } => (
            tables,
            EventView::UserInfo(user_with_uuid(tables.users, uuid)),
        ),
        ActionView::GetSmtpConfig => (
            tables,
            EventView::SmtpConfig(Ok(smtp_settings(tables.settings))),
        ),
        ActionView::UpdateMailStatus { id, status, locked } => (
            Tables {
                mail_queue: with_status(tables.mail_queue, id, status.text(), locked),
                ..tables
            },
            EventView::Written,
        ),
        ActionView::MarkTimedTask { task_name, success, message } => (
            Tables {
                timed_tasks: with_heartbeat(
                    tables.timed_tasks,
                    heartbeat_row(tables.now, task_name, success, message),
                ),
                ..tables
            },
            EventView::Written,
        ),
        _ => (tables, EventView::Start),
    }
}

/// Whether `action` is one that the gateway answers.
pub open spec fn for_gateway(action: ActionView) -> bool {
    !(action is Attempt || action is Sleep || action is Rest)
}

/// How a faithful environment answers `action`: the tables after it, and the
/// event that is reported. The gateway answers what is its to answer;
/// `relay(id, n)` is what the relay answers to the attempt with the number
/// `n` for the entry with the identifier `id`; and every pause ends.
pub open spec fn answer(
    tables: Tables,
    relay: spec_fn(int, nat) -> Result<(), Seq<char>>,
    action: ActionView,
) -> (Tables, EventView) {
    match action {
        ActionView::Attempt { mail, number, .. } => (
            tables,
            EventView::Attempted(relay(mail.id, number)),
        ),
        ActionView::Sleep { .. } => (tables, EventView::Resumed),
        _ => gateway_answer(tables, action),
    }
}

/// Answers `action` from the store in memory, if it is the gateway's to
/// answer: the request is looked up or the write is made, and the event to
/// report comes back. For an attempt, a pause or a rest the store is left
/// alone and nothing comes back.
pub fn serve(store: &mut Store, action: &Action) -> (event: Option<Event>)
    ensures
        match event {
            Some(reported) => for_gateway(action@) && (final(store)@, reported@) == gateway_answer(
                old(store)@,
                action@,
            ),
            None => !for_gateway(action@) && *final(store) == *old(store),
        },
{
    match action {
        Action::GetSetting { name } => Some(Event::Setting(get_setting(store, name.as_str()))),
        Action::GetPendingMails => Some(Event::Pending(get_pending_mails(store))),
        Action::UpdateMailLock { id, locked } => {
            update_mail_lock(store, *id, *locked);
            Some(Event::Written)
        },
        Action::GetMailInfo { id } => Some(Event::MailInfo(get_mail_info(store, *id))),
        Action::GetUserByUuid { uuid } => Some(
            Event::UserInfo(get_user_by_uuid(store, uuid.as_str())),
        ),
        Action::GetSmtpConfig => Some(Event::SmtpConfig(Ok(get_smtp_config(store)))),
        Action::UpdateMailStatus { id, status, locked } => {
            update_mail_status(store, *id, status.as_str(), *locked);
            Some(Event::Written)
        },
        Action::MarkTimedTask { task_name, success, message } => {
            mark_timed_task(store, task_name.as_str(), *success, message.as_str());
            Some(Event::Written)
        },
        Action::Attempt { .. } => None,
        Action::Sleep { .. } => None,
        Action::Rest { .. } => None,
    }
}

/// A bound on what a cycle can still ask for: the stage of the cycle, the
/// entries that are left, and the steps that the current entry can take.
pub open spec fn cycle_measure(state: CycleView, action: ActionView) -> (nat, nat, nat) {
    let left = (state.queue.len() - state.position) as nat;
    let budget = 2 * state.max_retries;
    let spent = 2 * state.send.attempt;
    match action {
        ActionView::MarkTimedTask { .. } => (0, 0, 0),
        ActionView::Rest { .. } => (0, 0, 0),
        ActionView::GetSetting { .. } => (3, 0, 0),
        ActionView::GetPendingMails => (2, 0, 0),
        ActionView::UpdateMailLock { .. } => (1, left, budget + 8),
        ActionView::GetMailInfo { .. } => (1, left, budget + 7),
        ActionView::GetUserByUuid { .. } => (1, left, budget + 6),
        ActionView::GetSmtpConfig => (1, left, budget + 5),
        ActionView::Attempt { .. } => (1, left, (budget - spent + 4) as nat),
        ActionView::Sleep { .. } => (1, left, (budget - spent + 3) as nat),
        ActionView::UpdateMailStatus { .. } => (1, left, 1),
    }
}

/// The order in which the measure of a cycle goes down.
pub open spec fn measure_below(a: (nat, nat, nat), b: (nat, nat, nat)) -> bool {
    a.0 < b.0 || (a.0 == b.0 && (a.1 < b.1 || (a.1 == b.1 && a.2 < b.2)))
}

/// Runs a cycle from `state`, whose pending action is `action`, to its end
/// against a faithful environment, and gives the tables that it leaves,
/// heartbeat included.
pub open spec fn cycle_run(
    state: CycleView,
    action: ActionView,
    tables: Tables,
    relay: spec_fn(int, nat) -> Result<(), Seq<char>>,
) -> Tables
    decreases cycle_measure(state, action).0, cycle_measure(state, action).1, cycle_measure(
            state,
            action,
        ).2,
{
    let answered = answer(tables, relay, action);
    if action is MarkTimedTask {
        answered.0
    } else {
        let next = cycle_step(state, answered.1);
        if measure_below(cycle_measure(next.0, next.1), cycle_measure(state, action)) {
            cycle_run(next.0, next.1, answered.0, relay)
        } else {
            tables
        }
    }
}

/// The tables that one cycle with the given interval and retry policy
/// leaves, from its start to the write of its heartbeat.
pub open spec fn cycle_outcome(
    tables: Tables,
    relay: spec_fn(int, nat) -> Result<(), Seq<char>>,
    worker_interval: nat,
    max_retries: nat,
    retry_delay: nat,
) -> Tables {
    let first = cycle_step(
        CycleView::initial(worker_interval, max_retries, retry_delay),
        EventView::Start,
    );
    cycle_run(first.0, first.1, tables, relay)
}

/// The course of a cycle from `state`, whose pending action is `action`, to
/// the write of its heartbeat: every action that is asked for, in order,
/// each with the tables as they are when it is asked.
pub open spec fn cycle_course(
    state: CycleView,
    action: ActionView,
    tables: Tables,
    relay: spec_fn(int, nat) -> Result<(), Seq<char>>,
) -> Seq<(ActionView, Tables)>
    decreases cycle_measure(state, action).0, cycle_measure(state, action).1, cycle_measure(
            state,
            action,
        ).2,
{
    let answered = answer(tables, relay, action);
    let next = cycle_step(state, answered.1);
    if !(action is MarkTimedTask) && measure_below(
        cycle_measure(next.0, next.1),
        cycle_measure(state, action),
    ) {
        seq![(action, tables)] + cycle_course(next.0, next.1, answered.0, relay)
    } else {
        seq![(action, tables)]
    }
}

/// Everything that one cycle with the given interval and retry policy asks
/// for, from its start to the write of its heartbeat, each action with the
/// tables as they are when it is asked.
pub open spec fn cycle_actions(
    tables: Tables,
    relay: spec_fn(int, nat) -> Result<(), Seq<char>>,
    worker_interval: nat,
    max_retries: nat,
    retry_delay: nat,
) -> Seq<(ActionView, Tables)> {
    let first = cycle_step(
        CycleView::initial(worker_interval, max_retries, retry_delay),
        EventView::Start,
    );
    cycle_course(first.0, first.1, tables, relay)
}

/// Whether `asked` is the claim of the entry with the identifier `id`: the
/// request to lock it.
pub open spec fn claims(asked: (ActionView, Tables), id: int) -> bool {
    asked.0 == (ActionView::UpdateMailLock { id, locked: true })
}

/// Whether the entry with the identifier `id` is claimed somewhere in
/// `course`.
pub open spec fn claimed_in(course: Seq<(ActionView, Tables)>, id: int) -> bool {
    exists|k: int| 0 <= k < course.len() && claims(#[trigger] course[k], id)
}

/// Whether every row of the queue in `tables` that has the identifier `id`
/// is locked.
pub open spec fn locked_in(tables: Tables, id: int) -> bool {
    forall|i: int|
        0 <= i < tables.mail_queue.len() && (#[trigger] tables.mail_queue[i]).id == id
            ==> tables.mail_queue[i].locked == "true"@
}

/// Whether `asked`, if it concerns an entry after its claim, finds the entry
/// locked: the lookup of its detail record, a delivery attempt and the write
/// of its final status all name their entry.
pub open spec fn asked_under_lock(asked: (ActionView, Tables)) -> bool {
    match asked.0 {
        ActionView::GetMailInfo { id } => locked_in(asked.1, id),
        ActionView::Attempt { mail, .. } => locked_in(asked.1, mail.id),
        ActionView::UpdateMailStatus { id, .. } => locked_in(asked.1, id),
        _ => true,
    }
}

/// An entry is settled when its status is final and its lock is released.
pub open spec fn settled(row: MailQueueView) -> bool {
    (row.status == "sent"@ || row.status == "failed"@) && row.locked == "false"@
}

/// Whether the cycle is switched on in the settings store.
pub open spec fn enabled(tables: Tables) -> bool {
    flag_or_false(stored_setting(tables.settings, "smtp_enabled"@)) == "true"@
}

/// Whether one of the first `upto` entries of `queue` has the identifier
/// `id`.
spec fn id_among(queue: Seq<MailQueueView>, upto: int, id: int) -> bool {
    exists|j: int| 0 <= j < upto && j < queue.len() && (#[trigger] queue[j]).id == id
}

/// Whether `action` is what the cycle in `state` has asked for and is
/// waiting to hear of, where no gateway call has failed.
spec fn awaits(state: CycleView, action: ActionView) -> bool {
    match state.phase {
        CyclePhase::Idle => false,
        CyclePhase::CheckingEnabled => action == (ActionView::GetSetting { name: "smtp_enabled"@ }),
        CyclePhase::Fetching => action == ActionView::GetPendingMails,
        CyclePhase::Locking => action == (ActionView::UpdateMailLock {
            id: state.current().id,
            locked: true,
        }),
        CyclePhase::ResolvingDetail => action == (ActionView::GetMailInfo {
            id: state.current().id,
        }),
        CyclePhase::ResolvingUser => action is GetUserByUuid,
        CyclePhase::Sending => match state.send.phase {
            SendPhase::LoadingConfig => action == ActionView::GetSmtpConfig,
            SendPhase::Attempting => action == (ActionView::Attempt {
                smtp_config: state.send.smtp_config->Some_0,
                mail: state.current(),
                user: state.user->Some_0,
                number: state.send.attempt,
            }),
            SendPhase::Pausing => action == (ActionView::Sleep { seconds: state.retry_delay }),
            _ => false,
        },
        CyclePhase::Recording => action == (ActionView::UpdateMailStatus {
            id: state.current().id,
            status: action->UpdateMailStatus_status,
            locked: false,
        }),
        CyclePhase::Reporting => action == heartbeat_of(Ok(())),
        CyclePhase::Finished => false,
    }
}

/// Whether the cycle has locked the entry in hand and not yet released it.
spec fn holds_lock(state: CycleView) -> bool {
    state.phase == CyclePhase::ResolvingDetail || state.phase == CyclePhase::ResolvingUser
        || state.phase == CyclePhase::Sending || state.phase == CyclePhase::Recording
}

/// What holds of the tables while a cycle that began on `before` runs: only
/// the queue has changed, and in it only status and lock; every entry whose
/// turn is over is settled, unless the entry in hand shares its identifier;
/// an entry whose identifier no claimed entry has is as it was; and the
/// entry in hand is locked from its claim to its final status.
spec fn on_track(before: Tables, state: CycleView, tables: Tables) -> bool {
    let busy = state.in_entry();
    &&& tables == (Tables { mail_queue: tables.mail_queue, ..before })
    &&& tables.mail_queue.len() == before.mail_queue.len()
    &&& forall|i: int|
        0 <= i < tables.mail_queue.len() ==> (#[trigger] tables.mail_queue[i]).id
            == before.mail_queue[i].id
    &&& (state.phase == CyclePhase::CheckingEnabled || state.phase == CyclePhase::Fetching)
        ==> tables.mail_queue == before.mail_queue
    &&& (state.phase == CyclePhase::Fetching || busy) ==> enabled(before)
    &&& (busy || state.phase == CyclePhase::Reporting) ==> state.queue == if enabled(before) {
        pending_rows(before.mail_queue)
    } else {
        Seq::empty()
    }
    &&& state.phase == CyclePhase::Reporting ==> state.position == state.queue.len()
    &&& !(busy || state.phase == CyclePhase::Reporting) ==> state.queue.len() == 0
    &&& forall|i: int|
        0 <= i < tables.mail_queue.len() && id_among(
            state.queue,
            state.position as int,
            before.mail_queue[i].id,
        ) && !(busy && state.current().id == before.mail_queue[i].id) ==> settled(
            #[trigger] tables.mail_queue[i],
        )
    &&& forall|i: int|
        0 <= i < tables.mail_queue.len() && !id_among(
            state.queue,
            state.queue.len() as int,
            before.mail_queue[i].id,
        ) ==> #[trigger] tables.mail_queue[i] == before.mail_queue[i]
    &&& forall|i: int|
        0 <= i < tables.mail_queue.len() && holds_lock(state) && before.mail_queue[i].id
            == state.current().id ==> (#[trigger] tables.mail_queue[i]).locked == "true"@
}

proof fn lemma_selection_is_stable(queue: Seq<MailQueueView>)
    requires
        forall|i: int| 0 <= i < queue.len() ==> claimable(#[trigger] queue[i]),
    ensures
        pending_rows(queue) == queue,
    decreases queue.len(),
{
    if queue.len() > 0 {
        let front = queue.drop_last();
        assert forall|i: int| 0 <= i < front.len() implies claimable(#[trigger] front[i]) by {
            assert(front[i] == queue[i]);
        }
        lemma_selection_is_stable(front);
        assert(claimable(queue[queue.len() - 1]));
        assert(front.push(queue.last()) =~= queue);
    } else {
        assert(pending_rows(queue) =~= queue);
    }
}

proof fn lemma_selected_are_claimable(queue: Seq<MailQueueView>)
    ensures
        forall|i: int|
            0 <= i < pending_rows(queue).len() ==> claimable(#[trigger] pending_rows(queue)[i]),
        pending_rows(pending_rows(queue)) == pending_rows(queue),
{
    lemma_selection_is_exact(queue);
    assert forall|i: int| 0 <= i < pending_rows(queue).len() implies claimable(
        #[trigger] pending_rows(queue)[i],
    ) by {
        assert(pending_rows(queue).contains(pending_rows(queue)[i]));
    }
    lemma_selection_is_stable(pending_rows(queue));
}

proof fn lemma_step_stays_on_track(
    before: Tables,
    state: CycleView,
    action: ActionView,
    tables: Tables,
    relay: spec_fn(int, nat) -> Result<(), Seq<char>>,
)
    requires
        state.wf(),
        awaits(state, action),
        on_track(before, state, tables),
        !(action is MarkTimedTask),
    ensures
        ({
            let answered = answer(tables, relay, action);
            let next = cycle_step(state, answered.1);
            &&& cycle_accepts(state, answered.1)
            &&& next.0.wf()
            &&& awaits(next.0, next.1)
            &&& on_track(before, next.0, answered.0)
            &&& measure_below(cycle_measure(next.0, next.1), cycle_measure(state, action))
        }),
{
    let answered = answer(tables, relay, action);
    let next = cycle_step(state, answered.1);
    lemma_selected_are_claimable(before.mail_queue);
    match state.phase {
        CyclePhase::CheckingEnabled => {
            assert(state.queue =~= Seq::empty());
        },
        CyclePhase::Locking => {
            lemma_write_keeps_track(before, state, next.0, tables, answered.0);
        },
        CyclePhase::ResolvingDetail | CyclePhase::ResolvingUser | CyclePhase::Sending => {
            lemma_same_entry_keeps_track(before, state, next.0, tables);
        },
        CyclePhase::Recording => {
            lemma_record_keeps_track(before, state, action, tables);
        },
        _ => {},
    }
}

proof fn lemma_same_entry_keeps_track(
    before: Tables,
    state: CycleView,
    next: CycleView,
    tables: Tables,
)
    requires
        on_track(before, state, tables),
        holds_lock(state),
        next.in_entry(),
        next.queue == state.queue,
        next.position == state.position,
    ensures
        on_track(before, next, tables),
{
}

proof fn lemma_write_keeps_track(
    before: Tables,
    state: CycleView,
    next: CycleView,
    tables: Tables,
    written: Tables,
)
    requires
        on_track(before, state, tables),
        state.in_entry(),
        next.in_entry(),
        next.queue == state.queue,
        next.position == state.position,
        state.position < state.queue.len(),
        written == (Tables {
            mail_queue: with_lock(tables.mail_queue, state.current().id, true),
            ..tables
        }),
    ensures
        on_track(before, next, written),
{
    let id = state.current().id;
    assert(id_among(state.queue, state.queue.len() as int, id)) by {
        assert(state.queue[state.position as int].id == id);
    }
    assert forall|i: int|
        0 <= i < written.mail_queue.len() && !id_among(
            next.queue,
            next.queue.len() as int,
            before.mail_queue[i].id,
        ) implies #[trigger] written.mail_queue[i] == before.mail_queue[i] by {
        assert(tables.mail_queue[i] == before.mail_queue[i]);
    }
    assert forall|i: int|
        0 <= i < written.mail_queue.len() && id_among(
            next.queue,
            next.position as int,
            before.mail_queue[i].id,
        ) && !(next.in_entry() && next.current().id == before.mail_queue[i].id) implies settled(
        #[trigger] written.mail_queue[i],
    ) by {
        assert(settled(tables.mail_queue[i]));
    }
}

proof fn lemma_record_keeps_track(
    before: Tables,
    state: CycleView,
    action: ActionView,
    tables: Tables,
)
    requires
        state.wf(),
        state.phase == CyclePhase::Recording,
        awaits(state, action),
        on_track(before, state, tables),
    ensures
        ({
            let written = Tables {
                mail_queue: with_status(
                    tables.mail_queue,
                    state.current().id,
                    action->UpdateMailStatus_status.text(),
                    false,
                ),
                ..tables
            };
            let next = cycle_step(state, EventView::Written);
            on_track(before, next.0, written)
        }),
{
    let id = state.current().id;
    let written = Tables {
        mail_queue: with_status(
            tables.mail_queue,
            id,
            action->UpdateMailStatus_status.text(),
            false,
        ),
        ..tables
    };
    let next = cycle_step(state, EventView::Written).0;
    assert(next.queue == state.queue);
    assert(next.position == state.position + 1);
    assert(id_among(state.queue, state.queue.len() as int, id)) by {
        assert(state.queue[state.position as int].id == id);
    }
    assert forall|i: int|
        0 <= i < written.mail_queue.len() && !id_among(
            next.queue,
            next.queue.len() as int,
            before.mail_queue[i].id,
        ) implies #[trigger] written.mail_queue[i] == before.mail_queue[i] by {
        assert(tables.mail_queue[i] == before.mail_queue[i]);
    }
    assert forall|i: int|
        0 <= i < written.mail_queue.len() && id_among(
            next.queue,
            next.position as int,
            before.mail_queue[i].id,
        ) && !(next.in_entry() && next.current().id == before.mail_queue[i].id) implies settled(
        #[trigger] written.mail_queue[i],
    ) by {
        let row_id = before.mail_queue[i].id;
        assert(tables.mail_queue[i].id == row_id);
        if row_id != id {
            let j = choose|j: int|
                0 <= j < next.position && j < next.queue.len() && (#[trigger] next.queue[j]).id
                    == row_id;
            assert(j < state.position);
            assert(state.queue[j].id == row_id);
            assert(id_among(state.queue, state.position as int, row_id));
            assert(settled(tables.mail_queue[i]));
        }
    }
}

/// Whether some claimable entry of `queue` has the identifier `id`.
pub open spec fn claimed_id(queue: Seq<MailQueueView>, id: int) -> bool {
    exists|k: int| 0 <= k < queue.len() && claimable(#[trigger] queue[k]) && queue[k].id == id
}

/// The heartbeat row that a cycle without a gateway failure writes.
pub open spec fn success_row(tables: Tables) -> crate::database::TimedTaskView {
    heartbeat_row(tables.now, "mail-sender"@, true, "Mail sender heartbeat"@)
}

/// What a cycle that began on `before` and met no gateway failure leaves in
/// `after`: a successful heartbeat; a queue of the same entries, of which
/// every claimable one is settled if the cycle was switched on; and every
/// entry untouched whose identifier no claimable entry had, or all of them
/// if the cycle was switched off.
spec fn cycle_done(before: Tables, after: Tables) -> bool {
    &&& after == (Tables {
        mail_queue: after.mail_queue,
        timed_tasks: with_heartbeat(before.timed_tasks, success_row(before)),
        ..before
    })
    &&& after.mail_queue.len() == before.mail_queue.len()
    &&& forall|i: int|
        0 <= i < after.mail_queue.len() ==> (#[trigger] after.mail_queue[i]).id
            == before.mail_queue[i].id
    &&& forall|i: int|
        0 <= i < after.mail_queue.len() && enabled(before) && claimable(before.mail_queue[i])
            ==> settled(#[trigger] after.mail_queue[i])
    &&& forall|i: int|
        0 <= i < after.mail_queue.len() && (!enabled(before) || !claimed_id(
            before.mail_queue,
            before.mail_queue[i].id,
        )) ==> #[trigger] after.mail_queue[i] == before.mail_queue[i]
}

proof fn lemma_run_keeps_its_word(
    before: Tables,
    state: CycleView,
    action: ActionView,
    tables: Tables,
    relay: spec_fn(int, nat) -> Result<(), Seq<char>>,
)
    requires
        state.wf(),
        awaits(state, action),
        on_track(before, state, tables),
    ensures
        cycle_done(before, cycle_run(state, action, tables, relay)),
    decreases cycle_measure(state, action).0, cycle_measure(state, action).1, cycle_measure(
            state,
            action,
        ).2,
{
    let answered = answer(tables, relay, action);
    if action is MarkTimedTask {
        assert(state.phase == CyclePhase::Reporting);
        let after = answered.0;
        let queue = before.mail_queue;
        lemma_selection_is_exact(queue);
        assert forall|i: int|
            0 <= i < after.mail_queue.len() && enabled(before) && claimable(
                queue[i],
            ) implies settled(#[trigger] after.mail_queue[i]) by {
            assert(queue.contains(queue[i]));
            assert(pending_rows(queue).contains(queue[i]));
            let j = choose|j: int| 0 <= j < state.queue.len() && state.queue[j] == queue[i];
            assert(state.queue[j].id == queue[i].id);
            assert(id_among(state.queue, state.position as int, queue[i].id));
        }
        assert forall|i: int|
            0 <= i < after.mail_queue.len() && (!enabled(before) || !claimed_id(
                queue,
                queue[i].id,
            )) implies #[trigger] after.mail_queue[i] == queue[i] by {
            if id_among(state.queue, state.queue.len() as int, queue[i].id) {
                let j = choose|j: int|
                    0 <= j < state.queue.len() && (#[trigger] state.queue[j]).id == queue[i].id;
                assert(enabled(before));
                assert(pending_rows(queue).contains(state.queue[j]));
                assert(queue.contains(state.queue[j]));
                let k = choose|k: int| 0 <= k < queue.len() && queue[k] == state.queue[j];
                assert(claimable(queue[k]) && queue[k].id == queue[i].id);
                assert(claimed_id(queue, queue[i].id));
            }
        }
    } else {
        lemma_step_stays_on_track(before, state, action, tables, relay);
        let next = cycle_step(state, answered.1);
        lemma_run_keeps_its_word(before, next.0, next.1, answered.0, relay);
    }
}

proof fn lemma_cycle_keeps_its_word(
    tables: Tables,
    relay: spec_fn(int, nat) -> Result<(), Seq<char>>,
    worker_interval: nat,
    max_retries: nat,
    retry_delay: nat,
)
    requires
        worker_interval <= u64::MAX,
        max_retries <= u32::MAX,
        retry_delay <= u64::MAX,
    ensures
        cycle_done(tables, cycle_outcome(tables, relay, worker_interval, max_retries, retry_delay)),
{
    let first = cycle_step(CycleView::initial(worker_interval, max_retries, retry_delay), EventView::Start);
    lemma_run_keeps_its_word(tables, first.0, first.1, tables, relay);
}

/// One cycle settles every entry that could be claimed when it began: where
/// the cycle is switched on and no gateway call fails, each entry that was
/// pending, not locked and not deleted ends as `sent` or as `failed`, with
/// its lock released, whatever the relay answers and however often a
/// delivery is retried; and the heartbeat of the cycle reports success.
pub proof fn lemma_cycle_settles_claimable_entries(
    tables: Tables,
    relay: spec_fn(int, nat) -> Result<(), Seq<char>>,
    worker_interval: nat,
    max_retries: nat,
    retry_delay: nat,
)
    requires
        worker_interval <= u64::MAX,
        max_retries <= u32::MAX,
        retry_delay <= u64::MAX,
        enabled(tables),
    ensures
        ({
            let after = cycle_outcome(tables, relay, worker_interval, max_retries, retry_delay);
            &&& after.mail_queue.len() == tables.mail_queue.len()
            &&& forall|i: int|
                0 <= i < tables.mail_queue.len() && claimable(#[trigger] tables.mail_queue[i]) ==> {
                    &&& after.mail_queue[i].id == tables.mail_queue[i].id
                    &&& after.mail_queue[i].status == "sent"@ || after.mail_queue[i].status
                        == "failed"@
                    &&& after.mail_queue[i].locked == "false"@
                }
            &&& after.timed_tasks == with_heartbeat(tables.timed_tasks, success_row(tables))
        }),
{
    lemma_cycle_keeps_its_word(tables, relay, worker_interval, max_retries, retry_delay);
    let after = cycle_outcome(tables, relay, worker_interval, max_retries, retry_delay);
    assert forall|i: int|
        0 <= i < tables.mail_queue.len() && claimable(#[trigger] tables.mail_queue[i]) implies {
        &&& after.mail_queue[i].id == tables.mail_queue[i].id
        &&& after.mail_queue[i].status == "sent"@ || after.mail_queue[i].status == "failed"@
        &&& after.mail_queue[i].locked == "false"@
    } by {
        assert(settled(after.mail_queue[i]));
    }
}

/// A cycle selects no entry that is deleted or locked, nor any that is not
/// pending: such an entry is left exactly as it was, unless a claimable
/// entry has the same identifier, in which case the writes for that one,
/// which go by identifier, reach it too. Nothing but the queue and the
/// heartbeat is written at all.
pub proof fn lemma_cycle_leaves_other_entries_alone(
    tables: Tables,
    relay: spec_fn(int, nat) -> Result<(), Seq<char>>,
    worker_interval: nat,
    max_retries: nat,
    retry_delay: nat,
)
    requires
        worker_interval <= u64::MAX,
        max_retries <= u32::MAX,
        retry_delay <= u64::MAX,
    ensures
        ({
            let after = cycle_outcome(tables, relay, worker_interval, max_retries, retry_delay);
            &&& after.mail_queue.len() == tables.mail_queue.len()
            &&& forall|i: int|
                0 <= i < tables.mail_queue.len() && !claimed_id(
                    tables.mail_queue,
                    (#[trigger] tables.mail_queue[i]).id,
                ) ==> after.mail_queue[i] == tables.mail_queue[i]
            &&& after.settings == tables.settings
            &&& after.mail_list == tables.mail_list
            &&& after.users == tables.users
        }),
{
    lemma_cycle_keeps_its_word(tables, relay, worker_interval, max_retries, retry_delay);
    let after = cycle_outcome(tables, relay, worker_interval, max_retries, retry_delay);
    assert forall|i: int|
        0 <= i < tables.mail_queue.len() && !claimed_id(
            tables.mail_queue,
            (#[trigger] tables.mail_queue[i]).id,
        ) implies after.mail_queue[i] == tables.mail_queue[i] by {
        assert(after.mail_queue[i] == tables.mail_queue[i]);
    }
}

/// Unless the flag `smtp_enabled` reads exactly `true`, a cycle asks for
/// nothing after the flag: its next action is the heartbeat, which reports
/// success, so the queue is neither fetched nor written.
pub proof fn lemma_disabled_cycle_only_reports(
    tables: Tables,
    relay: spec_fn(int, nat) -> Result<(), Seq<char>>,
    worker_interval: nat,
    max_retries: nat,
    retry_delay: nat,
)
    requires
        worker_interval <= u64::MAX,
        max_retries <= u32::MAX,
        retry_delay <= u64::MAX,
        !enabled(tables),
    ensures
        ({
            let asked = cycle_step(
                CycleView::initial(worker_interval, max_retries, retry_delay),
                EventView::Start,
            );
            let told = answer(tables, relay, asked.1);
            &&& asked.1 == (ActionView::GetSetting { name: "smtp_enabled"@ })
            &&& told.0 == tables
            &&& cycle_step(asked.0, told.1).1 == heartbeat_of(Ok(()))
        }),
        cycle_outcome(tables, relay, worker_interval, max_retries, retry_delay) == (Tables {
            timed_tasks: with_heartbeat(tables.timed_tasks, success_row(tables)),
            ..tables
        }),
{
    lemma_cycle_keeps_its_word(tables, relay, worker_interval, max_retries, retry_delay);
    let after = cycle_outcome(tables, relay, worker_interval, max_retries, retry_delay);
    assert(after.mail_queue =~= tables.mail_queue);
}

/// A gateway call that fails outright ends the cycle then and there: nothing
/// more is asked of the store but to write a heartbeat that reports the
/// failure with the error's own text.
pub proof fn lemma_gateway_failure_ends_cycle(state: CycleView, cause: Seq<char>)
    requires
        cycle_accepts(state, EventView::GatewayError(cause)),
        state.phase != CyclePhase::Reporting,
    ensures
        cycle_step(state, EventView::GatewayError(cause)).0.phase == CyclePhase::Reporting,
        cycle_step(state, EventView::GatewayError(cause)).1 == (ActionView::MarkTimedTask {
            task_name: "mail-sender"@,
            success: false,
            message: cause,
        }),
{
}

/// However an attempt ends, the cycle goes on. A success is answered by
/// writing the status `sent` with the lock released; a failure by a pause of
/// `retry_delay` seconds where a further attempt is allowed, and else by
/// writing the status `failed` with the lock released. Never is the cycle
/// ended on account of an attempt.
pub proof fn lemma_delivery_never_fails_cycle(state: CycleView, outcome: Result<(), Seq<char>>)
    requires
        state.wf(),
        state.phase == CyclePhase::Sending,
        state.send.phase == SendPhase::Attempting,
    ensures
        ({
            let next = cycle_step(state, EventView::Attempted(outcome));
            match next.1 {
                ActionView::Sleep { seconds } => outcome is Err && state.send.attempt
                    < state.max_retries && seconds == state.retry_delay,
                ActionView::UpdateMailStatus { id, status, locked } => id == state.current().id
                    && !locked && (status == MailStatus::Sent <==> outcome is Ok) && (outcome is Err
                    ==> state.send.attempt == state.max_retries),
                _ => false,
            }
        }),
{
}

/// Once the heartbeat has been handed out, the cycle ends with a rest of
/// `worker_interval` seconds, whether the heartbeat could be written or not:
/// a heartbeat that fails to be written stops nothing.
pub proof fn lemma_cycle_ends_with_rest(state: CycleView, event: EventView)
    requires
        state.phase == CyclePhase::Reporting,
        cycle_accepts(state, event),
    ensures
        event is Written || event is GatewayError,
        cycle_step(state, event) == (
            CycleView { phase: CyclePhase::Finished, ..state },
            ActionView::Rest { seconds: state.worker_interval },
        ),
{
}

/// The index from which on the claims of the selected entries still lie
/// ahead of the cycle in `state`.
spec fn unclaimed_from(state: CycleView) -> int {
    if state.phase == CyclePhase::CheckingEnabled || state.phase == CyclePhase::Fetching {
        0
    } else if state.phase == CyclePhase::Locking {
        state.position as int
    } else if state.in_entry() {
        state.position as int + 1
    } else {
        state.queue.len() as int
    }
}

proof fn lemma_course_is_orderly(
    before: Tables,
    state: CycleView,
    action: ActionView,
    tables: Tables,
    relay: spec_fn(int, nat) -> Result<(), Seq<char>>,
)
    requires
        state.wf(),
        awaits(state, action),
        on_track(before, state, tables),
    ensures
        ({
            let course = cycle_course(state, action, tables, relay);
            let selected = pending_rows(before.mail_queue);
            &&& course.len() >= 1
            &&& course[0] == (action, tables)
            &&& course.last().0 == heartbeat_of(Ok(()))
            &&& forall|k: int| 0 <= k < course.len() ==> asked_under_lock(#[trigger] course[k])
            &&& forall|k: int|
                0 <= k < course.len() && !enabled(before) ==> !((#[trigger] course[k]).0
                    is GetPendingMails)
            &&& forall|j: int|
                enabled(before) && unclaimed_from(state) <= j < selected.len() ==> claimed_in(
                    course,
                    (#[trigger] selected[j]).id,
                )
        }),
    decreases cycle_measure(state, action).0, cycle_measure(state, action).1, cycle_measure(
            state,
            action,
        ).2,
{
    let course = cycle_course(state, action, tables, relay);
    let selected = pending_rows(before.mail_queue);
    let here = seq![(action, tables)];
    assert(asked_under_lock((action, tables))) by {
        if action is Attempt || action is GetMailInfo || action is UpdateMailStatus {
            assert(holds_lock(state));
            assert forall|i: int|
                0 <= i < tables.mail_queue.len() && (#[trigger] tables.mail_queue[i]).id
                    == state.current().id implies tables.mail_queue[i].locked == "true"@ by {
                assert(before.mail_queue[i].id == state.current().id);
            }
            assert(locked_in(tables, state.current().id));
        }
    }
    if action is MarkTimedTask {
        assert(course =~= here);
    } else {
        lemma_step_stays_on_track(before, state, action, tables, relay);
        let answered = answer(tables, relay, action);
        let next = cycle_step(state, answered.1);
        lemma_course_is_orderly(before, next.0, next.1, answered.0, relay);
        let rest = cycle_course(next.0, next.1, answered.0, relay);
        assert(course =~= here + rest);
        assert(course.last() == rest.last());
        assert forall|k: int| 0 <= k < course.len() implies asked_under_lock(
            #[trigger] course[k],
        ) by {
            if k > 0 {
                assert(course[k] == rest[k - 1]);
            }
        }
        assert forall|k: int| 0 <= k < course.len() && !enabled(before) implies !((
        #[trigger] course[k]).0 is GetPendingMails) by {
            if k > 0 {
                assert(course[k] == rest[k - 1]);
            }
        }
        assert forall|j: int|
            enabled(before) && unclaimed_from(state) <= j < selected.len() implies claimed_in(
            course,
            (#[trigger] selected[j]).id,
        ) by {
            if state.phase == CyclePhase::Locking && j == state.position {
                assert(claims(course[0], selected[j].id));
            } else {
                assert(unclaimed_from(next.0) <= j);
                assert(claimed_in(rest, selected[j].id));
                let k = choose|k: int|
                    0 <= k < rest.len() && claims(#[trigger] rest[k], selected[j].id);
                assert(course[k + 1] == rest[k]);
                assert(claims(course[k + 1], selected[j].id));
            }
        }
    }
}

/// Every entry that could be claimed when the cycle began is claimed by it:
/// where the cycle is switched on and no gateway call fails, the cycle asks
/// for the lock of each entry that was pending, not locked and not deleted.
pub proof fn lemma_cycle_claims_claimable_entries(
    tables: Tables,
    relay: spec_fn(int, nat) -> Result<(), Seq<char>>,
    worker_interval: nat,
    max_retries: nat,
    retry_delay: nat,
)
    requires
        worker_interval <= u64::MAX,
        max_retries <= u32::MAX,
        retry_delay <= u64::MAX,
        enabled(tables),
    ensures
        ({
            let course = cycle_actions(tables, relay, worker_interval, max_retries, retry_delay);
            forall|i: int|
                0 <= i < tables.mail_queue.len() && claimable(#[trigger] tables.mail_queue[i])
                    ==> claimed_in(course, tables.mail_queue[i].id)
        }),
{
    let first = cycle_step(
        CycleView::initial(worker_interval, max_retries, retry_delay),
        EventView::Start,
    );
    lemma_course_is_orderly(tables, first.0, first.1, tables, relay);
    lemma_selection_is_exact(tables.mail_queue);
    let course = cycle_actions(tables, relay, worker_interval, max_retries, retry_delay);
    let selected = pending_rows(tables.mail_queue);
    assert forall|i: int|
        0 <= i < tables.mail_queue.len() && claimable(
            #[trigger] tables.mail_queue[i],
        ) implies claimed_in(course, tables.mail_queue[i].id) by {
        let row = tables.mail_queue[i];
        assert(tables.mail_queue.contains(row));
        assert(selected.contains(row));
        let j = choose|j: int| 0 <= j < selected.len() && selected[j] == row;
        assert(unclaimed_from(first.0) <= j < selected.len());
        assert(claimed_in(course, selected[j].id));
    }
}

/// From its claim to its final status an entry is locked: whenever a cycle
/// asks for the detail record of an entry, for an attempt to deliver it or
/// for the write of its final status, every row of that entry is locked at
/// that moment.
pub proof fn lemma_entries_are_processed_under_lock(
    tables: Tables,
    relay: spec_fn(int, nat) -> Result<(), Seq<char>>,
    worker_interval: nat,
    max_retries: nat,
    retry_delay: nat,
)
    requires
        worker_interval <= u64::MAX,
        max_retries <= u32::MAX,
        retry_delay <= u64::MAX,
    ensures
        ({
            let course = cycle_actions(tables, relay, worker_interval, max_retries, retry_delay);
            forall|k: int| 0 <= k < course.len() ==> asked_under_lock(#[trigger] course[k])
        }),
{
    let first = cycle_step(
        CycleView::initial(worker_interval, max_retries, retry_delay),
        EventView::Start,
    );
    lemma_course_is_orderly(tables, first.0, first.1, tables, relay);
}

/// A cycle that is switched off never asks for the queue: none of its
/// actions is a fetch, and its last action is the heartbeat that reports
/// success.
pub proof fn lemma_disabled_cycle_never_fetches(
    tables: Tables,
    relay: spec_fn(int, nat) -> Result<(), Seq<char>>,
    worker_interval: nat,
    max_retries: nat,
    retry_delay: nat,
)
    requires
        worker_interval <= u64::MAX,
        max_retries <= u32::MAX,
        retry_delay <= u64::MAX,
        !enabled(tables),
    ensures
        ({
            let course = cycle_actions(tables, relay, worker_interval, max_retries, retry_delay);
            &&& course.len() >= 1
            &&& course.last().0 == heartbeat_of(Ok(()))
            &&& forall|k: int| 0 <= k < course.len() ==> !((#[trigger] course[k]).0 is GetPendingMails)
        }),
{
    let first = cycle_step(
        CycleView::initial(worker_interval, max_retries, retry_delay),
        EventView::Start,
    );
    lemma_course_is_orderly(tables, first.0, first.1, tables, relay);
}

} // verus!
