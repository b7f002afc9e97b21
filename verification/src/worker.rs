//! One processing cycle of the dispatcher, as a state machine.
//!
//! A cycle checks the enable flag, fetches the entries that can be claimed
//! and takes them one at a time: lock, resolve the detail record, resolve the
//! recipient, check the address, deliver with retries, record the status.
//! Then the heartbeat is written, and the cycle ends with the rest that
//! separates it from the next one. The program around the machine performs
//! each action and reports the outcome as the next event.

use vstd::prelude::*;
use vstd::string::*;
use crate::config::Config;
use crate::database::{claimable, lemma_selection_is_exact, pending_rows, select_pending, views};
use crate::mailer::{
    send_accepts,
    send_mail,
    send_step,
    SendAction,
    SendActionView,
    SendEvent,
    SendEventView,
    SendPhase,
    SendState,
    SendStateView,
};
use crate::models::{
    MailList,
    MailListView,
    MailQueue,
    MailQueueView,
    SmtpConfig,
    SmtpConfigView,
    User,
    UserView,
};
use crate::text::{contains_char, same_text};

verus! {

/// An address is usable when it holds both an `@` and a `.`; the empty
/// string holds neither.
pub open spec fn valid_email(email: Seq<char>) -> bool {
    email.contains('@') && email.contains('.')
}

/// Checks a recipient address before a delivery is tried.
pub fn is_valid_email(email: &str) -> (valid: bool)
    ensures
        valid == valid_email(email@),
{
    contains_char(email, '@') && contains_char(email, '.')
}

/// The status that a processed entry ends with.
#[derive(Debug, Clone, Copy, PartialEq, Eq, Structural)]
pub enum MailStatus {
    Sent,
    Failed,
}

impl MailStatus {
    /// How the status is written into the queue table.
    pub open spec fn text(self) -> Seq<char> {
        match self {
            MailStatus::Sent => "sent"@,
            MailStatus::Failed => "failed"@,
        }
    }

    /// The text that is written into the queue table.
    pub fn as_str(&self) -> (text: &'static str)
        ensures
            text@ == self.text(),
    {
        match self {
            MailStatus::Sent => "sent",
            MailStatus::Failed => "failed",
        }
    }
}

/// Where a cycle stands.
#[derive(Debug, Clone, Copy, PartialEq, Eq, Structural)]
pub enum CyclePhase {
    /// Nothing has been asked for yet.
    Idle,
    /// The enable flag has been asked for.
    CheckingEnabled,
    /// The claimable entries have been asked for.
    Fetching,
    /// The lock of the current entry is being written.
    Locking,
    /// The detail record of the current entry has been asked for.
    ResolvingDetail,
    /// The recipient of the current entry has been asked for.
    ResolvingUser,
    /// The current entry is being delivered.
    Sending,
    /// The final status of the current entry is being written.
    Recording,
    /// The heartbeat of the cycle is being written.
    Reporting,
    /// The cycle has ended and the rest before the next one was handed out.
    Finished,
}

/// The state of one cycle.
#[derive(Debug)]
pub struct Cycle {
    /// The seconds to rest between this cycle and the next.
    pub worker_interval: u64,
    /// The most attempts that are made for one entry.
    pub max_retries: u32,
    /// The seconds to wait between two attempts.
    pub retry_delay: u64,
    pub phase: CyclePhase,
    /// The claimed entries of this cycle, in fetch order.
    pub queue: Vec<MailQueue>,
    /// The index in `queue` of the entry that is being processed.
    pub position: usize,
    /// The recipient of the current entry, while it is being delivered.
    pub user: Option<User>,
    /// The retry controller of the current delivery.
    pub send: SendState,
}

/// The mathematical value of a [`Cycle`].
pub struct CycleView {
    pub worker_interval: nat,
    pub max_retries: nat,
    pub retry_delay: nat,
    pub phase: CyclePhase,
    pub queue: Seq<MailQueueView>,
    pub position: nat,
    pub user: Option<UserView>,
    pub send: SendStateView,
}

impl View for Cycle {
    type V = CycleView;

    open spec fn view(&self) -> CycleView {
        CycleView {
            worker_interval: self.worker_interval as nat,
            max_retries: self.max_retries as nat,
            retry_delay: self.retry_delay as nat,
            phase: self.phase,
            queue: views(self.queue@),
            position: self.position as nat,
            user: match self.user {
                Some(user) => Some(user@),
                None => None,
            },
            send: self.send@,
        }
    }
}

/// What the surrounding program reports to the cycle.
#[derive(Debug)]
pub enum Event {
    /// The cycle is to begin.
    Start,
    /// The value of the flag that was asked for.
    Setting(String),
    /// The rows that the queue returned.
    Pending(Vec<MailQueue>),
    /// The write that was asked for has been made.
    Written,
    /// The detail record that was asked for, if there is one.
    MailInfo(Option<MailList>),
    /// The account that was asked for, if there is one.
    UserInfo(Option<User>),
    /// The SMTP parameters, or why they could not be read.
    SmtpConfig(Result<SmtpConfig, String>),
    /// The outcome of the attempt that was asked for.
    Attempted(Result<(), String>),
    /// The delay that was asked for has passed.
    Resumed,
    /// The gateway call that was asked for failed outright.
    GatewayError(String),
}

/// The mathematical value of an [`Event`].
pub enum EventView {
    Start,
    Setting(Seq<char>),
    Pending(Seq<MailQueueView>),
    Written,
    MailInfo(Option<MailListView>),
    UserInfo(Option<UserView>),
    SmtpConfig(Result<SmtpConfigView, Seq<char>>),
    Attempted(Result<(), Seq<char>>),
    Resumed,
    GatewayError(Seq<char>),
}

impl View for Event {
    type V = EventView;

    open spec fn view(&self) -> EventView {
        match self {
            Event::Start => EventView::Start,
            Event::Setting(value) => EventView::Setting(value@),
            Event::Pending(rows) => EventView::Pending(views(rows@)),
            Event::Written => EventView::Written,
            Event::MailInfo(Some(detail)) => EventView::MailInfo(Some(detail@)),
            Event::MailInfo(None) => EventView::MailInfo(None),
            Event::UserInfo(Some(user)) => EventView::UserInfo(Some(user@)),
            Event::UserInfo(None) => EventView::UserInfo(None),
            Event::SmtpConfig(Ok(config)) => EventView::SmtpConfig(Ok(config@)),
            Event::SmtpConfig(Err(cause)) => EventView::SmtpConfig(Err(cause@)),
            Event::Attempted(Ok(_)) => EventView::Attempted(Ok(())),
            Event::Attempted(Err(cause)) => EventView::Attempted(Err(cause@)),
            Event::Resumed => EventView::Resumed,
            Event::GatewayError(cause) => EventView::GatewayError(cause@),
        }
    }
}

/// What the cycle asks the surrounding program to do next.
#[derive(Debug)]
pub enum Action {
    /// Read a flag from the settings store.
    GetSetting { name: String },
    /// Fetch the entries that can be claimed.
    GetPendingMails,
    /// Write the lock of an entry.
    UpdateMailLock { id: i32, locked: bool },
    /// Look up the detail record of an entry.
    GetMailInfo { id: i32 },
    /// Look up an account.
    GetUserByUuid { uuid: String },
    /// Read the SMTP parameters from the settings store.
    GetSmtpConfig,
    /// Make one delivery attempt, the one with the given number.
    Attempt { smtp_config: SmtpConfig, mail: MailQueue, user: User, number: u32 },
    /// Wait for the given number of seconds.
    Sleep { seconds: u64 },
    /// Write status and lock of an entry.
    UpdateMailStatus { id: i32, status: MailStatus, locked: bool },
    /// Write the heartbeat of the cycle.
    MarkTimedTask { task_name: String, success: bool, message: String },
    /// Rest for the given number of seconds; the cycle is over, and the next
    /// one begins after the rest.
    Rest { seconds: u64 },
}

/// The mathematical value of an [`Action`].
pub enum ActionView {
    GetSetting { name: Seq<char> },
    GetPendingMails,
    UpdateMailLock { id: int, locked: bool },
    GetMailInfo { id: int },
    GetUserByUuid { uuid: Seq<char> },
    GetSmtpConfig,
    Attempt { smtp_config: SmtpConfigView, mail: MailQueueView, user: UserView, number: nat },
    Sleep { seconds: nat },
    UpdateMailStatus { id: int, status: MailStatus, locked: bool },
    MarkTimedTask { task_name: Seq<char>, success: bool, message: Seq<char> },
    Rest { seconds: nat },
}

impl View for Action {
    type V = ActionView;

    open spec fn view(&self) -> ActionView {
        match self {
            Action::GetSetting { name } => ActionView::GetSetting { name: name@ },
            Action::GetPendingMails => ActionView::GetPendingMails,
            Action::UpdateMailLock { id, locked } => ActionView::UpdateMailLock {
                id: *id as int,
                locked: *locked,
            },
            Action::GetMailInfo { id } => ActionView::GetMailInfo { id: *id as int },
            Action::GetUserByUuid { uuid } => ActionView::GetUserByUuid { uuid: uuid@ },
            Action::GetSmtpConfig => ActionView::GetSmtpConfig,
            Action::Attempt { smtp_config, mail, user, number } => ActionView::Attempt {
                smtp_config: smtp_config@,
                mail: mail@,
                user: user@,
                number: *number as nat,
            },
            Action::Sleep { seconds } => ActionView::Sleep { seconds: *seconds as nat },
            Action::UpdateMailStatus { id, status, locked } => ActionView::UpdateMailStatus {
                id: *id as int,
                status: *status,
                locked: *locked,
            },
            Action::MarkTimedTask { task_name, success, message } => ActionView::MarkTimedTask {
                task_name: task_name@,
                success: *success,
                message: message@,
            },
            Action::Rest { seconds } => ActionView::Rest { seconds: *seconds as nat },
        }
    }
}

/// The heartbeat of a cycle: a success with a fixed message where the cycle
/// ran through, a failure with the error's text where a gateway call failed.
pub open spec fn heartbeat_of(result: Result<(), Seq<char>>) -> ActionView {
    match result {
        Ok(_) => ActionView::MarkTimedTask {
            task_name: "mail-sender"@,
            success: true,
            message: "Mail sender heartbeat"@,
        },
        Err(cause) => ActionView::MarkTimedTask {
            task_name: "mail-sender"@,
            success: false,
            message: cause,
        },
    }
}

/// The heartbeat to write for a cycle that ended with `result`.
pub fn heartbeat(result: Result<(), String>) -> (action: Action)
    ensures
        action@ == heartbeat_of(
            match result {
                Ok(_) => Ok(()),
                Err(cause) => Err(cause@),
            },
        ),
{
    match result {
        Ok(_) => Action::MarkTimedTask {
            task_name: String::from_str("mail-sender"),
            success: true,
            message: String::from_str("Mail sender heartbeat"),
        },
        Err(cause) => Action::MarkTimedTask {
            task_name: String::from_str("mail-sender"),
            success: false,
            message: cause,
        },
    }
}

impl CycleView {
    /// The state of a cycle before it starts.
    pub open spec fn initial(worker_interval: nat, max_retries: nat, retry_delay: nat) -> CycleView {
        CycleView {
            worker_interval,
            max_retries,
            retry_delay,
            phase: CyclePhase::Idle,
            queue: Seq::empty(),
            position: 0,
            user: None,
            send: SendStateView::initial(max_retries, retry_delay),
        }
    }

    /// Whether an entry is being processed.
    pub open spec fn in_entry(self) -> bool {
        self.phase == CyclePhase::Locking || self.phase == CyclePhase::ResolvingDetail
            || self.phase == CyclePhase::ResolvingUser || self.phase == CyclePhase::Sending
            || self.phase == CyclePhase::Recording
    }

    /// What holds of a state whatever its phase: its counters fit their
    /// machine types and every entry it holds was claimable when it was
    /// fetched.
    pub open spec fn wf_core(self) -> bool {
        &&& self.worker_interval <= u64::MAX
        &&& self.max_retries <= u32::MAX
        &&& self.retry_delay <= u64::MAX
        &&& self.position <= self.queue.len()
        &&& forall|i: int| 0 <= i < self.queue.len() ==> claimable(#[trigger] self.queue[i])
    }

    /// A state is well formed when, beyond that, the current entry exists
    /// while one is being processed, and a delivery under way has a
    /// recipient and a live retry controller with this cycle's policy.
    pub open spec fn wf(self) -> bool {
        &&& self.wf_core()
        &&& self.in_entry() ==> self.position < self.queue.len()
        &&& self.phase == CyclePhase::Sending ==> {
            &&& self.user is Some
            &&& self.send.wf()
            &&& self.send.max_retries == self.max_retries
            &&& self.send.retry_delay == self.retry_delay
            &&& (self.send.phase == SendPhase::LoadingConfig || self.send.phase
                == SendPhase::Attempting || self.send.phase == SendPhase::Pausing)
        }
    }

    /// The entry that is being processed.
    pub open spec fn current(self) -> MailQueueView {
        self.queue[self.position as int]
    }

    /// Ends the processing with the heartbeat for `result`.
    pub open spec fn finish(self, result: Result<(), Seq<char>>) -> (CycleView, ActionView) {
        (CycleView { phase: CyclePhase::Reporting, ..self }, heartbeat_of(result))
    }

    /// Ends the cycle with the rest before the next one.
    pub open spec fn rest(self) -> (CycleView, ActionView) {
        (
            CycleView { phase: CyclePhase::Finished, ..self },
            ActionView::Rest { seconds: self.worker_interval },
        )
    }

    /// Claims the entry at `position` by locking it, or, where no entry is
    /// left, ends the processing with the heartbeat of a success.
    pub open spec fn begin_entry(self) -> (CycleView, ActionView) {
        if self.position < self.queue.len() {
            (
                CycleView { phase: CyclePhase::Locking, ..self },
                ActionView::UpdateMailLock { id: self.current().id, locked: true },
            )
        } else {
            self.finish(Ok(()))
        }
    }

    /// Records the final status of the current entry and releases its lock.
    pub open spec fn record(self, status: MailStatus) -> (CycleView, ActionView) {
        (
            CycleView { phase: CyclePhase::Recording, ..self },
            ActionView::UpdateMailStatus { id: self.current().id, status, locked: false },
        )
    }

    /// Carries on the delivery of the current entry with what the retry
    /// controller decided: its requests are passed on, and its end, in
    /// success or in failure, settles the status of the entry.
    pub open spec fn deliver(self, decided: (SendStateView, SendActionView)) -> (
        CycleView,
        ActionView,
    ) {
        let state = CycleView { send: decided.0, ..self };
        match decided.1 {
            SendActionView::LoadConfig => (state, ActionView::GetSmtpConfig),
            SendActionView::Attempt { smtp_config, number } => (
                state,
                ActionView::Attempt {
                    smtp_config,
                    mail: self.current(),
                    user: self.user->Some_0,
                    number,
                },
            ),
            SendActionView::Pause { seconds } => (state, ActionView::Sleep { seconds }),
            SendActionView::Done(Ok(_)) => state.record(MailStatus::Sent),
            SendActionView::Done(Err(_)) => state.record(MailStatus::Failed),
        }
    }
}

/// The event of the retry controller that an event of the cycle carries.
pub open spec fn send_event_of(event: EventView) -> Option<SendEventView> {
    match event {
        EventView::SmtpConfig(loaded) => Some(SendEventView::ConfigLoaded(loaded)),
        EventView::Attempted(outcome) => Some(SendEventView::Attempted(outcome)),
        EventView::Resumed => Some(SendEventView::Resumed),
        _ => None,
    }
}

/// Whether `event` answers what the cycle in `state` is waiting for. A
/// gateway call can fail outright wherever the cycle waits for the store,
/// the write of the heartbeat included.
pub open spec fn cycle_accepts(state: CycleView, event: EventView) -> bool {
    match (state.phase, event) {
        (CyclePhase::Idle, EventView::Start) => true,
        (CyclePhase::CheckingEnabled, EventView::Setting(_)) => true,
        (CyclePhase::Fetching, EventView::Pending(_)) => true,
        (CyclePhase::Locking, EventView::Written) => true,
        (CyclePhase::ResolvingDetail, EventView::MailInfo(_)) => true,
        (CyclePhase::ResolvingUser, EventView::UserInfo(_)) => true,
        (CyclePhase::Recording, EventView::Written) => true,
        (CyclePhase::Reporting, EventView::Written) => true,
        (CyclePhase::Sending, _) => match send_event_of(event) {
            Some(carried) => send_accepts(state.send, carried),
            None => false,
        },
        (CyclePhase::Idle, EventView::GatewayError(_)) => false,
        (CyclePhase::Finished, EventView::GatewayError(_)) => false,
        (_, EventView::GatewayError(_)) => true,
        _ => false,
    }
}

/// One cycle as a function from state and event to the next state and the
/// next action.
///
/// Unless the flag `smtp_enabled` reads exactly `true`, the cycle ends at
/// once, in success and without fetching. Of the rows that the queue hands
/// back only the claimable ones are taken, in their order. Each is locked,
/// then its detail record is looked up by the entry's identifier, then the
/// account that the detail names; a missing record, a missing account or an
/// unusable address marks the entry as failed. Otherwise the entry is
/// delivered under the retry controller and marked as sent or as failed by
/// how the delivery ended. Every final status releases the lock. A gateway
/// call that fails outright ends the cycle with a failed heartbeat that
/// carries the error's text; a failed delivery never does. Once the
/// heartbeat is written, or could not be written, the cycle ends by asking
/// for a rest of `worker_interval` seconds, after which the next cycle
/// begins.
pub open spec fn cycle_step(state: CycleView, event: EventView) -> (CycleView, ActionView) {
    match (state.phase, event) {
        (CyclePhase::Idle, EventView::Start) => (
            CycleView {
                phase: CyclePhase::CheckingEnabled,
                queue: Seq::empty(),
                position: 0,
                user: None,
                ..state
            },
            ActionView::GetSetting { name: "smtp_enabled"@ },
        ),
        (CyclePhase::CheckingEnabled, EventView::Setting(value)) => if value == "true"@ {
            (CycleView { phase: CyclePhase::Fetching, ..state }, ActionView::GetPendingMails)
        } else {
            state.finish(Ok(()))
        },
        (CyclePhase::Fetching, EventView::Pending(rows)) => (CycleView {
            queue: pending_rows(rows),
            position: 0,
            ..state
        }).begin_entry(),
        (CyclePhase::Locking, EventView::Written) => (
            CycleView { phase: CyclePhase::ResolvingDetail, ..state },
            ActionView::GetMailInfo { id: state.current().id },
        ),
        (CyclePhase::ResolvingDetail, EventView::MailInfo(None)) => state.record(
            MailStatus::Failed,
        ),
        (CyclePhase::ResolvingDetail, EventView::MailInfo(Some(detail))) => (
            CycleView { phase: CyclePhase::ResolvingUser, ..state },
            ActionView::GetUserByUuid { uuid: detail.user_uuid },
        ),
        (CyclePhase::ResolvingUser, EventView::UserInfo(None)) => state.record(MailStatus::Failed),
        (CyclePhase::ResolvingUser, EventView::UserInfo(Some(user))) => if valid_email(
            user.email,
        ) {
            (CycleView { phase: CyclePhase::Sending, user: Some(user), ..state }).deliver(
                send_step(
                    SendStateView::initial(state.max_retries, state.retry_delay),
                    SendEventView::Start,
                ),
            )
        } else {
            state.record(MailStatus::Failed)
        },
        (CyclePhase::Sending, EventView::SmtpConfig(loaded)) => state.deliver(
            send_step(state.send, SendEventView::ConfigLoaded(loaded)),
        ),
        (CyclePhase::Sending, EventView::Attempted(outcome)) => state.deliver(
            send_step(state.send, SendEventView::Attempted(outcome)),
        ),
        (CyclePhase::Sending, EventView::Resumed) => state.deliver(
            send_step(state.send, SendEventView::Resumed),
        ),
        (CyclePhase::Recording, EventView::Written) => (CycleView {
            position: state.position + 1,
            user: None,
            ..state
        }).begin_entry(),
        (CyclePhase::Reporting, EventView::Written) => state.rest(),
        (CyclePhase::Reporting, EventView::GatewayError(_)) => state.rest(),
        (_, EventView::GatewayError(cause)) => state.finish(Err(cause)),
        _ => state.rest(),
    }
}

impl Cycle {
    /// A cycle that has not started, with the interval and the retry policy
    /// of the worker.
    pub fn new(config: &Config) -> (cycle: Cycle)
        ensures
            cycle@ == CycleView::initial(
                config@.worker_interval,
                config@.max_retries,
                config@.retry_delay,
            ),
            cycle@.wf(),
    {
        let cycle = Cycle {
            worker_interval: config.worker_interval,
            max_retries: config.max_retries,
            retry_delay: config.retry_delay,
            phase: CyclePhase::Idle,
            queue: Vec::new(),
            position: 0,
            user: None,
            send: SendState::new(config.max_retries, config.retry_delay),
        };
        assert(cycle@.queue =~= Seq::empty());
        cycle
    }

    /// Whether this state is well formed, as every state is that the cycle
    /// itself has handed out.
    pub fn is_well_formed(&self) -> (ok: bool)
        ensures
            ok == self@.wf(),
    {
        if self.position > self.queue.len() {
            return false;
        }
        let mut i: usize = 0;
        while i < self.queue.len()
            invariant
                i <= self.queue.len(),
                forall|j: int| 0 <= j < i ==> claimable(#[trigger] self@.queue[j]),
            decreases self.queue.len() - i,
        {
            if !self.queue[i].is_claimable() {
                assert(!claimable(self@.queue[i as int]));
                return false;
            }
            i += 1;
        }
        let busy = match self.phase {
            CyclePhase::Locking => true,
            CyclePhase::ResolvingDetail => true,
            CyclePhase::ResolvingUser => true,
            CyclePhase::Sending => true,
            CyclePhase::Recording => true,
            _ => false,
        };
        if busy && self.position >= self.queue.len() {
            return false;
        }
        if self.phase == CyclePhase::Sending {
            let live = self.send.phase == SendPhase::LoadingConfig || self.send.phase
                == SendPhase::Attempting || self.send.phase == SendPhase::Pausing;
            self.user.is_some() && self.send.is_well_formed() && self.send.max_retries
                == self.max_retries && self.send.retry_delay == self.retry_delay && live
        } else {
            true
        }
    }

    /// Whether `event` answers what this cycle is waiting for.
    pub fn accepts(&self, event: &Event) -> (accepted: bool)
        ensures
            accepted == cycle_accepts(self@, event@),
    {
        match (self.phase, event) {
            (CyclePhase::Idle, Event::Start) => true,
            (CyclePhase::CheckingEnabled, Event::Setting(_)) => true,
            (CyclePhase::Fetching, Event::Pending(_)) => true,
            (CyclePhase::Locking, Event::Written) => true,
            (CyclePhase::ResolvingDetail, Event::MailInfo(_)) => true,
            (CyclePhase::ResolvingUser, Event::UserInfo(_)) => true,
            (CyclePhase::Recording, Event::Written) => true,
            (CyclePhase::Reporting, Event::Written) => true,
            (CyclePhase::Sending, Event::SmtpConfig(_)) => self.send.phase
                == SendPhase::LoadingConfig,
            (CyclePhase::Sending, Event::Attempted(_)) => self.send.phase == SendPhase::Attempting,
            (CyclePhase::Sending, Event::Resumed) => self.send.phase == SendPhase::Pausing,
            (CyclePhase::Sending, _) => false,
            (CyclePhase::Idle, Event::GatewayError(_)) => false,
            (CyclePhase::Finished, Event::GatewayError(_)) => false,
            (_, Event::GatewayError(_)) => true,
            _ => false,
        }
    }

    /// Whether the cycle has ended.
    pub fn is_finished(&self) -> (finished: bool)
        ensures
            finished == (self@.phase == CyclePhase::Finished),
    {
        self.phase == CyclePhase::Finished
    }

    fn finish(self, result: Result<(), String>) -> (next: (Cycle, Action))
        requires
            self@.wf_core(),
        ensures
            (next.0@, next.1@) == self@.finish(
                match result {
                    Ok(_) => Ok(()),
                    Err(cause) => Err(cause@),
                },
            ),
            next.0@.wf(),
    {
        let mut state = self;
        state.phase = CyclePhase::Reporting;
        (state, heartbeat(result))
    }

    fn rest(self) -> (next: (Cycle, Action))
        requires
            self@.wf_core(),
        ensures
            (next.0@, next.1@) == self@.rest(),
            next.0@.wf(),
    {
        let mut state = self;
        let seconds = state.worker_interval;
        state.phase = CyclePhase::Finished;
        (state, Action::Rest { seconds })
    }

    fn begin_entry(self) -> (next: (Cycle, Action))
        requires
            self@.wf_core(),
        ensures
            (next.0@, next.1@) == self@.begin_entry(),
            next.0@.wf(),
    {
        if self.position < self.queue.len() {
            let mut state = self;
            let id = state.queue[state.position].id;
            state.phase = CyclePhase::Locking;
            (state, Action::UpdateMailLock { id, locked: true })
        } else {
            self.finish(Ok(()))
        }
    }

    fn record(self, status: MailStatus) -> (next: (Cycle, Action))
        requires
            self@.wf_core(),
            self@.position < self@.queue.len(),
        ensures
            (next.0@, next.1@) == self@.record(status),
            next.0@.wf(),
    {
        let mut state = self;
        let id = state.queue[state.position].id;
        state.phase = CyclePhase::Recording;
        (state, Action::UpdateMailStatus { id, status, locked: false })
    }

    fn deliver(self, recipient: User, decided: (SendState, SendAction)) -> (next: (Cycle, Action))
        requires
            self@.wf_core(),
            self@.position < self@.queue.len(),
            decided.0@.wf(),
            decided.0@.max_retries == self@.max_retries,
            decided.0@.retry_delay == self@.retry_delay,
            decided.1@ is Done || decided.0@.phase == SendPhase::LoadingConfig || decided.0@.phase
                == SendPhase::Attempting || decided.0@.phase == SendPhase::Pausing,
        ensures
            (next.0@, next.1@) == (CycleView {
                phase: CyclePhase::Sending,
                user: Some(recipient@),
                ..self@
            }).deliver((decided.0@, decided.1@)),
            next.0@.wf(),
    {
        let mut state = self;
        let to = recipient.clone();
        state.phase = CyclePhase::Sending;
        state.send = decided.0;
        state.user = Some(recipient);
        match decided.1 {
            SendAction::LoadConfig => (state, Action::GetSmtpConfig),
            SendAction::Attempt { smtp_config, number } => {
                let mail = state.queue[state.position].clone();
                (state, Action::Attempt { smtp_config, mail, user: to, number })
            },
            SendAction::Pause { seconds } => (state, Action::Sleep { seconds }),
            SendAction::Done(Ok(_)) => state.record(MailStatus::Sent),
            SendAction::Done(Err(_)) => state.record(MailStatus::Failed),
        }
    }

    fn carry_on(self, event: SendEvent) -> (next: (Cycle, Action))
        requires
            self@.wf(),
            self@.phase == CyclePhase::Sending,
            send_accepts(self@.send, event@),
        ensures
            (next.0@, next.1@) == self@.deliver(send_step(self@.send, event@)),
            next.0@.wf(),
    {
        let mut state = self;
        let mut controller = SendState::new(state.max_retries, state.retry_delay);
        core::mem::swap(&mut state.send, &mut controller);
        let decided = send_mail(controller, event);
        let user = state.user.take();
        match user {
            Some(recipient) => state.deliver(recipient, decided),
            None => {
                proof {
                    assert(false);
                }
                state.rest()
            },
        }
    }
}

/// Advances a cycle by one event. The program around it performs the action
/// that comes back and reports the outcome as the next event, until the
/// action is the rest, which ends the cycle.
pub fn process_mail_queue(state: Cycle, event: Event) -> (next: (Cycle, Action))
    requires
        state@.wf(),
        cycle_accepts(state@, event@),
    ensures
        (next.0@, next.1@) == cycle_step(state@, event@),
        next.0@.wf(),
{
    let mut state = state;
    match event {
        Event::Start => {
            state.phase = CyclePhase::CheckingEnabled;
            state.queue = Vec::new();
            state.position = 0;
            state.user = None;
            assert(state@.queue =~= Seq::empty());
            (state, Action::GetSetting { name: String::from_str("smtp_enabled") })
        },
        Event::Setting(value) => {
            if same_text(value.as_str(), "true") {
                state.phase = CyclePhase::Fetching;
                (state, Action::GetPendingMails)
            } else {
                state.finish(Ok(()))
            }
        },
        Event::Pending(rows) => {
            let claimed = select_pending(&rows);
            proof {
                let all = views(rows@);
                lemma_selection_is_exact(all);
                assert forall|i: int| 0 <= i < views(claimed@).len() implies claimable(
                    #[trigger] views(claimed@)[i],
                ) by {
                    assert(pending_rows(all).contains(views(claimed@)[i]));
                }
            }
            state.queue = claimed;
            state.position = 0;
            state.begin_entry()
        },
        Event::Written => {
            if state.phase == CyclePhase::Locking {
                let id = state.queue[state.position].id;
                state.phase = CyclePhase::ResolvingDetail;
                (state, Action::GetMailInfo { id })
            } else if state.phase == CyclePhase::Recording {
                let total = state.queue.len();
                assert(state.position < total);
                state.position = state.position + 1;
                state.user = None;
                state.begin_entry()
            } else {
                state.rest()
            }
        },
        Event::MailInfo(None) => state.record(MailStatus::Failed),
        Event::MailInfo(Some(detail)) => {
            state.phase = CyclePhase::ResolvingUser;
            (state, Action::GetUserByUuid { uuid: detail.user_uuid })
        },
        Event::UserInfo(None) => state.record(MailStatus::Failed),
        Event::UserInfo(Some(recipient)) => {
            if is_valid_email(recipient.email.as_str()) {
                let decided = send_mail(
                    SendState::new(state.max_retries, state.retry_delay),
                    SendEvent::Start,
                );
                state.deliver(recipient, decided)
            } else {
                state.record(MailStatus::Failed)
            }
        },
        Event::SmtpConfig(loaded) => state.carry_on(SendEvent::ConfigLoaded(loaded)),
        Event::Attempted(outcome) => state.carry_on(SendEvent::Attempted(outcome)),
        Event::Resumed => state.carry_on(SendEvent::Resumed),
        Event::GatewayError(cause) => {
            if state.phase == CyclePhase::Reporting {
                state.rest()
            } else {
                state.finish(Err(cause))
            }
        },
    }
}

/// Advances a cycle by one event where that can be done: `state` must be
/// well formed and `event` must be what it is waiting for. Otherwise both
/// are handed back untouched.
pub fn advance(state: Cycle, event: Event) -> (next: Result<(Cycle, Action), (Cycle, Event)>)
    ensures
        match next {
            Ok(stepped) => state@.wf() && cycle_accepts(state@, event@) && (
                stepped.0@,
                stepped.1@,
            ) == cycle_step(state@, event@) && stepped.0@.wf(),
            Err(refused) => !(state@.wf() && cycle_accepts(state@, event@)) && refused.0 == state
                && refused.1 == event,
        },
{
    if state.is_well_formed() && state.accepts(&event) {
        Ok(process_mail_queue(state, event))
    } else {
        Err((state, event))
    }
}

} // verus!
