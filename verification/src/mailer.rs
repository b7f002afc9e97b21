//! The SMTP sender: what is checked before a delivery, what one message is
//! built from, which transport carries it, and how failed attempts are
//! retried.

use vstd::prelude::*;
use vstd::string::*;
use crate::letter::{
    build_letter,
    build_rejection,
    html_content,
    mailbox_rejection,
    read_mailbox,
    Draft,
    DraftView,
    Letter,
};
use crate::models::{MailQueue, MailQueueView, SmtpConfig, SmtpConfigView, User, UserView};
use crate::text::{append_decimal, ascii_lowercase, decimal_digits, lowercase_equals};

verus! {

/// How the connection to the relay is secured.
#[derive(Debug, Clone, Copy, PartialEq, Eq, Structural)]
pub enum Transport {
    /// A plain connection that is upgraded with STARTTLS.
    StartTls,
    /// A connection that is wrapped in TLS from the first byte.
    ImplicitTls,
}

/// Why a delivery, or one attempt of it, failed.
#[derive(Debug, Clone, Copy, PartialEq, Eq, Structural)]
pub enum SendFailure {
    HostNotSet,
    UserNotSet,
    FromNotSet,
    EncryptionNotSet,
    InvalidFrom,
    InvalidReplyTo,
    InvalidTo,
    BuildFailed,
    InvalidEncryption,
    TransportFailed,
    RelayRejected,
}

/// A failure together with its cause: the text of the underlying error, or
/// the offending value. The four missing-parameter failures have no cause.
#[derive(Debug)]
pub struct SendError {
    pub kind: SendFailure,
    pub detail: String,
}

impl View for SendError {
    type V = (SendFailure, Seq<char>);

    open spec fn view(&self) -> (SendFailure, Seq<char>) {
        (self.kind, self.detail@)
    }
}

/// The words that introduce a failure of the given kind.
pub open spec fn failure_prefix(kind: SendFailure) -> Seq<char> {
    match kind {
        SendFailure::HostNotSet => "SMTP host is not set"@,
        SendFailure::UserNotSet => "SMTP user is not set"@,
        SendFailure::FromNotSet => "SMTP from is not set"@,
        SendFailure::EncryptionNotSet => "SMTP encryption is not set"@,
        SendFailure::InvalidFrom => "Invalid from address: "@,
        SendFailure::InvalidReplyTo => "Invalid reply-to address: "@,
        SendFailure::InvalidTo => "Invalid to address: "@,
        SendFailure::BuildFailed => "Failed to build email: "@,
        SendFailure::InvalidEncryption => "Invalid SMTP encryption type: "@,
        SendFailure::TransportFailed => "Failed to create SMTP transport: "@,
        SendFailure::RelayRejected => "Failed to send email: "@,
    }
}

/// The human-readable text of a failure: its introduction, then its cause.
pub open spec fn failure_text(error: (SendFailure, Seq<char>)) -> Seq<char> {
    failure_prefix(error.0) + error.1
}

fn prefix_of(kind: SendFailure) -> (prefix: &'static str)
    ensures
        prefix@ == failure_prefix(kind),
{
    match kind {
        SendFailure::HostNotSet => "SMTP host is not set",
        SendFailure::UserNotSet => "SMTP user is not set",
        SendFailure::FromNotSet => "SMTP from is not set",
        SendFailure::EncryptionNotSet => "SMTP encryption is not set",
        SendFailure::InvalidFrom => "Invalid from address: ",
        SendFailure::InvalidReplyTo => "Invalid reply-to address: ",
        SendFailure::InvalidTo => "Invalid to address: ",
        SendFailure::BuildFailed => "Failed to build email: ",
        SendFailure::InvalidEncryption => "Invalid SMTP encryption type: ",
        SendFailure::TransportFailed => "Failed to create SMTP transport: ",
        SendFailure::RelayRejected => "Failed to send email: ",
    }
}

impl SendError {
    /// A failure of the given kind with the given cause.
    pub fn new(kind: SendFailure, detail: String) -> (error: SendError)
        ensures
            error.kind == kind,
            error.detail == detail,
    {
        SendError { kind, detail }
    }

    /// The human-readable text of the failure.
    pub fn message(&self) -> (text: String)
        ensures
            text@ == failure_text(self@),
    {
        let mut text = String::from_str(prefix_of(self.kind));
        text.append(self.detail.as_str());
        text
    }
}

/// The first SMTP parameter that is missing, in the order host, user,
/// from-address, encryption mode; `None` when all four are set.
pub open spec fn config_defect(config: SmtpConfigView) -> Option<SendFailure> {
    if config.host.len() == 0 {
        Some(SendFailure::HostNotSet)
    } else if config.user.len() == 0 {
        Some(SendFailure::UserNotSet)
    } else if config.from.len() == 0 {
        Some(SendFailure::FromNotSet)
    } else if config.encryption.len() == 0 {
        Some(SendFailure::EncryptionNotSet)
    } else {
        None
    }
}

/// Checks the SMTP parameters that every delivery needs. This is done once
/// per delivery, before the first attempt.
pub fn check_smtp_config(config: &SmtpConfig) -> (checked: Result<(), SendError>)
    ensures
        match checked {
            Ok(_) => config_defect(config@) is None,
            Err(error) => config_defect(config@) == Some(error.kind) && error.detail@.len() == 0,
        },
{
    if config.host.as_str().is_empty() {
        Err(SendError::new(SendFailure::HostNotSet, String::new()))
    } else if config.user.as_str().is_empty() {
        Err(SendError::new(SendFailure::UserNotSet, String::new()))
    } else if config.from.as_str().is_empty() {
        Err(SendError::new(SendFailure::FromNotSet, String::new()))
    } else if config.encryption.as_str().is_empty() {
        Err(SendError::new(SendFailure::EncryptionNotSet, String::new()))
    } else {
        Ok(())
    }
}

/// The transport that an encryption mode selects, whatever the case of its
/// letters: `tls` and `starttls` upgrade a plain connection, `ssl` wraps the
/// connection from the start, and nothing else is a mode.
pub open spec fn transport_for(encryption: Seq<char>) -> Option<Transport> {
    let mode = ascii_lowercase(encryption);
    if mode == "tls"@ || mode == "starttls"@ {
        Some(Transport::StartTls)
    } else if mode == "ssl"@ {
        Some(Transport::ImplicitTls)
    } else {
        None
    }
}

/// Selects the transport for an encryption mode. An unknown mode fails at
/// once, with the mode as the cause, before anything is sent.
pub fn select_transport(encryption: &str) -> (selected: Result<Transport, SendError>)
    ensures
        match selected {
            Ok(transport) => transport_for(encryption@) == Some(transport),
            Err(error) => transport_for(encryption@) is None && error@ == (
                SendFailure::InvalidEncryption,
                encryption@,
            ),
        },
{
    if lowercase_equals(encryption, "tls") || lowercase_equals(encryption, "starttls") {
        Ok(Transport::StartTls)
    } else if lowercase_equals(encryption, "ssl") {
        Ok(Transport::ImplicitTls)
    } else {
        Err(SendError::new(SendFailure::InvalidEncryption, String::from_str(encryption)))
    }
}

/// The text of the From and Reply-To headers: the application's display
/// name, then the from-address in angle brackets.
pub open spec fn sender_text(config: SmtpConfigView) -> Seq<char> {
    config.app_name + " <"@ + config.from + ">"@
}

/// Writes the From and Reply-To header text for the given parameters.
pub fn sender_header(config: &SmtpConfig) -> (text: String)
    ensures
        text@ == sender_text(config@),
{
    let mut text = config.app_name.clone();
    text.append(" <");
    text.append(config.from.as_str());
    text.append(">");
    text
}

/// The draft of the message for `mail` to `user`: From and Reply-To are
/// both the application's name with the from-address, To is the user's
/// address as it stands, subject and body are those of the queue entry,
/// copied verbatim, and the body is HTML.
pub open spec fn draft_for(config: SmtpConfigView, mail: MailQueueView, user: UserView) -> DraftView {
    DraftView {
        from: sender_text(config),
        reply_to: sender_text(config),
        to: user.email,
        subject: mail.subject,
        body: mail.body,
        html: true,
    }
}

/// Writes the draft of the message for `mail` to `user`.
pub fn compose(smtp_config: &SmtpConfig, mail: &MailQueue, user: &User) -> (draft: Draft)
    ensures
        draft@ == draft_for(smtp_config@, mail@, user@),
{
    Draft {
        from: sender_header(smtp_config),
        reply_to: sender_header(smtp_config),
        to: user.email.clone(),
        subject: mail.subject.clone(),
        body: mail.body.clone(),
        html: true,
    }
}

/// The seconds after which an unanswered send is given up.
pub const SEND_TIMEOUT_SECONDS: u64 = 30;

/// One message ready to be handed to the relay, with everything the
/// transport needs.
#[derive(Debug)]
pub struct Outgoing {
    pub letter: Letter,
    pub transport: Transport,
    pub host: String,
    pub port: u16,
    pub user: String,
    pub password: String,
    pub timeout_seconds: u64,
}

/// Whether `outgoing` carries `letter` to the relay that `config` names:
/// over the transport that the encryption mode selects, to the configured
/// host and port, with the configured credentials and the fixed timeout.
pub open spec fn carries(outgoing: Outgoing, letter: Letter, config: SmtpConfigView) -> bool {
    &&& outgoing.letter == letter
    &&& Some(outgoing.transport) == transport_for(config.encryption)
    &&& outgoing.host@ == config.host
    &&& outgoing.port == config.port
    &&& outgoing.user@ == config.user
    &&& outgoing.password@ == config.password
    &&& outgoing.timeout_seconds == SEND_TIMEOUT_SECONDS
}

/// Completes one attempt once the message has been built, or has failed to
/// be: a build failure is reported with its cause; otherwise the encryption
/// mode selects the transport, and an unknown mode fails.
pub fn finish_attempt(built: Result<Letter, String>, smtp_config: &SmtpConfig) -> (prepared: Result<
    Outgoing,
    SendError,
>)
    ensures
        match built {
            Err(cause) => prepared matches Err(error) && error@ == (
                SendFailure::BuildFailed,
                cause@,
            ),
            Ok(letter) => match transport_for(smtp_config@.encryption) {
                None => prepared matches Err(error) && error@ == (
                    SendFailure::InvalidEncryption,
                    smtp_config@.encryption,
                ),
                Some(_) => prepared matches Ok(outgoing) && carries(outgoing, letter, smtp_config@),
            },
        },
{
    match built {
        Err(cause) => Err(SendError::new(SendFailure::BuildFailed, cause)),
        Ok(letter) => match select_transport(smtp_config.encryption.as_str()) {
            Err(error) => Err(error),
            Ok(transport) => Ok(
                Outgoing {
                    letter,
                    transport,
                    host: smtp_config.host.clone(),
                    port: smtp_config.port,
                    user: smtp_config.user.clone(),
                    password: smtp_config.password.clone(),
                    timeout_seconds: SEND_TIMEOUT_SECONDS,
                },
            ),
        },
    }
}

/// Prepares one delivery attempt: the message for `mail`, addressed to
/// `user`, and the transport that `smtp_config` selects.
///
/// The message is built from the draft that [`draft_for`] describes, with
/// the body sent as HTML. The sender is read first, then the recipient; a
/// mailbox that `lettre` refuses fails the attempt with the parser's words.
/// Reply-To is the same text as From, so it is never the one refused. Then
/// the builder decides; if it refuses the draft, the attempt fails with its
/// words. Last, the encryption mode selects the transport, and an unknown
/// mode fails the attempt. A message that comes back was built from exactly
/// that draft: each mailbox from the text of its own header, subject and
/// body in their places.
pub fn try_send_mail(smtp_config: &SmtpConfig, mail: &MailQueue, user: &User) -> (prepared: Result<
    Outgoing,
    SendError,
>)
    ensures
        match mailbox_rejection(sender_text(smtp_config@)) {
            Some(cause) => prepared matches Err(error) && error@ == (
                SendFailure::InvalidFrom,
                cause,
            ),
            None => match mailbox_rejection(user@.email) {
                Some(cause) => prepared matches Err(error) && error@ == (
                    SendFailure::InvalidTo,
                    cause,
                ),
                None => match build_rejection(draft_for(smtp_config@, mail@, user@)) {
                    Some(cause) => prepared matches Err(error) && error@ == (
                        SendFailure::BuildFailed,
                        cause,
                    ),
                    None => match transport_for(smtp_config@.encryption) {
                        None => prepared matches Err(error) && error@ == (
                            SendFailure::InvalidEncryption,
                            smtp_config@.encryption,
                        ),
                        Some(_) => prepared matches Ok(outgoing) && outgoing.letter@ == draft_for(
                            smtp_config@,
                            mail@,
                            user@,
                        ) && carries(outgoing, outgoing.letter, smtp_config@),
                    },
                },
            },
        },
{
    let draft = compose(smtp_config, mail, user);
    let from = match read_mailbox(draft.from.as_str()) {
        Ok(mailbox) => mailbox,
        Err(cause) => {
            return Err(SendError::new(SendFailure::InvalidFrom, cause));
        },
    };
    let reply_to = match read_mailbox(draft.reply_to.as_str()) {
        Ok(mailbox) => mailbox,
        Err(cause) => {
            return Err(SendError::new(SendFailure::InvalidReplyTo, cause));
        },
    };
    let to = match read_mailbox(draft.to.as_str()) {
        Ok(mailbox) => mailbox,
        Err(cause) => {
            return Err(SendError::new(SendFailure::InvalidTo, cause));
        },
    };
    let built = build_letter(draft, from, reply_to, to, html_content());
    finish_attempt(built, smtp_config)
}

/// Where a delivery stands.
#[derive(Debug, Clone, Copy, PartialEq, Eq, Structural)]
pub enum SendPhase {
    /// Nothing has been asked for yet.
    Idle,
    /// The SMTP parameters have been asked for.
    LoadingConfig,
    /// An attempt is under way.
    Attempting,
    /// The delay between two attempts is running.
    Pausing,
    /// The delivery has ended.
    Finished,
}

/// The retry controller of one delivery.
#[derive(Debug)]
pub struct SendState {
    /// The most attempts that are made.
    pub max_retries: u32,
    /// The seconds to wait between a failed attempt and the next.
    pub retry_delay: u64,
    /// The attempts started so far.
    pub attempt: u32,
    pub phase: SendPhase,
    /// The parameters of this delivery, once they are loaded and checked.
    pub smtp_config: Option<SmtpConfig>,
}

/// The mathematical value of a [`SendState`].
pub struct SendStateView {
    pub max_retries: nat,
    pub retry_delay: nat,
    pub attempt: nat,
    pub phase: SendPhase,
    pub smtp_config: Option<SmtpConfigView>,
}

impl View for SendState {
    type V = SendStateView;

    open spec fn view(&self) -> SendStateView {
        SendStateView {
            max_retries: self.max_retries as nat,
            retry_delay: self.retry_delay as nat,
            attempt: self.attempt as nat,
            phase: self.phase,
            smtp_config: match self.smtp_config {
                Some(config) => Some(config@),
                None => None,
            },
        }
    }
}

impl SendStateView {
    /// The state of a delivery before it starts.
    pub open spec fn initial(max_retries: nat, retry_delay: nat) -> SendStateView {
        SendStateView {
            max_retries,
            retry_delay,
            attempt: 0,
            phase: SendPhase::Idle,
            smtp_config: None,
        }
    }

    /// A state is well formed when its counters fit their machine types, no
    /// more attempts were started than are allowed, an attempt or a pause has
    /// parameters to go on, and a pause is followed by a further attempt.
    pub open spec fn wf(self) -> bool {
        &&& self.max_retries <= u32::MAX
        &&& self.retry_delay <= u64::MAX
        &&& self.attempt <= self.max_retries
        &&& (self.phase == SendPhase::Attempting || self.phase == SendPhase::Pausing) ==> (
        self.smtp_config is Some && self.attempt >= 1)
        &&& self.phase == SendPhase::Pausing ==> self.attempt < self.max_retries
    }

    /// This state with the delivery ended.
    pub open spec fn finished(self) -> SendStateView {
        SendStateView { phase: SendPhase::Finished, ..self }
    }
}

/// What the surrounding program reports to the retry controller.
#[derive(Debug)]
pub enum SendEvent {
    /// The delivery is to begin.
    Start,
    /// The SMTP parameters were read, or reading them failed.
    ConfigLoaded(Result<SmtpConfig, String>),
    /// The attempt that was asked for succeeded, or failed with a cause.
    Attempted(Result<(), String>),
    /// The delay that was asked for has passed.
    Resumed,
}

/// The mathematical value of a [`SendEvent`].
pub enum SendEventView {
    Start,
    ConfigLoaded(Result<SmtpConfigView, Seq<char>>),
    Attempted(Result<(), Seq<char>>),
    Resumed,
}

impl View for SendEvent {
    type V = SendEventView;

    open spec fn view(&self) -> SendEventView {
        match self {
            SendEvent::Start => SendEventView::Start,
            SendEvent::ConfigLoaded(Ok(config)) => SendEventView::ConfigLoaded(Ok(config@)),
            SendEvent::ConfigLoaded(Err(cause)) => SendEventView::ConfigLoaded(Err(cause@)),
            SendEvent::Attempted(Ok(_)) => SendEventView::Attempted(Ok(())),
            SendEvent::Attempted(Err(cause)) => SendEventView::Attempted(Err(cause@)),
            SendEvent::Resumed => SendEventView::Resumed,
        }
    }
}

/// What the retry controller asks the surrounding program to do next.
#[derive(Debug)]
pub enum SendAction {
    /// Read the SMTP parameters from the settings store.
    LoadConfig,
    /// Make the attempt with the given number, counted from one.
    Attempt { smtp_config: SmtpConfig, number: u32 },
    /// Wait for the given number of seconds.
    Pause { seconds: u64 },
    /// The delivery has ended, in success or with the given failure.
    Done(Result<(), String>),
}

/// The mathematical value of a [`SendAction`].
pub enum SendActionView {
    LoadConfig,
    Attempt { smtp_config: SmtpConfigView, number: nat },
    Pause { seconds: nat },
    Done(Result<(), Seq<char>>),
}

impl View for SendAction {
    type V = SendActionView;

    open spec fn view(&self) -> SendActionView {
        match self {
            SendAction::LoadConfig => SendActionView::LoadConfig,
            SendAction::Attempt { smtp_config, number } => SendActionView::Attempt {
                smtp_config: smtp_config@,
                number: *number as nat,
            },
            SendAction::Pause { seconds } => SendActionView::Pause { seconds: *seconds as nat },
            SendAction::Done(Ok(_)) => SendActionView::Done(Ok(())),
            SendAction::Done(Err(cause)) => SendActionView::Done(Err(cause@)),
        }
    }
}

/// The failure that is reported once every allowed attempt has failed: it
/// names the number of attempts and ends with the cause of the last one.
pub open spec fn exhausted_text(max_retries: nat, last_cause: Seq<char>) -> Seq<char> {
    "Failed to send mail after "@ + decimal_digits(max_retries) + " attempts: "@ + last_cause
}

fn exhausted_message(max_retries: u32, last_cause: &str) -> (text: String)
    ensures
        text@ == exhausted_text(max_retries as nat, last_cause@),
{
    let mut text = String::from_str("Failed to send mail after ");
    append_decimal(&mut text, max_retries as u64);
    text.append(" attempts: ");
    text.append(last_cause);
    text
}

/// Whether `event` answers what the controller in `state` is waiting for.
pub open spec fn send_accepts(state: SendStateView, event: SendEventView) -> bool {
    match (state.phase, event) {
        (SendPhase::Idle, SendEventView::Start) => true,
        (SendPhase::LoadingConfig, SendEventView::ConfigLoaded(_)) => true,
        (SendPhase::Attempting, SendEventView::Attempted(_)) => true,
        (SendPhase::Pausing, SendEventView::Resumed) => true,
        _ => false,
    }
}

/// The retry policy as a function from state and event to the next state and
/// the next action.
///
/// A delivery first loads the SMTP parameters. If they cannot be read, or one
/// of the four needed parameters is missing, it ends in failure without an
/// attempt. Otherwise attempts are made until one succeeds or `max_retries`
/// of them have failed; after a failed attempt that is not the last, the
/// controller pauses for `retry_delay` seconds. Which kind of error an
/// attempt failed with makes no difference.
pub open spec fn send_step(state: SendStateView, event: SendEventView) -> (
    SendStateView,
    SendActionView,
) {
    match (state.phase, event) {
        (SendPhase::Idle, SendEventView::Start) => (
            SendStateView {
                attempt: 0,
                phase: SendPhase::LoadingConfig,
                smtp_config: None,
                ..state
            },
            SendActionView::LoadConfig,
        ),
        (SendPhase::LoadingConfig, SendEventView::ConfigLoaded(Err(cause))) => (
            state.finished(),
            SendActionView::Done(Err(cause)),
        ),
        (SendPhase::LoadingConfig, SendEventView::ConfigLoaded(Ok(config))) => match config_defect(
            config,
        ) {
            Some(kind) => (
                state.finished(),
                SendActionView::Done(Err(failure_text((kind, Seq::empty())))),
            ),
            None => if state.max_retries == 0 {
                (state.finished(), SendActionView::Done(Err(exhausted_text(0, Seq::empty()))))
            } else {
                (
                    SendStateView {
                        attempt: 1,
                        phase: SendPhase::Attempting,
                        smtp_config: Some(config),
                        ..state
                    },
                    SendActionView::Attempt { smtp_config: config, number: 1 },
                )
            },
        },
        (SendPhase::Attempting, SendEventView::Attempted(Ok(_))) => (
            state.finished(),
            SendActionView::Done(Ok(())),
        ),
        (SendPhase::Attempting, SendEventView::Attempted(Err(cause))) => if state.attempt
            < state.max_retries {
            (
                SendStateView { phase: SendPhase::Pausing, ..state },
                SendActionView::Pause { seconds: state.retry_delay },
            )
        } else {
            (
                state.finished(),
                SendActionView::Done(Err(exhausted_text(state.max_retries, cause))),
            )
        },
        (SendPhase::Pausing, SendEventView::Resumed) => match state.smtp_config {
            Some(config) => (
                SendStateView {
                    attempt: state.attempt + 1,
                    phase: SendPhase::Attempting,
                    ..state
                },
                SendActionView::Attempt { smtp_config: config, number: state.attempt + 1 },
            ),
            None => (state.finished(), SendActionView::Done(Err(Seq::empty()))),
        },
        _ => (state.finished(), SendActionView::Done(Err(Seq::empty()))),
    }
}

impl SendState {
    /// A delivery that has not started, with the given retry policy.
    pub fn new(max_retries: u32, retry_delay: u64) -> (state: SendState)
        ensures
            state@ == SendStateView::initial(max_retries as nat, retry_delay as nat),
            state@.wf(),
    {
        SendState {
            max_retries,
            retry_delay,
            attempt: 0,
            phase: SendPhase::Idle,
            smtp_config: None,
        }
    }

    /// Whether this state is well formed, as every state is that the
    /// controller itself has handed out.
    pub fn is_well_formed(&self) -> (ok: bool)
        ensures
            ok == self@.wf(),
    {
        let under_way = self.phase == SendPhase::Attempting || self.phase == SendPhase::Pausing;
        self.attempt <= self.max_retries && (!under_way || (self.smtp_config.is_some()
            && self.attempt >= 1)) && (self.phase != SendPhase::Pausing || self.attempt
            < self.max_retries)
    }

    /// Whether `event` answers what this controller is waiting for.
    pub fn accepts(&self, event: &SendEvent) -> (accepted: bool)
        ensures
            accepted == send_accepts(self@, event@),
    {
        match (self.phase, event) {
            (SendPhase::Idle, SendEvent::Start) => true,
            (SendPhase::LoadingConfig, SendEvent::ConfigLoaded(_)) => true,
            (SendPhase::Attempting, SendEvent::Attempted(_)) => true,
            (SendPhase::Pausing, SendEvent::Resumed) => true,
            _ => false,
        }
    }
}

impl SendState {
    fn finish(self, result: Result<(), String>) -> (next: (SendState, SendAction))
        requires
            self@.wf(),
        ensures
            next.0@ == self@.finished(),
            next.1@ == SendActionView::Done(
                match result {
                    Ok(_) => Ok(()),
                    Err(cause) => Err(cause@),
                },
            ),
            next.0@.wf(),
    {
        let mut state = self;
        state.phase = SendPhase::Finished;
        (state, SendAction::Done(result))
    }

    fn attempt_next(self) -> (next: (SendState, SendAction))
        requires
            self@.wf(),
            self@.smtp_config is Some,
            self@.attempt < self@.max_retries,
        ensures
            next.0@ == (SendStateView {
                attempt: self@.attempt + 1,
                phase: SendPhase::Attempting,
                ..self@
            }),
            next.1@ == (SendActionView::Attempt {
                smtp_config: self@.smtp_config->Some_0,
                number: self@.attempt + 1,
            }),
            next.0@.wf(),
    {
        let mut state = self;
        let smtp_config = match &state.smtp_config {
            Some(config) => config.clone(),
            None => {
                proof {
                    assert(false);
                }
                return state.finish(Ok(()));
            },
        };
        state.attempt = state.attempt + 1;
        state.phase = SendPhase::Attempting;
        let number = state.attempt;
        (state, SendAction::Attempt { smtp_config, number })
    }
}

/// Advances a delivery by one event: the retry controller. The program
/// around it performs the action that comes back and reports the outcome as
/// the next event, until the action is `Done`.
pub fn send_mail(state: SendState, event: SendEvent) -> (next: (SendState, SendAction))
    requires
        state@.wf(),
        send_accepts(state@, event@),
    ensures
        (next.0@, next.1@) == send_step(state@, event@),
        next.0@.wf(),
{
    let mut state = state;
    match event {
        SendEvent::Start => {
            state.attempt = 0;
            state.phase = SendPhase::LoadingConfig;
            state.smtp_config = None;
            (state, SendAction::LoadConfig)
        },
        SendEvent::ConfigLoaded(Err(cause)) => state.finish(Err(cause)),
        SendEvent::ConfigLoaded(Ok(config)) => match check_smtp_config(&config) {
            Err(error) => {
                assert(error@.1 =~= Seq::empty());
                state.finish(Err(error.message()))
            },
            Ok(_) => if state.max_retries == 0 {
                let nothing = String::new();
                state.finish(Err(exhausted_message(0, nothing.as_str())))
            } else {
                state.attempt = 0;
                state.smtp_config = Some(config);
                state.attempt_next()
            },
        },
        SendEvent::Attempted(Ok(_)) => state.finish(Ok(())),
        SendEvent::Attempted(Err(cause)) => if state.attempt < state.max_retries {
            let seconds = state.retry_delay;
            state.phase = SendPhase::Pausing;
            (state, SendAction::Pause { seconds })
        } else {
            let text = exhausted_message(state.max_retries, cause.as_str());
            state.finish(Err(text))
        },
        SendEvent::Resumed => state.attempt_next(),
    }
}

/// What a whole delivery came to: how many attempts and pauses it took, and
/// how it ended.
pub struct SendReport {
    pub attempts: nat,
    pub pauses: nat,
    pub result: Result<(), Seq<char>>,
}

/// A bound on the actions that a delivery can still ask for.
pub open spec fn send_measure(state: SendStateView, action: SendActionView) -> nat {
    match action {
        SendActionView::Done(_) => 0,
        SendActionView::LoadConfig => 2 * state.max_retries + 2,
        SendActionView::Attempt { .. } => (2 * (state.max_retries - state.attempt) + 1) as nat,
        SendActionView::Pause { .. } => (2 * (state.max_retries - state.attempt)) as nat,
    }
}

/// The event with which a faithful environment answers `action`: the
/// settings store hands out `config`, the relay answers the attempt with the
/// number `n` by `relay(n)`, and every pause ends.
pub open spec fn send_reply(
    action: SendActionView,
    config: Result<SmtpConfigView, Seq<char>>,
    relay: spec_fn(nat) -> Result<(), Seq<char>>,
) -> SendEventView {
    match action {
        SendActionView::LoadConfig => SendEventView::ConfigLoaded(config),
        SendActionView::Attempt { number, .. } => SendEventView::Attempted(relay(number)),
        SendActionView::Pause { .. } => SendEventView::Resumed,
        SendActionView::Done(_) => SendEventView::Start,
    }
}

/// Runs a delivery from `state`, whose pending action is `action`, to its
/// end against a faithful environment, and reports what it took.
pub open spec fn send_run(
    state: SendStateView,
    action: SendActionView,
    config: Result<SmtpConfigView, Seq<char>>,
    relay: spec_fn(nat) -> Result<(), Seq<char>>,
) -> SendReport
    decreases send_measure(state, action),
{
    match action {
        SendActionView::Done(result) => SendReport { attempts: 0, pauses: 0, result },
        _ => {
            let next = send_step(state, send_reply(action, config, relay));
            if send_measure(next.0, next.1) < send_measure(state, action) {
                let rest = send_run(next.0, next.1, config, relay);
                SendReport {
                    attempts: rest.attempts + if action is Attempt {
                        1nat
                    } else {
                        0nat
                    },
                    pauses: rest.pauses + if action is Pause {
                        1nat
                    } else {
                        0nat
                    },
                    result: rest.result,
                }
            } else {
                SendReport { attempts: 0, pauses: 0, result: Err(Seq::empty()) }
            }
        },
    }
}

/// What a delivery with the given retry policy comes to when the settings
/// store hands out `config` and the relay answers by `relay`.
pub open spec fn send_outcome(
    max_retries: nat,
    retry_delay: nat,
    config: Result<SmtpConfigView, Seq<char>>,
    relay: spec_fn(nat) -> Result<(), Seq<char>>,
) -> SendReport {
    let first = send_step(SendStateView::initial(max_retries, retry_delay), SendEventView::Start);
    send_run(first.0, first.1, config, relay)
}

proof fn lemma_run_until_success(
    state: SendStateView,
    config: Result<SmtpConfigView, Seq<char>>,
    relay: spec_fn(nat) -> Result<(), Seq<char>>,
    k: nat,
)
    requires
        state.wf(),
        state.phase == SendPhase::Attempting,
        state.attempt <= k <= state.max_retries,
        relay(k) is Ok,
        forall|n: nat| state.attempt <= n < k ==> (#[trigger] relay(n)) is Err,
    ensures
        send_run(
            state,
            SendActionView::Attempt {
                smtp_config: state.smtp_config->Some_0,
                number: state.attempt,
            },
            config,
            relay,
        ) == (SendReport {
            attempts: (k - state.attempt + 1) as nat,
            pauses: (k - state.attempt) as nat,
            result: Ok(()),
        }),
    decreases k - state.attempt,
{
    let action = SendActionView::Attempt {
        smtp_config: state.smtp_config->Some_0,
        number: state.attempt,
    };
    let after = send_step(state, send_reply(action, config, relay));
    if state.attempt == k {
        assert(after.1 == SendActionView::Done(Ok(())));
        assert(send_run(after.0, after.1, config, relay) == (SendReport {
            attempts: 0,
            pauses: 0,
            result: Ok(()),
        }));
    } else {
        assert(relay(state.attempt) is Err);
        assert(after.1 is Pause);
        let resumed = send_step(after.0, send_reply(after.1, config, relay));
        lemma_run_until_success(resumed.0, config, relay, k);
        assert(send_measure(resumed.0, resumed.1) < send_measure(after.0, after.1));
        assert(send_run(after.0, after.1, config, relay).attempts == k - state.attempt);
    }
}

proof fn lemma_run_until_exhausted(
    state: SendStateView,
    config: Result<SmtpConfigView, Seq<char>>,
    relay: spec_fn(nat) -> Result<(), Seq<char>>,
)
    requires
        state.wf(),
        state.phase == SendPhase::Attempting,
        forall|n: nat| state.attempt <= n <= state.max_retries ==> (#[trigger] relay(n)) is Err,
    ensures
        send_run(
            state,
            SendActionView::Attempt {
                smtp_config: state.smtp_config->Some_0,
                number: state.attempt,
            },
            config,
            relay,
        ) == (SendReport {
            attempts: (state.max_retries - state.attempt + 1) as nat,
            pauses: (state.max_retries - state.attempt) as nat,
            result: Err(exhausted_text(state.max_retries, relay(state.max_retries)->Err_0)),
        }),
    decreases state.max_retries - state.attempt,
{
    let action = SendActionView::Attempt {
        smtp_config: state.smtp_config->Some_0,
        number: state.attempt,
    };
    assert(relay(state.attempt) is Err);
    let after = send_step(state, send_reply(action, config, relay));
    if state.attempt == state.max_retries {
        assert(after.1 == SendActionView::Done(
            Err(exhausted_text(state.max_retries, relay(state.max_retries)->Err_0)),
        ));
        assert(send_run(after.0, after.1, config, relay).attempts == 0);
    } else {
        assert(after.1 is Pause);
        let resumed = send_step(after.0, send_reply(after.1, config, relay));
        lemma_run_until_exhausted(resumed.0, config, relay);
        assert(send_measure(resumed.0, resumed.1) < send_measure(after.0, after.1));
        assert(send_run(after.0, after.1, config, relay).attempts == state.max_retries
            - state.attempt);
    }
}

/// A delivery ends with its first successful attempt: if the attempt with
/// the number `k` is the first that the relay accepts, and `k` attempts are
/// allowed, then exactly `k` attempts are made, with a pause before each but
/// the first and none after the last, and the delivery succeeds without any
/// of the earlier failures being reported.
pub proof fn lemma_first_success_ends_delivery(
    max_retries: nat,
    retry_delay: nat,
    config: SmtpConfigView,
    relay: spec_fn(nat) -> Result<(), Seq<char>>,
    k: nat,
)
    requires
        max_retries <= u32::MAX,
        retry_delay <= u64::MAX,
        config_defect(config) is None,
        1 <= k <= max_retries,
        relay(k) is Ok,
        forall|n: nat| 1 <= n < k ==> (#[trigger] relay(n)) is Err,
    ensures
        send_outcome(max_retries, retry_delay, Ok(config), relay) == (SendReport {
            attempts: k,
            pauses: (k - 1) as nat,
            result: Ok(()),
        }),
{
    let idle = SendStateView::initial(max_retries, retry_delay);
    let loading = send_step(idle, SendEventView::Start);
    let first = send_step(loading.0, send_reply(loading.1, Ok(config), relay));
    lemma_run_until_success(first.0, Ok(config), relay, k);
    assert(send_measure(first.0, first.1) < send_measure(loading.0, loading.1));
}

/// A delivery whose every attempt fails makes exactly `max_retries`
/// attempts, pauses between them but not after the last, and then fails with
/// a text that names the number of attempts and the cause of the last one.
pub proof fn lemma_exhausted_delivery_fails(
    max_retries: nat,
    retry_delay: nat,
    config: SmtpConfigView,
    relay: spec_fn(nat) -> Result<(), Seq<char>>,
)
    requires
        1 <= max_retries <= u32::MAX,
        retry_delay <= u64::MAX,
        config_defect(config) is None,
        forall|n: nat| 1 <= n <= max_retries ==> (#[trigger] relay(n)) is Err,
    ensures
        send_outcome(max_retries, retry_delay, Ok(config), relay) == (SendReport {
            attempts: max_retries,
            pauses: (max_retries - 1) as nat,
            result: Err(exhausted_text(max_retries, relay(max_retries)->Err_0)),
        }),
{
    let idle = SendStateView::initial(max_retries, retry_delay);
    let loading = send_step(idle, SendEventView::Start);
    let first = send_step(loading.0, send_reply(loading.1, Ok(config), relay));
    lemma_run_until_exhausted(first.0, Ok(config), relay);
    assert(send_measure(first.0, first.1) < send_measure(loading.0, loading.1));
}

/// A delivery for which a needed SMTP parameter is missing, or the
/// parameters cannot be read, or no attempt is allowed, fails without
/// contacting the relay.
pub proof fn lemma_unready_delivery_makes_no_attempt(
    max_retries: nat,
    retry_delay: nat,
    config: Result<SmtpConfigView, Seq<char>>,
    relay: spec_fn(nat) -> Result<(), Seq<char>>,
)
    requires
        config is Err || config_defect(config->Ok_0) is Some || max_retries == 0,
    ensures
        send_outcome(max_retries, retry_delay, config, relay).attempts == 0,
        send_outcome(max_retries, retry_delay, config, relay).pauses == 0,
        send_outcome(max_retries, retry_delay, config, relay).result == match config {
            Err(cause) => Err::<(), Seq<char>>(cause),
            Ok(loaded) => match config_defect(loaded) {
                Some(kind) => Err(failure_prefix(kind)),
                None => Err(exhausted_text(0, Seq::empty())),
            },
        },
{
    let idle = SendStateView::initial(max_retries, retry_delay);
    let loading = send_step(idle, SendEventView::Start);
    let first = send_step(loading.0, send_reply(loading.1, config, relay));
    assert(first.1 is Done);
    assert(send_measure(first.0, first.1) < send_measure(loading.0, loading.1));
    assert(send_run(first.0, first.1, config, relay).attempts == 0);
    if config is Ok && config_defect(config->Ok_0) is Some {
        let kind = config_defect(config->Ok_0)->Some_0;
        assert(failure_text((kind, Seq::empty())) =~= failure_prefix(kind));
    }
}

} // verus!
