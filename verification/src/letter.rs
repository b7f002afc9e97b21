//! The one place where the crate meets `lettre`: reading a mailbox and
//! building a message.
//!
//! Neither a mailbox nor a message of `lettre` can be looked into from
//! verified code. So each travels sealed together with the text it came
//! from: a value of [`ReadMailbox`], [`HtmlContent`] or [`Letter`] can only be
//! made by the function here that makes the call, and says what that call was
//! handed. What `lettre` writes from what it was handed is `lettre`'s own.

use vstd::prelude::*;
use lettre::message::header::ContentType;
use lettre::message::Mailbox;
use lettre::Message;

verus! {

/// `lettre`'s mailbox, an address with an optional display name. A value of
/// it is carried from the parser to the builder and never looked into.
#[verifier::external_type_specification]
#[verifier::external_body]
pub struct ExMailbox(lettre::message::Mailbox);

/// `lettre`'s email message, headers, body and envelope. A value of it is
/// carried from the builder to the transport and never looked into.
#[verifier::external_type_specification]
#[verifier::external_body]
pub struct ExMessage(lettre::Message);

/// `lettre`'s `Content-Type` header. A value of it is carried to the
/// builder and never looked into.
#[verifier::external_type_specification]
#[verifier::external_body]
pub struct ExContentType(lettre::message::header::ContentType);

/// What a message is to be built from: the texts of the three mailbox
/// headers, the subject, the body, and whether the body is HTML.
#[derive(Debug, PartialEq, Eq)]
pub struct Draft {
    pub from: String,
    pub reply_to: String,
    pub to: String,
    pub subject: String,
    pub body: String,
    pub html: bool,
}

/// The mathematical value of a [`Draft`].
pub struct DraftView {
    pub from: Seq<char>,
    pub reply_to: Seq<char>,
    pub to: Seq<char>,
    pub subject: Seq<char>,
    pub body: Seq<char>,
    pub html: bool,
}

impl View for Draft {
    type V = DraftView;

    open spec fn view(&self) -> DraftView {
        DraftView {
            from: self.from@,
            reply_to: self.reply_to@,
            to: self.to@,
            subject: self.subject@,
            body: self.body@,
            html: self.html,
        }
    }
}

/// A mailbox that `lettre` has read, sealed with the text it was read from.
#[derive(Debug)]
pub struct ReadMailbox {
    text: String,
    mailbox: Mailbox,
}

impl View for ReadMailbox {
    type V = Seq<char>;

    /// The text that the mailbox was read from.
    closed spec fn view(&self) -> Seq<char> {
        self.text@
    }
}

/// `lettre`'s content type for a body in UTF-8 encoded HTML, sealed so that
/// no other content type can be handed to the builder.
#[derive(Debug)]
pub struct HtmlContent {
    header: ContentType,
}

/// A message that `lettre` has built, sealed with the draft that the builder
/// was handed.
#[derive(Debug)]
pub struct Letter {
    draft: Draft,
    message: Message,
}

impl View for Letter {
    type V = DraftView;

    /// The draft that the message was built from.
    closed spec fn view(&self) -> DraftView {
        self.draft@
    }
}

impl Letter {
    /// The message as `lettre` built it.
    pub closed spec fn built(&self) -> Message {
        self.message
    }

    /// The draft that the message was built from.
    pub fn draft(&self) -> (draft: &Draft)
        ensures
            draft@ == self@,
    {
        &self.draft
    }

    /// The message itself, to be handed to a transport.
    pub fn message(&self) -> (message: &Message)
        ensures
            *message == self.built(),
    {
        &self.message
    }
}

/// Why `lettre` refuses to read `text` as a mailbox (an address, or a name
/// followed by an address in angle brackets): the text of its error, or
/// `None` where it reads one.
pub uninterp spec fn mailbox_rejection(text: Seq<char>) -> Option<Seq<char>>;

/// Reads a mailbox with `lettre`'s parser (`Mailbox::from_str`), turns the
/// parser's error into its text, and seals a mailbox that was read with the
/// text it was read from. Nothing is proved of the parser: the contract only
/// gives its verdict a name, which claims that the same text always meets
/// the same verdict.
#[verifier::external_body]
pub(crate) fn read_mailbox(text: &str) -> (read: Result<ReadMailbox, String>)
    ensures
        match read {
            Ok(mailbox) => mailbox_rejection(text@) is None && mailbox@ == text@,
            Err(cause) => mailbox_rejection(text@) == Some(cause@),
        },
{
    match text.parse::<Mailbox>() {
        Ok(mailbox) => Ok(ReadMailbox { text: text.to_string(), mailbox }),
        Err(e) => Err(e.to_string()),
    }
}

/// Hands out `lettre`'s constant `ContentType::TEXT_HTML`, the content type
/// of a body in UTF-8 encoded HTML. Verified code cannot name the constant
/// itself; nothing is claimed of it.
#[verifier::external_body]
pub(crate) fn html_content() -> (content: HtmlContent) {
    HtmlContent { header: ContentType::TEXT_HTML }
}

/// Why `lettre`'s builder refuses to build a message from `draft`, a draft
/// with a body in HTML, with the three mailboxes read from the draft's three
/// texts: the text of its error, or `None` where it builds one. The builder
/// refuses on account of the headers it was given, never of the date that it
/// stamps, so its verdict goes by the draft alone.
pub uninterp spec fn build_rejection(draft: DraftView) -> Option<Seq<char>>;

/// Builds a message with `lettre`'s builder (`Message::builder`, then
/// `from`, `reply_to`, `to`, `subject`, `header` and `body`): the three
/// mailboxes go into the headers of their names, subject and body are those
/// of the draft, and the content type is that of HTML. Nothing is proved of
/// the builder, and nothing is claimed of what it wrote into the message,
/// which bears the current date. The contract gives the builder's verdict a
/// name, and states the library's own record: a message that comes back is
/// sealed with the draft that was handed in, of which the caller has shown
/// that its body is HTML and that the three mailboxes were read from its
/// three texts.
#[verifier::external_body]
pub(crate) fn build_letter(
    draft: Draft,
    from: ReadMailbox,
    reply_to: ReadMailbox,
    to: ReadMailbox,
    content: HtmlContent,
) -> (built: Result<Letter, String>)
    requires
        draft@.html,
        from@ == draft@.from,
        reply_to@ == draft@.reply_to,
        to@ == draft@.to,
    ensures
        match built {
            Ok(letter) => build_rejection(draft@) is None && letter@ == draft@,
            Err(cause) => build_rejection(draft@) == Some(cause@),
        },
{
    let built = Message::builder()
        .from(from.mailbox)
        .reply_to(reply_to.mailbox)
        .to(to.mailbox)
        .subject(draft.subject.as_str())
        .header(content.header)
        .body(draft.body.clone());
    match built {
        Ok(message) => Ok(Letter { draft, message }),
        Err(e) => Err(e.to_string()),
    }
}

} // verus!
