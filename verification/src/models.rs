//! Rows of the persisted tables, and the SMTP parameters of one cycle.
//!
//! Each type has a view that holds its strings as character sequences; the
//! contracts of the crate are stated over these views.

use vstd::prelude::*;

verus! {

/// A point in time as the store reports it: seconds since the Unix epoch and
/// the nanoseconds within that second.
#[derive(Debug, Clone, Copy, PartialEq, Eq, Structural)]
pub struct Timestamp {
    pub seconds: i64,
    pub nanos: u32,
}

/// One outbound email awaiting processing.
///
/// `status` is one of `pending`, `sent` and `failed`; `deleted` and `locked`
/// hold `true` or `false` as text, as the table does.
#[derive(Debug, PartialEq, Eq)]
pub struct MailQueue {
    pub id: i32,
    pub user_uuid: String,
    pub subject: String,
    pub body: String,
    pub status: String,
    pub deleted: String,
    pub locked: String,
    pub created_at: Option<Timestamp>,
    pub updated_at: Option<Timestamp>,
}

/// The mathematical value of a [`MailQueue`] row.
pub struct MailQueueView {
    pub id: int,
    pub user_uuid: Seq<char>,
    pub subject: Seq<char>,
    pub body: Seq<char>,
    pub status: Seq<char>,
    pub deleted: Seq<char>,
    pub locked: Seq<char>,
    pub created_at: Option<Timestamp>,
    pub updated_at: Option<Timestamp>,
}

impl View for MailQueue {
    type V = MailQueueView;

    open spec fn view(&self) -> MailQueueView {
        MailQueueView {
            id: self.id as int,
            user_uuid: self.user_uuid@,
            subject: self.subject@,
            body: self.body@,
            status: self.status@,
            deleted: self.deleted@,
            locked: self.locked@,
            created_at: self.created_at,
            updated_at: self.updated_at,
        }
    }
}

impl Clone for MailQueue {
    fn clone(&self) -> (copy: Self)
        ensures
            copy == *self,
    {
        MailQueue {
            id: self.id,
            user_uuid: self.user_uuid.clone(),
            subject: self.subject.clone(),
            body: self.body.clone(),
            status: self.status.clone(),
            deleted: self.deleted.clone(),
            locked: self.locked.clone(),
            created_at: self.created_at,
            updated_at: self.updated_at,
        }
    }
}

/// The detail record that belongs to a queue entry and names its recipient.
#[derive(Debug, PartialEq, Eq)]
pub struct MailList {
    pub id: i32,
    pub queue_id: i32,
    pub user_uuid: String,
    pub deleted: String,
    pub locked: String,
    pub created_at: Option<Timestamp>,
    pub updated_at: Option<Timestamp>,
}

/// The mathematical value of a [`MailList`] row.
pub struct MailListView {
    pub id: int,
    pub queue_id: int,
    pub user_uuid: Seq<char>,
    pub deleted: Seq<char>,
    pub locked: Seq<char>,
    pub created_at: Option<Timestamp>,
    pub updated_at: Option<Timestamp>,
}

impl View for MailList {
    type V = MailListView;

    open spec fn view(&self) -> MailListView {
        MailListView {
            id: self.id as int,
            queue_id: self.queue_id as int,
            user_uuid: self.user_uuid@,
            deleted: self.deleted@,
            locked: self.locked@,
            created_at: self.created_at,
            updated_at: self.updated_at,
        }
    }
}

impl Clone for MailList {
    fn clone(&self) -> (copy: Self)
        ensures
            copy == *self,
    {
        MailList {
            id: self.id,
            queue_id: self.queue_id,
            user_uuid: self.user_uuid.clone(),
            deleted: self.deleted.clone(),
            locked: self.locked.clone(),
            created_at: self.created_at,
            updated_at: self.updated_at,
        }
    }
}

/// An account that mail can be sent to, found by its `uuid`.
#[derive(Debug, PartialEq, Eq)]
pub struct User {
    pub id: i32,
    pub username: String,
    pub first_name: String,
    pub last_name: String,
    pub email: String,
    pub uuid: String,
}

/// The mathematical value of a [`User`] row.
pub struct UserView {
    pub id: int,
    pub username: Seq<char>,
    pub first_name: Seq<char>,
    pub last_name: Seq<char>,
    pub email: Seq<char>,
    pub uuid: Seq<char>,
}

impl View for User {
    type V = UserView;

    open spec fn view(&self) -> UserView {
        UserView {
            id: self.id as int,
            username: self.username@,
            first_name: self.first_name@,
            last_name: self.last_name@,
            email: self.email@,
            uuid: self.uuid@,
        }
    }
}

impl Clone for User {
    fn clone(&self) -> (copy: Self)
        ensures
            copy == *self,
    {
        User {
            id: self.id,
            username: self.username.clone(),
            first_name: self.first_name.clone(),
            last_name: self.last_name.clone(),
            email: self.email.clone(),
            uuid: self.uuid.clone(),
        }
    }
}

/// The SMTP parameters of one cycle, assembled from the settings store.
#[derive(Debug, PartialEq, Eq)]
pub struct SmtpConfig {
    pub host: String,
    pub port: u16,
    pub user: String,
    pub password: String,
    pub from: String,
    pub encryption: String,
    pub app_name: String,
}

/// The mathematical value of an [`SmtpConfig`].
pub struct SmtpConfigView {
    pub host: Seq<char>,
    pub port: int,
    pub user: Seq<char>,
    pub password: Seq<char>,
    pub from: Seq<char>,
    pub encryption: Seq<char>,
    pub app_name: Seq<char>,
}

impl View for SmtpConfig {
    type V = SmtpConfigView;

    open spec fn view(&self) -> SmtpConfigView {
        SmtpConfigView {
            host: self.host@,
            port: self.port as int,
            user: self.user@,
            password: self.password@,
            from: self.from@,
            encryption: self.encryption@,
            app_name: self.app_name@,
        }
    }
}

impl Clone for SmtpConfig {
    fn clone(&self) -> (copy: Self)
        ensures
            copy == *self,
    {
        SmtpConfig {
            host: self.host.clone(),
            port: self.port,
            user: self.user.clone(),
            password: self.password.clone(),
            from: self.from.clone(),
            encryption: self.encryption.clone(),
            app_name: self.app_name.clone(),
        }
    }
}

} // verus!
