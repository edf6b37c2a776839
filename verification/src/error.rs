//! The error taxonomy shared by every component.

use vstd::prelude::*;

verus! {

/// What went wrong, with a human-readable message.
///
/// * `ClientError`: the transport failed (network, service, authentication,
///   malformed payload).
/// * `DatabaseFieldError`: a value was accessed or updated as the wrong variant.
/// * `NotificationError`: the subscription registry and the remote service
///   disagree about the active subscriptions.
#[derive(Debug)]
pub enum Error {
    ClientError(String),
    DatabaseFieldError(String),
    NotificationError(String),
}

/// Mathematical content of an [`Error`].
pub ghost enum ErrorView {
    ClientError(Seq<char>),
    DatabaseFieldError(Seq<char>),
    NotificationError(Seq<char>),
}

impl View for Error {
    type V = ErrorView;

    open spec fn view(&self) -> ErrorView {
        match self {
            Error::ClientError(m) => ErrorView::ClientError(m@),
            Error::DatabaseFieldError(m) => ErrorView::DatabaseFieldError(m@),
            Error::NotificationError(m) => ErrorView::NotificationError(m@),
        }
    }
}

impl ErrorView {
    /// The message carried by the error, whatever its kind.
    pub open spec fn message(self) -> Seq<char> {
        match self {
            ErrorView::ClientError(m) => m,
            ErrorView::DatabaseFieldError(m) => m,
            ErrorView::NotificationError(m) => m,
        }
    }

    /// The prefix that [`Error::describe`] puts before the message.
    pub open spec fn prefix(self) -> Seq<char> {
        match self {
            ErrorView::ClientError(_) => "Client error: "@,
            ErrorView::DatabaseFieldError(_) => "Database error: "@,
            ErrorView::NotificationError(_) => "Notification error: "@,
        }
    }
}

impl Error {
    /// A transport failure with the given message.
    pub fn from_client(msg: &str) -> (e: Error)
        ensures
            e@ == ErrorView::ClientError(msg@),
    {
        Error::ClientError(msg.to_owned())
    }

    /// A registry inconsistency with the given message.
    pub fn from_notification(msg: &str) -> (e: Error)
        ensures
            e@ == ErrorView::NotificationError(msg@),
    {
        Error::NotificationError(msg.to_owned())
    }

    /// A wrong-variant access with the given message.
    pub fn from_database_field(msg: &str) -> (e: Error)
        ensures
            e@ == ErrorView::DatabaseFieldError(msg@),
    {
        Error::DatabaseFieldError(msg.to_owned())
    }

    /// The message carried by the error.
    pub fn message(&self) -> (m: &String)
        ensures
            m@ == self@.message(),
    {
        match self {
            Error::ClientError(m) => m,
            Error::DatabaseFieldError(m) => m,
            Error::NotificationError(m) => m,
        }
    }

    /// The error as one line of text: the kind's prefix, then the message.
    pub fn describe(&self) -> (text: String)
        ensures
            text@ == self@.prefix() + self@.message(),
    {
        let prefix = match self {
            Error::ClientError(_) => "Client error: ",
            Error::DatabaseFieldError(_) => "Database error: ",
            Error::NotificationError(_) => "Notification error: ",
        };
        prefix.to_owned().concat(self.message().as_str())
    }

    /// A copy of the error.
    pub fn duplicate(&self) -> (e: Error)
        ensures
            e@ == self@,
    {
        match self {
            Error::ClientError(m) => Error::ClientError(m.clone()),
            Error::DatabaseFieldError(m) => Error::DatabaseFieldError(m.clone()),
            Error::NotificationError(m) => Error::NotificationError(m.clone()),
        }
    }
}

} // verus!
