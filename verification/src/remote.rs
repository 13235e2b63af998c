//! The primitive remote calls and what the store answers.
//!
//! The engine performs no I/O. It hands each call out as a [`Call`]; whoever
//! holds the connection performs exactly one round trip for it and hands the
//! answer back as a [`Reply`].

use vstd::prelude::*;

verus! {

/// The sequence of the views of `s`.
pub open spec fn views<T: View>(s: Seq<T>) -> Seq<T::V> {
    Seq::new(s.len(), |i: int| s[i]@)
}

/// The kinds of failure that a store reports, as far as the engine tells
/// them apart.
#[derive(Clone, Copy, Debug, PartialEq, Eq, Structural)]
pub enum ErrorClass {
    /// The store asks the caller to slow down.
    Throttled,
    /// The request or its answer was lost on the way.
    Network,
    /// The credentials do not permit the call.
    Denied,
    /// Any other failure.
    Other,
}

impl ErrorClass {
    /// A failure of this class may pass by itself: the same call may succeed
    /// when made again.
    pub open spec fn transient(self) -> bool {
        self == ErrorClass::Throttled || self == ErrorClass::Network
    }

    /// Tells whether a failure of this class may pass by itself.
    pub fn is_transient(&self) -> (r: bool)
        ensures
            r == self.transient(),
    {
        match self {
            ErrorClass::Throttled => true,
            ErrorClass::Network => true,
            ErrorClass::Denied => false,
            ErrorClass::Other => false,
        }
    }
}

/// The class of the failure that a store reports by the HTTP status `status`:
/// `401` and `403` say that the call is refused, `429` and `503` that the
/// caller is to slow down, `408` and `504` that the call was lost on the way.
pub open spec fn class_of_status(status: u16) -> ErrorClass {
    if status == 401 || status == 403 {
        ErrorClass::Denied
    } else if status == 429 || status == 503 {
        ErrorClass::Throttled
    } else if status == 408 || status == 504 {
        ErrorClass::Network
    } else {
        ErrorClass::Other
    }
}

/// A failure reported by the store, with the store's own words.
#[derive(Debug, PartialEq, Eq)]
pub struct RemoteError {
    pub class: ErrorClass,
    pub message: String,
}

/// What a [`RemoteError`] stands for.
pub struct RemoteErrorView {
    pub class: ErrorClass,
    pub message: Seq<char>,
}

impl View for RemoteError {
    type V = RemoteErrorView;

    open spec fn view(&self) -> RemoteErrorView {
        RemoteErrorView { class: self.class, message: self.message@ }
    }
}

impl RemoteError {
    /// A failure of the given class.
    pub fn new(class: ErrorClass, message: &str) -> (r: RemoteError)
        ensures
            r@ == (RemoteErrorView { class, message: message@ }),
    {
        RemoteError { class, message: message.to_owned() }
    }
}

impl Clone for RemoteError {
    fn clone(&self) -> (r: RemoteError)
        ensures
            r@ == self@,
    {
        RemoteError { class: self.class, message: self.message.clone() }
    }
}

/// One primitive call on one object of one bucket.
#[derive(Debug, PartialEq, Eq)]
pub enum Call {
    /// Read the object.
    Get { bucket: String, key: String },
    /// Write the object, with the body that the caller holds for it.
    Put { bucket: String, key: String },
    /// Write the object with a body of length zero.
    PutEmpty { bucket: String, key: String },
    /// Copy the object `from` to the key `to`.
    Copy { bucket: String, from: String, to: String },
    /// Delete the object.
    Delete { bucket: String, key: String },
}

/// What a [`Call`] stands for.
pub enum CallView {
    Get { bucket: Seq<char>, key: Seq<char> },
    Put { bucket: Seq<char>, key: Seq<char> },
    PutEmpty { bucket: Seq<char>, key: Seq<char> },
    Copy { bucket: Seq<char>, from: Seq<char>, to: Seq<char> },
    Delete { bucket: Seq<char>, key: Seq<char> },
}

impl View for Call {
    type V = CallView;

    open spec fn view(&self) -> CallView {
        match self {
            Call::Get { bucket, key } => CallView::Get { bucket: bucket@, key: key@ },
            Call::Put { bucket, key } => CallView::Put { bucket: bucket@, key: key@ },
            Call::PutEmpty { bucket, key } => CallView::PutEmpty { bucket: bucket@, key: key@ },
            Call::Copy { bucket, from, to } => CallView::Copy {
                bucket: bucket@,
                from: from@,
                to: to@,
            },
            Call::Delete { bucket, key } => CallView::Delete { bucket: bucket@, key: key@ },
        }
    }
}

impl Clone for Call {
    fn clone(&self) -> (r: Call)
        ensures
            r@ == self@,
    {
        match self {
            Call::Get { bucket, key } => Call::Get { bucket: bucket.clone(), key: key.clone() },
            Call::Put { bucket, key } => Call::Put { bucket: bucket.clone(), key: key.clone() },
            Call::PutEmpty { bucket, key } => Call::PutEmpty {
                bucket: bucket.clone(),
                key: key.clone(),
            },
            Call::Copy { bucket, from, to } => Call::Copy {
                bucket: bucket.clone(),
                from: from.clone(),
                to: to.clone(),
            },
            Call::Delete { bucket, key } => Call::Delete {
                bucket: bucket.clone(),
                key: key.clone(),
            },
        }
    }
}

/// The answer to one [`Call`].
#[derive(Debug, PartialEq, Eq)]
pub enum Reply {
    /// The store did what was asked.
    Done,
    /// The object, or its bucket, does not exist.
    NotFound,
    /// The call failed.
    Failed(RemoteError),
}

/// What a [`Reply`] stands for.
pub enum ReplyView {
    Done,
    NotFound,
    Failed(RemoteErrorView),
}

/// What the HTTP status `status` of a store's response answers: every `2xx`
/// status that the call was done, `404` that the object does not exist, any
/// other a failure of the class of that status, with the store's words.
pub open spec fn reply_of_status(status: u16, message: Seq<char>) -> ReplyView {
    if 200 <= status <= 299 {
        ReplyView::Done
    } else if status == 404 {
        ReplyView::NotFound
    } else {
        ReplyView::Failed(RemoteErrorView { class: class_of_status(status), message })
    }
}

impl Reply {
    /// Reads the answer to a call off the HTTP status of the store's
    /// response and the words that came with it.
    pub fn from_status(status: u16, message: &str) -> (r: Reply)
        ensures
            r@ == reply_of_status(status, message@),
    {
        if 200 <= status && status <= 299 {
            Reply::Done
        } else if status == 404 {
            Reply::NotFound
        } else {
            let class = if status == 401 || status == 403 {
                ErrorClass::Denied
            } else if status == 429 || status == 503 {
                ErrorClass::Throttled
            } else if status == 408 || status == 504 {
                ErrorClass::Network
            } else {
                ErrorClass::Other
            };
            Reply::Failed(RemoteError::new(class, message))
        }
    }

    /// The answer to a call whose request or response was lost on the way.
    pub fn lost(message: &str) -> (r: Reply)
        ensures
            r@ == ReplyView::Failed(
                RemoteErrorView { class: ErrorClass::Network, message: message@ },
            ),
    {
        Reply::Failed(RemoteError::new(ErrorClass::Network, message))
    }
}

impl View for Reply {
    type V = ReplyView;

    open spec fn view(&self) -> ReplyView {
        match self {
            Reply::Done => ReplyView::Done,
            Reply::NotFound => ReplyView::NotFound,
            Reply::Failed(e) => ReplyView::Failed(e@),
        }
    }
}

} // verus!
