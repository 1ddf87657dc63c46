//! What is sent to a provider, and what becomes of an attempt to send it.

use vstd::prelude::*;

use crate::headers;
use crate::headers::Headers;
use crate::json::{Json, JsonView};
use crate::types::{StreamError, StreamErrorView};

verus! {

/// One `POST` request to a provider.
#[derive(Debug, PartialEq)]
pub struct ProviderRequest {
    pub url: String,
    /// The token of the `authorization` header, where the provider takes one.
    pub bearer: Option<String>,
    /// The other headers, in the order in which they are added.
    pub headers: Vec<(String, String)>,
    /// The headers, as a log of the request shows them.
    pub logged: Headers,
    pub body: Json,
}

/// The model of [`ProviderRequest`].
pub struct RequestView {
    pub url: Seq<char>,
    pub bearer: Option<Seq<char>>,
    pub headers: Seq<(Seq<char>, Seq<char>)>,
    pub logged: Seq<(Seq<char>, Seq<char>)>,
    pub body: JsonView,
}

impl DeepView for ProviderRequest {
    type V = RequestView;

    open spec fn deep_view(&self) -> RequestView {
        RequestView {
            url: self.url@,
            bearer: self.bearer.deep_view(),
            headers: self.headers.deep_view(),
            logged: self.logged@,
            body: self.body@,
        }
    }
}

/// The first value that is there.
pub open spec fn first_found(found: Seq<Option<Seq<char>>>) -> Option<Seq<char>>
    decreases found.len(),
{
    if found.len() == 0 {
        None
    } else if found[0] is Some {
        found[0]
    } else {
        first_found(found.drop_first())
    }
}

/// The key of a request: the one that was asked for, or else the first one
/// found.
pub open spec fn key_of(asked: Option<Seq<char>>, found: Seq<Option<Seq<char>>>) -> Option<
    Seq<char>,
> {
    match asked {
        Some(key) => Some(key),
        None => first_found(found),
    }
}

/// Chooses the key of a request.
pub fn choose_key(asked: &Option<String>, found: &Vec<Option<String>>) -> (key: Option<String>)
    ensures
        key.deep_view() == key_of(asked.deep_view(), found.deep_view()),
{
    if asked.is_some() {
        return asked.clone();
    }
    let ghost all = found.deep_view();
    assert(all.skip(0) =~= all);
    for i in 0..found.len()
        invariant
            asked is None,
            all == found.deep_view(),
            first_found(all) == first_found(all.skip(i as int)),
    {
        assert(all.skip(i as int)[0] == found@[i as int].deep_view());
        assert(all.skip(i as int).drop_first() =~= all.skip(i + 1));
        if found[i].is_some() {
            return found[i].clone();
        }
    }
    None
}

/// The base of a request's URL, without slashes at its end.
pub open spec fn base_of(asked: Option<Seq<char>>, default: Seq<char>) -> Seq<char> {
    crate::text::trim_end(
        match asked {
            Some(base) => base,
            None => default,
        },
        '/',
    )
}

/// Chooses the base of a request's URL.
pub fn choose_base<'a>(asked: &'a Option<String>, default: &'a str) -> (base: &'a str)
    ensures
        base@ == base_of(asked.deep_view(), default@),
{
    match asked {
        Some(base) => crate::text::trimmed_end(base.as_str(), '/'),
        None => crate::text::trimmed_end(default, '/'),
    }
}

/// Adds one header to a list.
pub fn add_header(list: &mut Vec<(String, String)>, name: &str, value: &str)
    ensures
        final(list).deep_view() == old(list).deep_view().push((name@, value@)),
{
    list.push((name.to_owned(), value.to_owned()));
    assert(list.deep_view() =~= old(list).deep_view().push((name@, value@)));
}

/// Adds a set of headers to a list, in the order of their names.
pub fn add_headers(list: &mut Vec<(String, String)>, more: &Headers)
    ensures
        final(list).deep_view() == old(list).deep_view() + more@,
{
    let n = more.len();
    assert(old(list).deep_view() + more@.take(0) =~= old(list).deep_view());
    for i in 0..n
        invariant
            n == more@.len(),
            list.deep_view() == old(list).deep_view() + more@.take(i as int),
    {
        let (name, value) = more.header(i);
        add_header(list, name, value);
        assert(old(list).deep_view() + more@.take(i + 1) =~= (old(list).deep_view() + more@.take(
            i as int,
        )).push(more@[i as int]));
    }
    assert(more@.take(n as int) =~= more@);
}

/// The headers that a log shows: those of a list, and then those of a set, the
/// later one where a name occurs twice.
pub fn logged_headers(list: &Vec<(String, String)>, more: &Headers) -> (logged: Headers)
    ensures
        logged@ == headers::with_headers(
            headers::with_headers(Seq::empty(), list.deep_view()),
            more@,
        ),
{
    let mut logged = Headers::new();
    let ghost all = list.deep_view();
    for i in 0..list.len()
        invariant
            all == list.deep_view(),
            logged@ == headers::with_headers(Seq::empty(), all.take(i as int)),
    {
        logged.insert(list[i].0.clone(), list[i].1.clone());
        assert(all.take(i + 1).drop_last() =~= all.take(i as int));
        assert(all[i as int] == (list@[i as int].0@, list@[i as int].1@));
    }
    assert(all.take(all.len() as int) =~= all);
    logged.extend(more);
    logged
}

/// What came of sending a request.
#[derive(Debug, PartialEq)]
pub enum Sent {
    /// No answer arrived.
    Failed { reason: String, timeout: bool, connect: bool },
    /// An answer arrived. Where its status is not one of success, the other
    /// fields tell what it said and whether that status is worth another try.
    Answered { status: u16, body: String, retryable: bool, retry_after_ms: Option<u64> },
}

/// What to do after an attempt.
#[derive(Debug, PartialEq)]
pub enum Attempt {
    /// The answer can be read.
    Ready,
    /// Another attempt may be made.
    Retry { error: StreamError, retry_after_ms: Option<u64> },
    /// No other attempt is to be made.
    Fatal(StreamError),
}

/// The model of [`Sent`].
pub enum SentView {
    Failed { reason: Seq<char>, timeout: bool, connect: bool },
    Answered { status: u16, body: Seq<char>, retryable: bool, retry_after_ms: Option<u64> },
}

/// The model of [`Attempt`].
pub enum AttemptView {
    Ready,
    Retry { error: StreamErrorView, retry_after_ms: Option<u64> },
    Fatal(StreamErrorView),
}

impl DeepView for Sent {
    type V = SentView;

    open spec fn deep_view(&self) -> SentView {
        match *self {
            Sent::Failed { reason, timeout, connect } => SentView::Failed {
                reason: reason@,
                timeout,
                connect,
            },
            Sent::Answered { status, body, retryable, retry_after_ms } => SentView::Answered {
                status,
                body: body@,
                retryable,
                retry_after_ms,
            },
        }
    }
}

impl DeepView for Attempt {
    type V = AttemptView;

    open spec fn deep_view(&self) -> AttemptView {
        match *self {
            Attempt::Ready => AttemptView::Ready,
            Attempt::Retry { error, retry_after_ms } => AttemptView::Retry {
                error: error.deep_view(),
                retry_after_ms,
            },
            Attempt::Fatal(error) => AttemptView::Fatal(error.deep_view()),
        }
    }
}

/// Whether a status is one of success.
pub fn is_success(status: u16) -> (yes: bool)
    ensures
        yes == (200 <= status < 300),
{
    200 <= status && status < 300
}

/// What to do after an attempt: an answer of success is read; a timeout, a
/// failed connection and a status that is worth it are tried again; anything
/// else is final.
pub open spec fn attempt_of(sent: SentView) -> AttemptView {
    match sent {
        SentView::Failed { reason, timeout, connect } => if timeout || connect {
            AttemptView::Retry { error: StreamErrorView::Http(reason), retry_after_ms: None }
        } else {
            AttemptView::Fatal(StreamErrorView::Http(reason))
        },
        SentView::Answered { status, body, retryable, retry_after_ms } => {
            let error = StreamErrorView::ProviderError { status, body };
            if 200 <= status < 300 {
                AttemptView::Ready
            } else if retryable {
                AttemptView::Retry { error, retry_after_ms }
            } else {
                AttemptView::Fatal(error)
            }
        },
    }
}

/// Decides what to do after an attempt.
pub fn classify_attempt(sent: Sent) -> (attempt: Attempt)
    ensures
        attempt.deep_view() == attempt_of(sent.deep_view()),
{
    match sent {
        Sent::Failed { reason, timeout, connect } => if timeout || connect {
            Attempt::Retry { error: StreamError::Http(reason), retry_after_ms: None }
        } else {
            Attempt::Fatal(StreamError::Http(reason))
        },
        Sent::Answered { status, body, retryable, retry_after_ms } => if is_success(status) {
            Attempt::Ready
        } else if retryable {
            Attempt::Retry { error: StreamError::ProviderError { status, body }, retry_after_ms }
        } else {
            Attempt::Fatal(StreamError::ProviderError { status, body })
        },
    }
}

/// The key that is asked for is used. Without one it is the first that was
/// found, and there is none only where none was found.
pub proof fn law_first_key_is_used(
    asked: Option<Seq<char>>,
    found: Seq<Option<Seq<char>>>,
)
    ensures
        asked is Some ==> key_of(asked, found) == asked,
        asked is None ==> match key_of(asked, found) {
            Some(key) => exists|i: int|
                0 <= i < found.len() && (#[trigger] found[i]) == Some(key) && forall|j: int|
                    0 <= j < i ==> (#[trigger] found[j]) is None,
            None => forall|j: int| 0 <= j < found.len() ==> (#[trigger] found[j]) is None,
        },
    decreases found.len(),
{
    if asked is None && found.len() > 0 {
        if found[0] is Some {
            assert(found[0] == key_of(asked, found));
        } else {
            let rest = found.drop_first();
            law_first_key_is_used(asked, rest);
            match key_of(asked, found) {
                Some(key) => {
                    let i = choose|i: int|
                        0 <= i < rest.len() && (#[trigger] rest[i]) == Some(key) && forall|j: int|
                            0 <= j < i ==> (#[trigger] rest[j]) is None;
                    assert(found[i + 1] == rest[i]);
                    assert forall|j: int| 0 <= j < i + 1 implies (#[trigger] found[j]) is None by {
                        if j > 0 {
                            assert(rest[j - 1] == found[j]);
                        }
                    }
                },
                None => {
                    assert forall|j: int| 0 <= j < found.len() implies (
                    #[trigger] found[j]) is None by {
                        if j > 0 {
                            assert(rest[j - 1] == found[j]);
                        }
                    }
                },
            }
        }
    }
}

/// An answer is read where its status is one of success, and only then. A
/// timeout and a failed connection are worth another try, and so is a status
/// that is said to be, after the wait that was asked for; anything else is
/// final. The error tells what came back.
pub proof fn law_attempts_are_read_retried_or_given_up(
    reason: Seq<char>,
    timeout: bool,
    connect: bool,
    status: u16,
    body: Seq<char>,
    retryable: bool,
    wait: Option<u64>,
)
    ensures
        match attempt_of(SentView::Failed { reason, timeout, connect }) {
            AttemptView::Ready => false,
            AttemptView::Retry { error, retry_after_ms } => (timeout || connect) && error
                == StreamErrorView::Http(reason) && retry_after_ms is None,
            AttemptView::Fatal(error) => !timeout && !connect && error == StreamErrorView::Http(
                reason,
            ),
        },
        match attempt_of(
            SentView::Answered { status, body, retryable, retry_after_ms: wait },
        ) {
            AttemptView::Ready => 200 <= status <= 299,
            AttemptView::Retry { error, retry_after_ms } => !(200 <= status <= 299) && retryable
                && retry_after_ms == wait && error == (StreamErrorView::ProviderError {
                status,
                body,
            }),
            AttemptView::Fatal(error) => !(200 <= status <= 299) && !retryable && error == (
            StreamErrorView::ProviderError { status, body }),
        },
{
}

/// The base of a request is the one that is asked for, or else the default one,
/// without the slashes at its end.
pub proof fn law_base_is_the_one_asked_for(asked: Option<Seq<char>>, default: Seq<char>)
    ensures
        asked matches Some(base) ==> base_of(asked, default) == crate::text::trim_end(base, '/'),
        asked is None ==> base_of(asked, default) == crate::text::trim_end(default, '/'),
{
}

} // verus!
