//! The requests that go to the server, and what becomes of those that fail.
use crate::bindings::{join_url, lossy_text, parse_url, url_joined, url_parsed, utf8_lossy};
use crate::client::ClientConfig;
use crate::error::{Error, ErrorView, HttpError, HttpErrorView, StatusCode};
use crate::protocol::headers::{http_error_with_text, http_failure};
use crate::retry::RetryPolicy;
use crate::text::{concat3, opt_view, text_result};
use crate::time::TimeSpan;
use reqwest::header::HeaderMap;
use vstd::prelude::*;
use vstd::string::*;
use vstd::utf8::*;

verus! {

/// The method of a request.
#[derive(Debug, Clone, Copy, PartialEq, Eq, Structural)]
pub enum Method {
    Get,
    Head,
    Post,
    Put,
    Patch,
    Delete,
}

impl Method {
    /// Whether a request with this method only reads.
    pub open spec fn reads(self) -> bool {
        self is Get || self is Head
    }
}

/// A request to the server. Without a timeout the answer may take as long as it likes.
#[derive(Debug, PartialEq, Eq)]
pub struct HttpRequest {
    pub method: Method,
    pub url: String,
    pub query: Vec<(String, String)>,
    pub timeout: Option<TimeSpan>,
}

/// What an [`HttpRequest`] stands for.
#[verifier::ext_equal]
pub ghost struct RequestView {
    pub method: Method,
    pub url: Seq<char>,
    pub query: Seq<(Seq<char>, Seq<char>)>,
    pub timeout: Option<nat>,
}

/// The views of the names and values, in order.
pub open spec fn pair_views(pairs: Seq<(String, String)>) -> Seq<(Seq<char>, Seq<char>)> {
    pairs.map_values(|pair: (String, String)| (pair.0@, pair.1@))
}

impl View for HttpRequest {
    type V = RequestView;

    open spec fn view(&self) -> RequestView {
        RequestView {
            method: self.method,
            url: self.url@,
            query: pair_views(self.query@),
            timeout: crate::error::opt_nanos(self.timeout),
        }
    }
}

impl RequestView {
    /// The request with one more name and value in its query.
    pub open spec fn with_query(self, name: Seq<char>, value: Seq<char>) -> RequestView {
        RequestView { query: self.query.push((name, value)), ..self }
    }
}

impl HttpRequest {
    /// A request without a query that may take as long as it likes.
    pub fn new(method: Method, url: String) -> (r: HttpRequest)
        ensures
            r@ == (RequestView { method, url: url@, query: Seq::empty(), timeout: None }),
    {
        let r = HttpRequest { method, url, query: Vec::new(), timeout: None };
        assert(r@.query =~= Seq::empty());
        r
    }

    /// Adds a name and a value to the query.
    pub fn query(&mut self, name: &str, value: &str)
        ensures
            final(self)@ == old(self)@.with_query(name@, value@),
    {
        self.query.push((name.to_owned(), value.to_owned()));
        assert(self@ =~= old(self)@.with_query(name@, value@));
    }
}

/// The outcome `r`, seen through the views of its values.
pub open spec fn request_result(r: Result<HttpRequest, Error>) -> Result<RequestView, ErrorView> {
    match r {
        Ok(request) => Ok(request@),
        Err(error) => Err(error@),
    }
}

/// The outcome `r`, seen through the views of its values.
pub open spec fn url_result(r: Result<String, Error>) -> Result<Seq<char>, ErrorView> {
    match r {
        Ok(url) => Ok(url@),
        Err(error) => Err(error@),
    }
}

/// The URL of a server: the text that it was given by, and its normal form.
#[derive(Debug, PartialEq, Eq)]
pub struct BaseUrl {
    pub given: String,
    pub text: String,
}

/// What a [`BaseUrl`] stands for.
pub ghost struct BaseUrlView {
    pub given: Seq<char>,
    pub text: Seq<char>,
}

impl View for BaseUrl {
    type V = BaseUrlView;

    open spec fn view(&self) -> BaseUrlView {
        BaseUrlView { given: self.given@, text: self.text@ }
    }
}

impl Clone for BaseUrl {
    fn clone(&self) -> (r: BaseUrl)
        ensures
            r@ == self@,
    {
        BaseUrl { given: self.given.clone(), text: self.text.clone() }
    }
}

/// The base URL that a text gives, where `parsed` is what the text parses to.
pub open spec fn base_outcome(given: Seq<char>, parsed: Result<Seq<char>, Seq<char>>) -> Result<
    BaseUrlView,
    ErrorView,
> {
    match parsed {
        Ok(text) => Ok(BaseUrlView { given, text }),
        Err(source) => Err(ErrorView::InvalidBaseUrl { url: given, source }),
    }
}

/// The outcome `r`, seen through the views of its values.
pub open spec fn base_result(r: Result<BaseUrl, Error>) -> Result<BaseUrlView, ErrorView> {
    match r {
        Ok(base) => Ok(base@),
        Err(error) => Err(error@),
    }
}

impl BaseUrl {
    /// The base URL that a text gives, where `parsed` is what the text parses to.
    pub fn from_parsed(given: &str, parsed: Result<String, String>) -> (r: Result<BaseUrl, Error>)
        ensures
            base_result(r) == base_outcome(given@, text_result(parsed)),
    {
        match parsed {
            Ok(text) => Ok(BaseUrl { given: given.to_owned(), text }),
            Err(source) => Err(Error::InvalidBaseUrl { url: given.to_owned(), source }),
        }
    }

    /// The base URL that a text gives. It has to be an absolute URL.
    pub fn parse(given: &str) -> (r: Result<BaseUrl, Error>)
        ensures
            base_result(r) == base_outcome(given@, url_parsed(given@)),
    {
        BaseUrl::from_parsed(given, parse_url(given))
    }
}

/// Where and how requests are sent.
#[derive(Debug)]
pub struct HttpTransport {
    base_url: BaseUrl,
    retry_policy: RetryPolicy,
    request_timeout: TimeSpan,
    user_agent: Option<String>,
}

/// What an [`HttpTransport`] stands for.
pub ghost struct TransportView {
    pub base: BaseUrlView,
    pub retry_policy: RetryPolicy,
    pub request_timeout: nat,
    pub user_agent: Option<Seq<char>>,
}

impl View for HttpTransport {
    type V = TransportView;

    closed spec fn view(&self) -> TransportView {
        TransportView {
            base: self.base_url@,
            retry_policy: self.retry_policy,
            request_timeout: self.request_timeout@,
            user_agent: opt_view(self.user_agent),
        }
    }
}

impl Clone for HttpTransport {
    fn clone(&self) -> (r: HttpTransport)
        ensures
            r@ == self@,
    {
        HttpTransport {
            base_url: self.base_url.clone(),
            retry_policy: self.retry_policy,
            request_timeout: self.request_timeout,
            user_agent: match &self.user_agent {
                Some(user_agent) => Some(user_agent.clone()),
                None => None,
            },
        }
    }
}

impl TransportView {
    /// The URL of the path on the server, where `joined` is what the base URL and the path join
    /// to.
    pub open spec fn url_outcome(self, path: Seq<char>, joined: Result<Seq<char>, Seq<char>>) -> Result<
        Seq<char>,
        ErrorView,
    > {
        match joined {
            Ok(url) => Ok(url),
            Err(source) => Err(
                ErrorView::InvalidBaseUrl { url: self.base.text + " + "@ + path, source },
            ),
        }
    }

    /// The request for the path that may take as long as it likes.
    pub open spec fn open_request(
        self,
        method: Method,
        path: Seq<char>,
        joined: Result<Seq<char>, Seq<char>>,
    ) -> Result<RequestView, ErrorView> {
        match self.url_outcome(path, joined) {
            Ok(url) => Ok(RequestView { method, url, query: Seq::empty(), timeout: None }),
            Err(error) => Err(error),
        }
    }

    /// The request for the path that has to be answered in time.
    pub open spec fn timed_request(
        self,
        method: Method,
        path: Seq<char>,
        joined: Result<Seq<char>, Seq<char>>,
    ) -> Result<RequestView, ErrorView> {
        match self.open_request(method, path, joined) {
            Ok(request) => Ok(RequestView { timeout: Some(self.request_timeout), ..request }),
            Err(error) => Err(error),
        }
    }

    /// The count of attempts before the first one has been answered.
    pub open spec fn first_attempt(self, operation: Seq<char>, path: Seq<char>, method: Method) -> AttemptsView {
        AttemptsView {
            operation,
            path,
            may_repeat: method.reads(),
            policy: self.retry_policy,
            attempt: 1,
        }
    }
}

impl HttpTransport {
    /// A transport to the server at `base_url`.
    pub fn new(base_url: BaseUrl, config: ClientConfig) -> (r: HttpTransport)
        ensures
            r@ == (TransportView {
                base: base_url@,
                retry_policy: config.retry_policy,
                request_timeout: config.request_timeout@,
                user_agent: opt_view(config.user_agent),
            }),
    {
        HttpTransport {
            base_url,
            retry_policy: config.retry_policy,
            request_timeout: config.request_timeout,
            user_agent: config.user_agent,
        }
    }

    /// How the client calls itself, if it does.
    pub fn user_agent(&self) -> (r: Option<&str>)
        ensures
            (match r {
                Some(text) => Some(text@),
                None => None,
            }) == self@.user_agent,
    {
        match &self.user_agent {
            Some(user_agent) => Some(user_agent.as_str()),
            None => None,
        }
    }

    /// The failure to set up the client that sends the requests.
    pub fn build_failure(&self, source: String) -> (r: Error)
        ensures
            r@ == (ErrorView::Transport {
                operation: "build-client"@,
                path: self@.base.text,
                source: source@,
            }),
    {
        Error::Transport { operation: "build-client", path: self.base_url.text.clone(), source }
    }

    /// The URL of the path on the server, where `joined` is what the base URL and the path join
    /// to.
    pub fn url_from_joined(&self, path: &str, joined: Result<String, String>) -> (r: Result<
        String,
        Error,
    >)
        ensures
            url_result(r) == self@.url_outcome(path@, text_result(joined)),
    {
        match joined {
            Ok(url) => Ok(url),
            Err(source) => Err(
                Error::InvalidBaseUrl {
                    url: concat3(self.base_url.text.as_str(), " + ", path),
                    source,
                },
            ),
        }
    }

    /// The URL of the path on the server.
    pub fn url_for(&self, path: &str) -> (r: Result<String, Error>)
        ensures
            url_result(r) == self@.url_outcome(path@, url_joined(self@.base.given, path@)),
    {
        let joined = join_url(self.base_url.given.as_str(), path);
        self.url_from_joined(path, joined)
    }

    /// A request for the path that may take as long as it likes.
    pub fn request(&self, method: Method, path: &str) -> (r: Result<HttpRequest, Error>)
        ensures
            request_result(r) == self@.open_request(
                method,
                path@,
                url_joined(self@.base.given, path@),
            ),
    {
        match self.url_for(path) {
            Ok(url) => Ok(HttpRequest::new(method, url)),
            Err(error) => Err(error),
        }
    }

    /// A request for the path that has to be answered in time.
    pub fn bounded_request(&self, method: Method, path: &str) -> (r: Result<HttpRequest, Error>)
        ensures
            request_result(r) == self@.timed_request(
                method,
                path@,
                url_joined(self@.base.given, path@),
            ),
    {
        match self.request(method, path) {
            Ok(request) => Ok(HttpRequest { timeout: Some(self.request_timeout), ..request }),
            Err(error) => Err(error),
        }
    }

    /// Starts to send a request, again where that may help. The attempts decide what follows on
    /// each answer.
    pub fn execute_with_retry(&self, operation: &'static str, path: &str, method: Method) -> (r:
        Attempts)
        ensures
            r@ == self@.first_attempt(operation@, path@, method),
    {
        Attempts {
            operation,
            path: path.to_owned(),
            may_repeat: matches!(method, Method::Get | Method::Head),
            policy: self.retry_policy,
            attempt: 1,
        }
    }
}

/// The reason for which a request could not be sent, or was not answered.
#[derive(Debug)]
pub struct SendFailure {
    pub timeout: bool,
    pub connect: bool,
    pub request: bool,
    pub source: String,
}

/// What a [`SendFailure`] stands for.
pub ghost struct SendFailureView {
    pub timeout: bool,
    pub connect: bool,
    pub request: bool,
    pub source: Seq<char>,
}

impl View for SendFailure {
    type V = SendFailureView;

    open spec fn view(&self) -> SendFailureView {
        SendFailureView {
            timeout: self.timeout,
            connect: self.connect,
            request: self.request,
            source: self.source@,
        }
    }
}

/// How long to wait before the next attempt: exactly as long as the server asks, or a share of
/// the policy's limit that is drawn at random.
#[derive(Debug, Clone, Copy)]
pub enum Delay {
    Exactly(TimeSpan),
    Jittered(TimeSpan),
}

/// What a [`Delay`] stands for, in nanoseconds.
pub ghost enum DelayView {
    Exactly(nat),
    Jittered(nat),
}

impl View for Delay {
    type V = DelayView;

    open spec fn view(&self) -> DelayView {
        match self {
            Delay::Exactly(span) => DelayView::Exactly(span@),
            Delay::Jittered(span) => DelayView::Jittered(span@),
        }
    }
}

/// What follows on an attempt that did not succeed.
#[derive(Debug)]
pub enum NextStep {
    Retry(Delay),
    Fail(Error),
}

/// What a [`NextStep`] stands for.
pub ghost enum StepView {
    Retry(DelayView),
    Fail(ErrorView),
}

impl View for NextStep {
    type V = StepView;

    open spec fn view(&self) -> StepView {
        match self {
            NextStep::Retry(delay) => StepView::Retry(delay@),
            NextStep::Fail(error) => StepView::Fail(error@),
        }
    }
}

/// The attempts to have one request answered.
#[derive(Debug)]
pub struct Attempts {
    operation: &'static str,
    path: String,
    may_repeat: bool,
    policy: RetryPolicy,
    attempt: usize,
}

/// What [`Attempts`] stand for; `attempt` is the number of the attempt that is under way.
pub ghost struct AttemptsView {
    pub operation: Seq<char>,
    pub path: Seq<char>,
    pub may_repeat: bool,
    pub policy: RetryPolicy,
    pub attempt: nat,
}

impl View for Attempts {
    type V = AttemptsView;

    closed spec fn view(&self) -> AttemptsView {
        AttemptsView {
            operation: self.operation@,
            path: self.path@,
            may_repeat: self.may_repeat,
            policy: self.policy,
            attempt: self.attempt as nat,
        }
    }
}

/// An answer that is no success.
pub ghost enum SetbackView {
    Rejected(HttpErrorView),
    Unsent(SendFailureView),
}

impl SetbackView {
    /// Whether the next attempt may succeed.
    pub open spec fn transient(self) -> bool {
        match self {
            SetbackView::Rejected(error) => error.kind.transient(),
            SetbackView::Unsent(failure) => failure.timeout || failure.connect || failure.request,
        }
    }
}

impl AttemptsView {
    /// Whether another attempt follows on the setback.
    pub open spec fn repeats(self, setback: SetbackView) -> bool {
        self.may_repeat && setback.transient() && self.attempt < self.policy.max_attempts
    }

    /// The attempts after the setback.
    pub open spec fn after(self, setback: SetbackView) -> AttemptsView {
        if self.repeats(setback) {
            AttemptsView { attempt: self.attempt + 1, ..self }
        } else {
            self
        }
    }

    /// What follows on the setback.
    pub open spec fn step(self, setback: SetbackView) -> StepView {
        if self.repeats(setback) {
            StepView::Retry(
                match setback {
                    SetbackView::Rejected(HttpErrorView { retry_after: Some(nanos), .. }) => {
                        DelayView::Exactly(nanos)
                    },
                    _ => DelayView::Jittered(self.policy.limit(self.attempt)),
                },
            )
        } else {
            StepView::Fail(
                match setback {
                    SetbackView::Rejected(error) => ErrorView::Http(error),
                    SetbackView::Unsent(failure) => ErrorView::Transport {
                        operation: self.operation,
                        path: self.path,
                        source: failure.source,
                    },
                },
            )
        }
    }

    /// Whether another attempt follows on each of the setbacks, one after the other.
    pub open spec fn repeats_all(self, setbacks: Seq<SetbackView>) -> bool
        decreases setbacks.len(),
    {
        setbacks.len() == 0 || (self.repeats(setbacks[0]) && self.after(setbacks[0]).repeats_all(
            setbacks.skip(1),
        ))
    }
}

impl Attempts {
    /// The number of the attempt that is under way; the first is one.
    pub fn number(&self) -> (r: usize)
        ensures
            r == self@.attempt,
    {
        self.attempt
    }

    /// Whether another attempt may follow on one that failed in a transient way.
    fn may_try_again(&self) -> (r: bool)
        ensures
            r == (self@.may_repeat && self@.attempt < self@.policy.max_attempts),
            r ==> self.attempt < usize::MAX,
    {
        self.may_repeat && self.attempt < self.policy.max_attempts
    }

    /// What follows on a response that is no success and amounts to `error`.
    pub fn rejected_with(&mut self, error: HttpError) -> (r: NextStep)
        ensures
            final(self)@ == old(self)@.after(SetbackView::Rejected(error@)),
            r@ == old(self)@.step(SetbackView::Rejected(error@)),
            r matches NextStep::Retry(Delay::Exactly(span)) ==> error.retry_after == Some(span),
            r matches NextStep::Retry(Delay::Jittered(_)) ==> error.retry_after is None,
            r is Retry <==> old(self)@.may_repeat && error.kind.transient() && old(self)@.attempt
                < old(self)@.policy.max_attempts,
            r matches NextStep::Fail(failure) ==> failure == Error::Http(error),
    {
        if error.is_retryable() && self.may_try_again() {
            let delay = match error.retry_after {
                Some(span) => Delay::Exactly(span),
                None => Delay::Jittered(self.policy.capped_backoff(self.attempt)),
            };
            self.attempt += 1;
            NextStep::Retry(delay)
        } else {
            NextStep::Fail(Error::Http(error))
        }
    }

    /// What follows on a response that is no success.
    pub fn rejected(&mut self, status: StatusCode, headers: &HeaderMap, body: &[u8]) -> (r:
        NextStep)
        ensures
            ({
                let error = http_failure(
                    old(self)@.operation,
                    old(self)@.path,
                    status@,
                    *headers,
                    utf8_lossy(body@),
                );
                &&& final(self)@ == old(self)@.after(SetbackView::Rejected(error))
                &&& r@ == old(self)@.step(SetbackView::Rejected(error))
            }),
            valid_utf8(body@) ==> {
                let error = http_failure(
                    old(self)@.operation,
                    old(self)@.path,
                    status@,
                    *headers,
                    decode_utf8(body@),
                );
                &&& final(self)@ == old(self)@.after(SetbackView::Rejected(error))
                &&& r@ == old(self)@.step(SetbackView::Rejected(error))
            },
    {
        let text = lossy_text(body);
        let error = http_error_with_text(
            self.operation,
            self.path.as_str(),
            status,
            headers,
            text.as_str(),
        );
        self.rejected_with(error)
    }

    /// What follows on a request that was not answered.
    pub fn unsent(&mut self, failure: SendFailure) -> (r: NextStep)
        ensures
            final(self)@ == old(self)@.after(SetbackView::Unsent(failure@)),
            r@ == old(self)@.step(SetbackView::Unsent(failure@)),
    {
        let transient = failure.timeout || failure.connect || failure.request;
        if transient && self.may_try_again() {
            let delay = Delay::Jittered(self.policy.capped_backoff(self.attempt));
            self.attempt += 1;
            NextStep::Retry(delay)
        } else {
            NextStep::Fail(
                Error::Transport {
                    operation: self.operation,
                    path: self.path.clone(),
                    source: failure.source,
                },
            )
        }
    }

    /// The failure to read the body of a response.
    pub fn body_lost(&self, source: String) -> (r: Error)
        ensures
            r@ == (ErrorView::Transport {
                operation: self@.operation,
                path: self@.path,
                source: source@,
            }),
    {
        Error::Transport { operation: self.operation, path: self.path.clone(), source }
    }
}

/// How often a request is sent at most.
pub open spec fn most_attempts(policy: RetryPolicy) -> nat {
    if policy.max_attempts == 0 {
        1
    } else {
        policy.max_attempts as nat
    }
}

/// A request is not sent more often than the policy says: however the attempts fail, the number
/// of those that another follows stays below that.
pub proof fn law_attempts_are_bounded(start: AttemptsView, setbacks: Seq<SetbackView>)
    requires
        start.attempt == 1,
        start.repeats_all(setbacks),
    ensures
        setbacks.len() + 1 <= most_attempts(start.policy),
{
    lemma_attempts_left(start, setbacks);
}

proof fn lemma_attempts_left(attempts: AttemptsView, setbacks: Seq<SetbackView>)
    requires
        attempts.repeats_all(setbacks),
    ensures
        setbacks.len() == 0 || attempts.attempt + setbacks.len() <= attempts.policy.max_attempts,
    decreases setbacks.len(),
{
    if setbacks.len() > 0 {
        lemma_attempts_left(attempts.after(setbacks[0]), setbacks.skip(1));
    }
}

/// A request that does more than read is sent once only.
pub proof fn law_only_reads_are_repeated(
    transport: TransportView,
    operation: Seq<char>,
    path: Seq<char>,
    method: Method,
    setback: SetbackView,
)
    requires
        !method.reads(),
    ensures
        transport.first_attempt(operation, path, method).step(setback) is Fail,
{
}

/// A failure that the next attempt would meet again is reported at once.
pub proof fn law_lasting_failures_are_final(attempts: AttemptsView, setback: SetbackView)
    requires
        !setback.transient(),
    ensures
        attempts.step(setback) is Fail,
        attempts.after(setback) == attempts,
{
}

} // verus!
