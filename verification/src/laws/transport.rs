//! What holds of requests, and of the attempts to have them answered.
use crate::client::{client_outcome, default_policy, ClientConfig};
use crate::error::ErrorView;
use crate::laws::headers::{law_classes_of_statuses, law_transient_classes};
use crate::protocol::headers::{http_failure, retry_after_nanos};
use crate::retry::{backoff_limit, RetryPolicy};
use crate::text::opt_view;
use crate::time::longest;
use crate::transport::{
    base_outcome, AttemptsView, BaseUrlView, DelayView, Method, RequestView, SendFailureView,
    SetbackView, StepView, TransportView,
};
use reqwest::header::HeaderMap;
use vstd::arithmetic::power2::{lemma_pow2_strictly_increases, pow2};
use vstd::prelude::*;
use vstd::string::*;

verus! {

/// Another attempt follows on a response that is no success exactly where the request only reads,
/// the status is one of a busy, failing or unavailable server, and an attempt is left. The wait is
/// then exactly the one that the response names, for each of these statuses; only where it names
/// none the backoff of the policy is used. Else the response is the failure.
pub proof fn law_responses_are_followed_up(
    attempts: AttemptsView,
    operation: Seq<char>,
    path: Seq<char>,
    status: u16,
    headers: HeaderMap,
    body: Seq<char>,
)
    ensures
        ({
            let error = http_failure(operation, path, status, headers, body);
            let setback = SetbackView::Rejected(error);
            let step = attempts.step(setback);
            let again = attempts.may_repeat && (status == 429 || status == 500 || status == 503)
                && attempts.attempt < attempts.policy.max_attempts;
            &&& again <==> step is Retry
            &&& again && retry_after_nanos(headers) is Some ==> step == StepView::Retry(
                DelayView::Exactly(retry_after_nanos(headers)->0),
            )
            &&& again && retry_after_nanos(headers) is None ==> step == StepView::Retry(
                DelayView::Jittered(attempts.policy.limit(attempts.attempt)),
            )
            &&& !again ==> step == StepView::Fail(ErrorView::Http(error))
            &&& attempts.after(setback).attempt == attempts.attempt + if again {
                1nat
            } else {
                0nat
            }
        }),
{
    let error = http_failure(operation, path, status, headers, body);
    law_classes_of_statuses(status, crate::text::trimmed(body), error.stream_closed);
    law_transient_classes(error.kind);
}

/// Whatever the failed response, and however it was classified: where another attempt follows,
/// the wait that it names is kept to the nanosecond.
pub proof fn law_named_wait_is_kept(attempts: AttemptsView, error: crate::error::HttpErrorView)
    ensures
        attempts.step(SetbackView::Rejected(error)) matches StepView::Retry(delay) ==> match delay {
            DelayView::Exactly(nanos) => error.retry_after is Some && nanos == error.retry_after->0,
            DelayView::Jittered(limit) => error.retry_after is None && limit
                == attempts.policy.limit(attempts.attempt),
        },
        attempts.step(SetbackView::Rejected(error)) matches StepView::Fail(failure) ==> failure
            == ErrorView::Http(error),
{
}

/// Another attempt follows on a request that was not answered exactly where it only reads, timed
/// out, could not connect or could not be sent, and an attempt is left. Else the failure is
/// reported with what was asked for and the reason.
pub proof fn law_lost_requests_are_followed_up(attempts: AttemptsView, failure: SendFailureView)
    ensures
        ({
            let setback = SetbackView::Unsent(failure);
            let step = attempts.step(setback);
            let again = attempts.may_repeat && (failure.timeout || failure.connect
                || failure.request) && attempts.attempt < attempts.policy.max_attempts;
            &&& again ==> step == StepView::Retry(
                DelayView::Jittered(attempts.policy.limit(attempts.attempt)),
            )
            &&& !again ==> step == StepView::Fail(
                ErrorView::Transport {
                    operation: attempts.operation,
                    path: attempts.path,
                    source: failure.source,
                },
            )
            &&& attempts.after(setback).attempt == attempts.attempt + if again {
                1nat
            } else {
                0nat
            }
        }),
{
}

/// A setback changes nothing about the attempts but their number.
pub proof fn law_attempts_stay_with_their_request(attempts: AttemptsView, setback: SetbackView)
    ensures
        ({
            let next = attempts.after(setback);
            &&& next.operation == attempts.operation
            &&& next.path == attempts.path
            &&& next.may_repeat == attempts.may_repeat
            &&& next.policy == attempts.policy
        }),
{
}

/// The first attempt is number one. Only requests that get or that ask for the head may be
/// repeated.
pub proof fn law_first_attempt(
    transport: TransportView,
    operation: Seq<char>,
    path: Seq<char>,
    method: Method,
)
    ensures
        ({
            let attempts = transport.first_attempt(operation, path, method);
            &&& attempts.attempt == 1
            &&& attempts.operation == operation
            &&& attempts.path == path
            &&& attempts.policy == transport.retry_policy
            &&& attempts.may_repeat <==> method == Method::Get || method == Method::Head
        }),
{
}

/// The backoff is the first wait doubled once for each attempt after the first, but no more than
/// the largest wait.
pub proof fn law_backoff(policy: RetryPolicy, attempt: nat)
    requires
        1 <= attempt <= 32,
        policy.initial_backoff@ * pow2((attempt - 1) as nat) <= longest(),
    ensures
        ({
            let wait = policy.initial_backoff@ * pow2((attempt - 1) as nat);
            &&& wait <= policy.max_backoff@ ==> policy.limit(attempt) == wait
            &&& wait >= policy.max_backoff@ ==> policy.limit(attempt) == policy.max_backoff@
        }),
{
    vstd::arithmetic::power2::lemma2_to64();
    if attempt < 32 {
        lemma_pow2_strictly_increases((attempt - 1) as nat, 31);
    }
    assert(pow2((attempt - 1) as nat) <= u32::MAX);
}

/// From the thirty-third attempt on the factor stays the largest 32-bit number, and an attempt
/// without a number waits as the first does.
pub proof fn law_late_backoff(initial: nat, max: nat, attempt: nat)
    ensures
        attempt > 32 && initial * 0xffff_ffff <= longest() ==> {
            let wait = initial * 0xffff_ffff;
            &&& wait <= max ==> backoff_limit(initial, max, attempt) == wait
            &&& wait >= max ==> backoff_limit(initial, max, attempt) == max
        },
        backoff_limit(initial, max, 0) == backoff_limit(initial, max, 1),
{
    vstd::arithmetic::power2::lemma2_to64();
    if attempt > 33 {
        lemma_pow2_strictly_increases(32, (attempt - 1) as nat);
    }
}

/// The first wait is the initial one, or the largest where that is shorter.
pub proof fn law_first_backoff(initial: nat, max: nat)
    requires
        initial <= longest(),
    ensures
        initial <= max ==> backoff_limit(initial, max, 1) == initial,
        initial >= max ==> backoff_limit(initial, max, 1) == max,
{
    vstd::arithmetic::power2::lemma2_to64();
    assert(initial * 1 == initial);
}

/// A request goes to the URL that the base and the path join to, with the method that it was made
/// with and an empty query. Where they do not join, the failure names both.
pub proof fn law_requests_go_where_the_path_leads(
    transport: TransportView,
    method: Method,
    path: Seq<char>,
    joined: Result<Seq<char>, Seq<char>>,
)
    ensures
        match joined {
            Ok(url) => {
                &&& transport.url_outcome(path, joined) == Ok::<Seq<char>, ErrorView>(url)
                &&& transport.open_request(method, path, joined) == Ok::<RequestView, ErrorView>(
                    RequestView { method, url, query: Seq::empty(), timeout: None },
                )
                &&& transport.timed_request(method, path, joined) == Ok::<RequestView, ErrorView>(
                    RequestView {
                        method,
                        url,
                        query: Seq::empty(),
                        timeout: Some(transport.request_timeout),
                    },
                )
            },
            Err(source) => {
                let error = ErrorView::InvalidBaseUrl {
                    url: transport.base.text + " + "@ + path,
                    source,
                };
                &&& transport.url_outcome(path, joined) == Err::<Seq<char>, ErrorView>(error)
                &&& transport.open_request(method, path, joined) == Err::<RequestView, ErrorView>(
                    error,
                )
                &&& transport.timed_request(method, path, joined) == Err::<RequestView, ErrorView>(
                    error,
                )
            },
        },
{
}

/// A name and a value in a query stand behind those before them.
pub proof fn law_query_grows_at_its_end(request: RequestView, name: Seq<char>, value: Seq<char>)
    ensures
        ({
            let next = request.with_query(name, value);
            &&& next.query.len() == request.query.len() + 1
            &&& next.query.last() == (name, value)
            &&& next.query.drop_last() == request.query
            &&& next.method == request.method && next.url == request.url && next.timeout
                == request.timeout
        }),
{
    assert(request.with_query(name, value).query.drop_last() =~= request.query);
}

/// A client talks to the server that its URL names, in the way that its configuration says. A
/// text that is no URL is refused, with the text and the reason.
pub proof fn law_client_is_as_configured(
    base_url: Seq<char>,
    parsed: Result<Seq<char>, Seq<char>>,
    config: ClientConfig,
)
    ensures
        match parsed {
            Ok(text) => {
                &&& base_outcome(base_url, parsed) == Ok::<BaseUrlView, ErrorView>(
                    BaseUrlView { given: base_url, text },
                )
                &&& client_outcome(base_url, parsed, config) matches Ok(client) && {
                    &&& client.base.given == base_url
                    &&& client.base.text == text
                    &&& client.retry_policy == config.retry_policy
                    &&& client.request_timeout == config.request_timeout@
                    &&& client.user_agent == opt_view(config.user_agent)
                }
            },
            Err(source) => client_outcome(base_url, parsed, config) == Err::<
                TransportView,
                ErrorView,
            >(ErrorView::InvalidBaseUrl { url: base_url, source }),
        },
{
}

/// By default a request is sent four times at most, with waits from a tenth of a second up to two
/// seconds between.
pub proof fn law_default_policy(policy: RetryPolicy)
    requires
        default_policy(policy),
    ensures
        policy.max_attempts == 4,
        policy.limit(1) == 100_000_000,
        policy.limit(2) == 200_000_000,
        policy.limit(3) == 400_000_000,
        policy.max_backoff@ == 2_000_000_000,
{
    vstd::arithmetic::power2::lemma2_to64();
    law_backoff(policy, 1);
    law_backoff(policy, 2);
    law_backoff(policy, 3);
}

} // verus!
