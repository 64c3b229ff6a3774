//! One proxied exchange: what is sent to the origin, and what is answered.

use crate::config::ValidatedConfig;
use crate::config::ValidatedModel;
use crate::error::ProxyHttpError;
use crate::headers::{declared_content_length, strip_hop_by_hop_headers, Fields};
use crate::metrics::Metrics;
use crate::uri::{parse_uri, Components, UriParts};
use axum::http::HeaderMap;
use vstd::prelude::*;
use vstd::string::StringExecFns;

verus! {

/// The head of a request as it reaches the gateway.
pub struct RequestHead {
    /// Path and query of the request target, where it has them.
    pub path_and_query: Option<String>,
    /// The header fields.
    pub headers: HeaderMap,
}

/// What the head of a request holds.
pub struct RequestModel {
    /// Path and query of the request target, where it has them.
    pub path_and_query: Option<Seq<char>>,
    /// The header fields.
    pub fields: Fields,
}

impl View for RequestHead {
    type V = RequestModel;

    open spec fn view(&self) -> RequestModel {
        RequestModel {
            path_and_query: crate::uri::optional_text(self.path_and_query),
            fields: crate::headers::header_fields(self.headers),
        }
    }
}

/// A request as it goes to the origin. The method, the version and the body
/// are those of the request that reached the gateway.
pub struct UpstreamRequest {
    /// The URI of the request.
    pub uri: String,
    /// The header fields.
    pub headers: HeaderMap,
    /// The most bytes of the body that may be read.
    pub body_limit: usize,
}

/// What a request to the origin holds.
pub struct UpstreamModel {
    /// The URI of the request.
    pub uri: Seq<char>,
    /// The header fields.
    pub fields: Fields,
    /// The most bytes of the body that may be read.
    pub body_limit: usize,
}

impl View for UpstreamRequest {
    type V = UpstreamModel;

    open spec fn view(&self) -> UpstreamModel {
        UpstreamModel {
            uri: self.uri@,
            fields: crate::headers::header_fields(self.headers),
            body_limit: self.body_limit,
        }
    }
}

/// Why the declared length of a request's body keeps it from the origin, if it
/// does.
pub open spec fn body_objection(config: ValidatedModel, fields: Fields) -> Option<ProxyHttpError> {
    match crate::headers::declared_length(fields) {
        Err(error) => Some(error),
        Ok(Some(length)) => if length > config.max_body_bytes {
            Some(ProxyHttpError::RequestBodyTooLarge)
        } else {
            None
        },
        Ok(None) => None,
    }
}

/// Where a request goes: the origin, with the target of the request.
pub open spec fn upstream_uri_text(config: ValidatedModel, path_and_query: Option<Seq<char>>) -> Seq<char> {
    config.origin_scheme + "://"@ + config.origin_authority + target_text(path_and_query)
}

/// The target of a request: its path and query, or the root without them.
pub open spec fn target_text(path_and_query: Option<Seq<char>>) -> Seq<char> {
    match path_and_query {
        Some(path_and_query) => path_and_query,
        None => "/"@,
    }
}

/// `uri` spells a URI of the origin.
pub open spec fn reaches_origin(config: ValidatedModel, uri: Seq<char>) -> bool {
    crate::uri::uri_components(uri) matches Some((_, authority, _)) && authority == Some(config.origin_authority)
}

/// `uri` spells the origin's scheme and authority, and the target of the request
/// as its path and query, where that target begins with a path or a query.
pub open spec fn keeps_target(config: ValidatedModel, request: RequestModel, uri: Seq<char>) -> bool {
    let target = target_text(request.path_and_query);
    crate::uri::is_rooted_target(target) ==> crate::uri::uri_components(uri) == Some(
        (Some(config.origin_scheme), Some(config.origin_authority), Some(target)),
    )
}

/// What becomes of a request that would go to `uri`, where `spelled` is what
/// that spells: the request that goes to the origin, or why none does. Nothing
/// goes to a URI of anyone but the origin.
pub open spec fn upstream(
    config: ValidatedModel,
    request: RequestModel,
    uri: Seq<char>,
    spelled: Option<Components>,
) -> Result<UpstreamModel, ProxyHttpError> {
    let of_origin = spelled matches Some((_, authority, _)) && authority == Some(config.origin_authority);
    match body_objection(config, request.fields) {
        Some(error) => Err(error),
        None => if of_origin {
            Ok(
                UpstreamModel {
                    uri,
                    fields: crate::headers::end_to_end(request.fields),
                    body_limit: config.max_body_bytes as usize,
                },
            )
        } else {
            Err(ProxyHttpError::InvalidUpstreamUri)
        },
    }
}

/// What becomes of a request to the origin.
pub open spec fn upstream_of(config: ValidatedModel, request: RequestModel) -> Result<UpstreamModel, ProxyHttpError> {
    let uri = upstream_uri_text(config, request.path_and_query);
    upstream(config, request, uri, crate::uri::uri_components(uri))
}

/// `result` is the outcome `expected`.
pub open spec fn builds_as(
    result: Result<UpstreamRequest, ProxyHttpError>,
    expected: Result<UpstreamModel, ProxyHttpError>,
) -> bool {
    match result {
        Ok(request) => expected == Ok::<UpstreamModel, ProxyHttpError>(request@),
        Err(error) => expected == Err::<UpstreamModel, ProxyHttpError>(error),
    }
}

/// The URI that a request to the origin goes to.
pub fn upstream_uri(config: &ValidatedConfig, path_and_query: &Option<String>) -> (uri: String)
    ensures
        uri@ == upstream_uri_text(config@, crate::uri::optional_text(*path_and_query)),
        uri@ == "http://"@ + config@.origin_authority + (match path_and_query {
            Some(path_and_query) => path_and_query@,
            None => "/"@,
        }),
        config@.is_sound(),
{
    proof {
        reveal_strlit("http");
        reveal_strlit("://");
        reveal_strlit("http://");
        assert("http"@ + "://"@ =~= "http://"@);
    }
    let mut uri = config.origin_scheme().to_owned();
    uri.append("://");
    uri.append(config.origin_authority());
    match path_and_query {
        Some(path_and_query) => uri.append(path_and_query.as_str()),
        None => uri.append("/"),
    }
    uri
}

/// Builds the request that goes to the origin, or tells why none does.
pub fn build_upstream_request(config: &ValidatedConfig, request: RequestHead) -> (result: Result<
    UpstreamRequest,
    ProxyHttpError,
>)
    ensures
        builds_as(result, upstream_of(config@, request@)),
        result matches Ok(sent) ==> reaches_origin(config@, sent.uri@),
        result matches Ok(sent) ==> keeps_target(config@, request@, sent.uri@),
        body_objection(config@, request@.fields) is None && !crate::uri::ends_authority(
            target_text(request@.path_and_query),
        ) ==> (result matches Err(error) && error == ProxyHttpError::InvalidUpstreamUri),
        result matches Ok(sent) ==> sent.uri@ == "http://"@ + config@.origin_authority + (match request.path_and_query {
            Some(target) => target@,
            None => "/"@,
        }),
        (result, request.path_and_query) matches (Ok(sent), Some(target)) ==> target@.len() > 0 && (target@[0] == '/'
            || target@[0] == '?') && !target@.contains('#') ==> crate::uri::uri_components(sent.uri@) == Some(
            (Some("http"@), Some(config@.origin_authority), Some(target@)),
        ),
{
    let uri = upstream_uri(config, &request.path_and_query);
    let parsed = parse_uri(uri.as_str());
    proof {
        let authority = config@.origin_authority;
        let target = target_text(request@.path_and_query);
        reveal_strlit("http");
        reveal_strlit("://");
        reveal_strlit("http://");
        assert("http"@ + "://"@ =~= "http://"@);
        assert(uri@ == "http://"@ + authority + target);
        if crate::uri::optional_parts(parsed) matches Some((_, Some(spelled), _)) && spelled == authority {
            let end = crate::uri::lemma_authority_end(target);
            assert(uri@ =~= "http://"@ + (authority + target.take(end)) + target.skip(end));
            assert(authority.len() == (authority + target.take(end)).len());
        }
    }
    build_parsed_request(config, request, uri, parsed)
}

/// Builds the request that goes to `uri`, where `parsed` is what `uri` spells.
/// A URI that is not the origin's is refused: a target such as `*` would run
/// into the authority and name another one.
pub fn build_parsed_request(
    config: &ValidatedConfig,
    request: RequestHead,
    uri: String,
    parsed: Option<UriParts>,
) -> (result: Result<UpstreamRequest, ProxyHttpError>)
    ensures
        builds_as(result, upstream(config@, request@, uri@, crate::uri::optional_parts(parsed))),
{
    match declared_content_length(&request.headers) {
        Err(error) => return Err(error),
        Ok(Some(length)) => {
            if length > config.max_body_bytes() {
                return Err(ProxyHttpError::RequestBodyTooLarge);
            }
        },
        Ok(None) => {},
    }
    let authority = match parsed {
        Some(UriParts { authority: Some(authority), .. }) => authority,
        _ => return Err(ProxyHttpError::InvalidUpstreamUri),
    };
    if authority != config.origin_authority().to_owned() {
        return Err(ProxyHttpError::InvalidUpstreamUri);
    }
    let mut headers = request.headers;
    strip_hop_by_hop_headers(&mut headers);
    Ok(UpstreamRequest { uri, headers, body_limit: config.max_body_bytes() as usize })
}

/// How far an exchange has come.
#[derive(Clone, Copy, Debug, PartialEq, Eq, Structural)]
pub enum ExchangePhase {
    /// No request has been read yet.
    AwaitingRequest,
    /// The request is with the origin.
    AwaitingUpstream,
    /// The client has its answer.
    Answered,
}

/// What happens to an exchange.
pub enum ExchangeEvent {
    /// The head of the client's request is here.
    Received(RequestHead),
    /// The head of the origin's response is here, with these header fields.
    Responded(HeaderMap),
    /// The request to the origin failed.
    UpstreamFailed,
    /// The origin did not respond within the configured time.
    UpstreamTimedOut,
}

/// What is to be done next for an exchange.
pub enum ExchangeAction {
    /// Send this request to the origin, and wait for the head of the response
    /// no longer than the configured time.
    SendUpstream(UpstreamRequest),
    /// Answer with the origin's response, with these header fields in place of
    /// its own.
    Relay(HeaderMap),
    /// Answer with the refusal for this error.
    Refuse(ProxyHttpError),
}

/// What an event holds.
pub enum EventModel {
    /// The head of the client's request.
    Received(RequestModel),
    /// The header fields of the origin's response.
    Responded(Fields),
    /// The request to the origin failed.
    UpstreamFailed,
    /// The origin did not respond within the configured time.
    UpstreamTimedOut,
}

/// What an action holds.
pub enum ActionModel {
    /// The request to send to the origin.
    SendUpstream(UpstreamModel),
    /// The header fields to answer with.
    Relay(Fields),
    /// The error to answer with.
    Refuse(ProxyHttpError),
}

impl View for ExchangeEvent {
    type V = EventModel;

    open spec fn view(&self) -> EventModel {
        match self {
            ExchangeEvent::Received(request) => EventModel::Received(request@),
            ExchangeEvent::Responded(headers) => EventModel::Responded(crate::headers::header_fields(*headers)),
            ExchangeEvent::UpstreamFailed => EventModel::UpstreamFailed,
            ExchangeEvent::UpstreamTimedOut => EventModel::UpstreamTimedOut,
        }
    }
}

impl View for ExchangeAction {
    type V = ActionModel;

    open spec fn view(&self) -> ActionModel {
        match self {
            ExchangeAction::SendUpstream(request) => ActionModel::SendUpstream(request@),
            ExchangeAction::Relay(headers) => ActionModel::Relay(crate::headers::header_fields(*headers)),
            ExchangeAction::Refuse(error) => ActionModel::Refuse(*error),
        }
    }
}

/// The event can happen in the phase.
pub open spec fn can_happen(phase: ExchangePhase, event: EventModel) -> bool {
    match event {
        EventModel::Received(_) => phase == ExchangePhase::AwaitingRequest,
        _ => phase == ExchangePhase::AwaitingUpstream,
    }
}

/// What an event leads to: the next phase, and what is to be done.
pub open spec fn exchange_step(config: ValidatedModel, event: EventModel) -> (ExchangePhase, ActionModel) {
    match event {
        EventModel::Received(request) => match upstream_of(config, request) {
            Ok(request) => (ExchangePhase::AwaitingUpstream, ActionModel::SendUpstream(request)),
            Err(error) => (ExchangePhase::Answered, ActionModel::Refuse(error)),
        },
        EventModel::Responded(fields) => (
            ExchangePhase::Answered,
            ActionModel::Relay(crate::headers::end_to_end(fields)),
        ),
        EventModel::UpstreamFailed => (ExchangePhase::Answered, ActionModel::Refuse(ProxyHttpError::Upstream)),
        EventModel::UpstreamTimedOut => (
            ExchangePhase::Answered,
            ActionModel::Refuse(ProxyHttpError::UpstreamTimeout),
        ),
    }
}

/// The counts of requests and of upstream errors after an event.
pub open spec fn counts_after(counts: (u64, u64), event: EventModel) -> (u64, u64) {
    match event {
        EventModel::Received(_) => (crate::metrics::counted(counts.0), counts.1),
        EventModel::Responded(_) => counts,
        EventModel::UpstreamFailed | EventModel::UpstreamTimedOut => (counts.0, crate::metrics::counted(counts.1)),
    }
}

/// Takes an exchange one step on: counts the event, and tells the next phase
/// and what is to be done.
pub fn proxy_request(
    config: &ValidatedConfig,
    metrics: &mut Metrics,
    phase: ExchangePhase,
    event: ExchangeEvent,
) -> (next: (ExchangePhase, ExchangeAction))
    requires
        can_happen(phase, event@),
    ensures
        (next.0, next.1@) == exchange_step(config@, event@),
        next.1 matches ExchangeAction::SendUpstream(sent) ==> reaches_origin(config@, sent.uri@),
        (event, next.1) matches (ExchangeEvent::Received(request), ExchangeAction::SendUpstream(sent))
            ==> keeps_target(config@, request@, sent.uri@),
        event matches ExchangeEvent::Received(request) ==> !crate::uri::ends_authority(
            target_text(request@.path_and_query),
        ) ==> next.1 is Refuse,
        (event, next.1) matches (ExchangeEvent::Received(request), ExchangeAction::SendUpstream(sent)) ==> sent.uri@
            == "http://"@ + config@.origin_authority + (match request.path_and_query {
            Some(target) => target@,
            None => "/"@,
        }),
        (event, next.1) matches (ExchangeEvent::Received(request), ExchangeAction::SendUpstream(sent)) ==> (
        request.path_and_query matches Some(target) ==> target@.len() > 0 && (target@[0] == '/' || target@[0] == '?')
            && !target@.contains('#') ==> crate::uri::uri_components(sent.uri@) == Some(
            (Some("http"@), Some(config@.origin_authority), Some(target@)),
        )),
        (final(metrics).requests(), final(metrics).upstream_errors()) == counts_after(
            (old(metrics).requests(), old(metrics).upstream_errors()),
            event@,
        ),
{
    match event {
        ExchangeEvent::Received(request) => {
            metrics.increment_requests_total();
            match build_upstream_request(config, request) {
                Ok(request) => (ExchangePhase::AwaitingUpstream, ExchangeAction::SendUpstream(request)),
                Err(error) => (ExchangePhase::Answered, ExchangeAction::Refuse(error)),
            }
        },
        ExchangeEvent::Responded(headers) => {
            let mut headers = headers;
            strip_hop_by_hop_headers(&mut headers);
            (ExchangePhase::Answered, ExchangeAction::Relay(headers))
        },
        ExchangeEvent::UpstreamFailed => {
            metrics.increment_upstream_errors_total();
            (ExchangePhase::Answered, ExchangeAction::Refuse(ProxyHttpError::Upstream))
        },
        ExchangeEvent::UpstreamTimedOut => {
            metrics.increment_upstream_errors_total();
            (ExchangePhase::Answered, ExchangeAction::Refuse(ProxyHttpError::UpstreamTimeout))
        },
    }
}

/// The phase that the events lead to from the start, `None` where one of them
/// cannot happen.
pub open spec fn phase_after(config: ValidatedModel, events: Seq<EventModel>) -> Option<ExchangePhase>
    decreases events.len(),
{
    if events.len() == 0 {
        Some(ExchangePhase::AwaitingRequest)
    } else {
        match phase_after(config, events.drop_last()) {
            Some(phase) => if can_happen(phase, events.last()) {
                Some(exchange_step(config, events.last()).0)
            } else {
                None
            },
            None => None,
        }
    }
}

/// What is done for each of the events.
pub open spec fn actions(config: ValidatedModel, events: Seq<EventModel>) -> Seq<ActionModel> {
    Seq::new(events.len(), |i: int| exchange_step(config, events[i]).1)
}

/// The counts after all the events.
pub open spec fn counts_after_all(counts: (u64, u64), events: Seq<EventModel>) -> (u64, u64)
    decreases events.len(),
{
    if events.len() == 0 {
        counts
    } else {
        counts_after(counts_after_all(counts, events.drop_last()), events.last())
    }
}

/// The shape of an exchange: a request, and then, if it went to the origin,
/// one outcome.
proof fn lemma_exchange_shape(config: ValidatedModel, events: Seq<EventModel>)
    requires
        phase_after(config, events) is Some,
    ensures
        events.len() <= 2,
        events.len() >= 1 ==> events[0] is Received,
        events.len() == 2 ==> exchange_step(config, events[0]).0 == ExchangePhase::AwaitingUpstream
            && !(events[1] is Received),
        events.len() == 0 ==> phase_after(config, events) == Some(ExchangePhase::AwaitingRequest),
        events.len() > 0 ==> phase_after(config, events) == Some(exchange_step(config, events.last()).0),
    decreases events.len(),
{
    if events.len() > 0 {
        lemma_exchange_shape(config, events.drop_last());
        if events.len() > 1 {
            assert(events.drop_last()[0] == events[0]);
            assert(events.drop_last().last() == events[events.len() - 2]);
        }
    }
}

/// One upstream request per proxied request: of two actions of an exchange, the
/// later one sends nothing to the origin. It is the answer to the request that
/// the earlier one sent, and the exchange is over with it.
pub proof fn one_upstream_request_and_one_answer(config: ValidatedModel, events: Seq<EventModel>, i: int, j: int)
    requires
        phase_after(config, events) is Some,
        0 <= i < j < events.len(),
    ensures
        !(actions(config, events)[j] is SendUpstream),
        actions(config, events)[i] is SendUpstream,
        phase_after(config, events) == Some(ExchangePhase::Answered),
{
    lemma_exchange_shape(config, events);
}

/// An exchange is over exactly when its last action is an answer: a relayed
/// response or a refusal.
pub proof fn exchange_ends_with_an_answer(config: ValidatedModel, events: Seq<EventModel>)
    requires
        phase_after(config, events) is Some,
    ensures
        phase_after(config, events) == Some(ExchangePhase::Answered) <==> events.len() > 0 && !(actions(
            config,
            events,
        ).last() is SendUpstream),
{
    lemma_exchange_shape(config, events);
}

/// An exchange that has begun counts as one request, and as one upstream error
/// exactly when the origin failed or was late; else the error count stays.
pub proof fn exchange_counts_once(config: ValidatedModel, events: Seq<EventModel>, counts: (u64, u64))
    requires
        phase_after(config, events) is Some,
        events.len() > 0,
    ensures
        counts_after_all(counts, events).0 == crate::metrics::counted(counts.0),
        counts_after_all(counts, events).1 == (if actions(config, events).last() == ActionModel::Refuse(
            ProxyHttpError::Upstream,
        ) || actions(config, events).last() == ActionModel::Refuse(ProxyHttpError::UpstreamTimeout) {
            crate::metrics::counted(counts.1)
        } else {
            counts.1
        }),
{
    lemma_exchange_shape(config, events);
    reveal_with_fuel(counts_after_all, 3);
    if events.len() == 2 {
        assert(events.drop_last().last() == events[0]);
    }
}

/// A request whose declared body is over the limit is refused before anything
/// goes to the origin. The refusal has the status 413, `Payload Too Large`, and
/// the registry code of an oversized body.
pub proof fn oversized_request_is_refused(config: ValidatedModel, request: RequestModel, length: u64)
    requires
        crate::headers::declared_length(request.fields) == Ok::<Option<u64>, ProxyHttpError>(Some(length)),
        length > config.max_body_bytes,
    ensures
        exchange_step(config, EventModel::Received(request)) == (
            ExchangePhase::Answered,
            ActionModel::Refuse(ProxyHttpError::RequestBodyTooLarge),
        ),
        ProxyHttpError::RequestBodyTooLarge.status_number() == 413,
        ProxyHttpError::RequestBodyTooLarge.status_phrase() == "Payload Too Large"@,
        ProxyHttpError::RequestBodyTooLarge.code_text() == "AJAR_GATEWAY_REQUEST_BODY_TOO_LARGE"@,
{
}

/// A request whose `content-length` is no number, or too large a number to
/// hold, is refused before anything goes to the origin, with the status 413.
pub proof fn unreadable_length_is_refused(config: ValidatedModel, request: RequestModel)
    requires
        crate::headers::declared_length(request.fields) is Err,
    ensures
        exchange_step(config, EventModel::Received(request)) == (
            ExchangePhase::Answered,
            ActionModel::Refuse(ProxyHttpError::InvalidContentLength),
        ),
        ProxyHttpError::InvalidContentLength.status_number() == 413,
        ProxyHttpError::InvalidContentLength.code_text() == "AJAR_GATEWAY_INVALID_CONTENT_LENGTH"@,
{
}

/// What goes to the origin keeps the budget and crosses the proxy clean: the
/// declared length, if any, is within the limit, the limit caps the body, the
/// connection's own fields are gone, and the URI, which is written as the origin
/// with the target of the request, spells the origin's authority.
pub proof fn sent_request_is_within_budget(config: ValidatedModel, request: RequestModel, sent: UpstreamModel)
    requires
        exchange_step(config, EventModel::Received(request)).1 == ActionModel::SendUpstream(sent),
    ensures
        crate::headers::declared_length(request.fields) matches Ok(Some(length)) ==> length <= config.max_body_bytes,
        crate::headers::declared_length(request.fields) is Ok,
        sent.body_limit == config.max_body_bytes as usize,
        sent.fields == crate::headers::end_to_end(request.fields),
        sent.uri == upstream_uri_text(config, request.path_and_query),
        reaches_origin(config, sent.uri),
{
}

/// No field that concerns one connection crosses the proxy, neither to the
/// origin nor to the client: not the fixed ones, none that begins with
/// `proxy-`, and none that the message itself nominates.
pub proof fn nothing_of_the_connection_crosses(config: ValidatedModel, event: EventModel, name: Seq<char>)
    requires
        crate::headers::fixed_hop_by_hop().contains(name) || crate::headers::is_proxy_name(name) || (match event {
            EventModel::Received(request) => crate::headers::is_hop_by_hop(request.fields, name),
            EventModel::Responded(fields) => crate::headers::is_hop_by_hop(fields, name),
            _ => false,
        }),
    ensures
        match exchange_step(config, event).1 {
            ActionModel::SendUpstream(sent) => !sent.fields.contains_key(name),
            ActionModel::Relay(fields) => !fields.contains_key(name),
            ActionModel::Refuse(_) => true,
        },
{
    match event {
        EventModel::Received(request) => {
            if !crate::headers::is_hop_by_hop(request.fields, name) {
                crate::headers::connection_fields_are_stripped(request.fields, name);
            }
        },
        EventModel::Responded(fields) => {
            if !crate::headers::is_hop_by_hop(fields, name) {
                crate::headers::connection_fields_are_stripped(fields, name);
            }
        },
        _ => {},
    }
}

/// A request whose upstream text does not spell a URI of the origin is refused
/// before anything is sent, with the status 502, unless its declared length
/// already keeps it back.
pub proof fn request_for_another_host_is_refused(config: ValidatedModel, request: RequestModel)
    requires
        body_objection(config, request.fields) is None,
        !reaches_origin(config, upstream_uri_text(config, request.path_and_query)),
    ensures
        exchange_step(config, EventModel::Received(request)) == (
            ExchangePhase::Answered,
            ActionModel::Refuse(ProxyHttpError::InvalidUpstreamUri),
        ),
        ProxyHttpError::InvalidUpstreamUri.status_number() == 502,
        ProxyHttpError::InvalidUpstreamUri.code_text() == "AJAR_GATEWAY_INVALID_UPSTREAM_URI"@,
{
}

/// Where a request goes, character by character: `http://`, the origin's
/// authority, and all of the request's own path and query, or `/` where it has
/// none.
pub proof fn request_keeps_its_path_and_query(config: ValidatedModel, target: Seq<char>)
    requires
        config.origin_scheme == "http"@,
    ensures
        upstream_uri_text(config, Some(target)) == seq!['h', 't', 't', 'p', ':', '/', '/'] + config.origin_authority
            + target,
        upstream_uri_text(config, None) == seq!['h', 't', 't', 'p', ':', '/', '/'] + config.origin_authority + seq![
            '/',
        ],
{
    reveal_strlit("http");
    reveal_strlit("://");
    reveal_strlit("/");
    assert("/"@ =~= seq!['/']);
    assert("http"@ + "://"@ =~= seq!['h', 't', 't', 'p', ':', '/', '/']);
}

/// Every target has an address of its own: requests that go to one URI have the
/// same path and query.
pub proof fn targets_are_not_confused(config: ValidatedModel, target: Seq<char>, other: Seq<char>)
    requires
        upstream_uri_text(config, Some(target)) == upstream_uri_text(config, Some(other)),
    ensures
        target == other,
{
    let start = config.origin_scheme + "://"@ + config.origin_authority;
    assert((start + target).skip(start.len() as int) =~= target);
    assert((start + other).skip(start.len() as int) =~= other);
}

/// `passed` are the fields of `fields` that do not concern the connection, each
/// with all its values.
pub open spec fn are_passed_on(passed: Fields, fields: Fields) -> bool {
    forall|name: Seq<char>|
        {
            &&& #[trigger] passed.contains_key(name) <==> {
                &&& fields.contains_key(name)
                &&& !crate::headers::is_connection_field(name)
                &&& !crate::headers::starts_with_proxy(name)
                &&& !crate::headers::lists_in_connection(fields, name)
            }
            &&& passed.contains_key(name) ==> passed[name] == fields[name]
        }
}

/// Stripping passes on the fields that do not concern the connection.
proof fn lemma_stripping_passes_on(fields: Fields)
    ensures
        are_passed_on(crate::headers::end_to_end(fields), fields),
{
    let passed = crate::headers::end_to_end(fields);
    assert forall|name: Seq<char>|
        {
            &&& #[trigger] passed.contains_key(name) <==> {
                &&& fields.contains_key(name)
                &&& !crate::headers::is_connection_field(name)
                &&& !crate::headers::starts_with_proxy(name)
                &&& !crate::headers::lists_in_connection(fields, name)
            }
            &&& passed.contains_key(name) ==> passed[name] == fields[name]
        } by {
        crate::headers::every_other_field_passes_whole(fields, name);
    }
}

/// A response of the origin is relayed, whatever it holds: the client gets
/// exactly its fields that do not concern the connection, each with all its
/// values, and the exchange is over.
pub proof fn every_response_is_relayed(
    config: ValidatedModel,
    response: HeaderMap,
    phase: ExchangePhase,
    action: ExchangeAction,
)
    requires
        (phase, action@) == exchange_step(config, ExchangeEvent::Responded(response)@),
    ensures
        phase == ExchangePhase::Answered,
        action matches ExchangeAction::Relay(relayed) && are_passed_on(
            crate::headers::header_fields(relayed),
            crate::headers::header_fields(response),
        ),
{
    lemma_stripping_passes_on(crate::headers::header_fields(response));
}

/// A request goes to the origin unless something keeps it back: where it
/// declares no length, or one of at most the limit, and `http://`, the origin's
/// authority and its target together spell the origin's authority, it is sent
/// there, with the fields that do not concern the connection, each with all its
/// values, and with the limit on its body.
pub proof fn acceptable_request_is_sent(
    config: ValidatedModel,
    request: RequestHead,
    uri: Seq<char>,
    phase: ExchangePhase,
    action: ExchangeAction,
)
    requires
        config.origin_scheme == "http"@,
        (phase, action@) == exchange_step(config, ExchangeEvent::Received(request)@),
        uri == seq!['h', 't', 't', 'p', ':', '/', '/'] + config.origin_authority + (match request.path_and_query {
            Some(target) => target@,
            None => seq!['/'],
        }),
        ({
            ||| crate::headers::declared_length(crate::headers::header_fields(request.headers)) matches Ok(None)
            ||| crate::headers::declared_length(crate::headers::header_fields(request.headers)) matches Ok(Some(length))
                && length <= config.max_body_bytes
        }),
        crate::uri::uri_components(uri) matches Some((_, Some(authority), _)) && authority == config.origin_authority,
    ensures
        phase == ExchangePhase::AwaitingUpstream,
        action matches ExchangeAction::SendUpstream(sent) && {
            &&& sent.uri@ == uri
            &&& are_passed_on(
                crate::headers::header_fields(sent.headers),
                crate::headers::header_fields(request.headers),
            )
            &&& config.max_body_bytes <= usize::MAX ==> sent.body_limit == config.max_body_bytes
        },
{
    lemma_stripping_passes_on(crate::headers::header_fields(request.headers));
    match request.path_and_query {
        Some(target) => request_keeps_its_path_and_query(config, target@),
        None => request_keeps_its_path_and_query(config, seq![]),
    }
}

/// A refusal is the answer to a request that was kept back, to a failure of the
/// origin or to its lateness, and to nothing else: an unreadable length, a length
/// above the limit, or a target that takes the request to another authority
/// keeps a request back, the first of these that holds.
pub proof fn nothing_else_is_refused(
    config: ValidatedModel,
    event: ExchangeEvent,
    phase: ExchangePhase,
    action: ExchangeAction,
    error: ProxyHttpError,
)
    requires
        config.origin_scheme == "http"@,
        (phase, action@) == exchange_step(config, event@),
    ensures
        action == ExchangeAction::Refuse(error) <==> match event {
            ExchangeEvent::Received(request) => {
                let length = crate::headers::declared_length(crate::headers::header_fields(request.headers));
                let uri = seq!['h', 't', 't', 'p', ':', '/', '/'] + config.origin_authority + (
                match request.path_and_query {
                    Some(target) => target@,
                    None => seq!['/'],
                });
                let too_large = length matches Ok(Some(length)) && length > config.max_body_bytes;
                let to_origin = crate::uri::uri_components(uri) matches Some((_, Some(authority), _)) && authority
                    == config.origin_authority;
                ||| length is Err && error == ProxyHttpError::InvalidContentLength
                ||| too_large && error == ProxyHttpError::RequestBodyTooLarge
                ||| length is Ok && !too_large && !to_origin && error == ProxyHttpError::InvalidUpstreamUri
            },
            ExchangeEvent::Responded(_) => false,
            ExchangeEvent::UpstreamFailed => error == ProxyHttpError::Upstream,
            ExchangeEvent::UpstreamTimedOut => error == ProxyHttpError::UpstreamTimeout,
        },
        action is Refuse ==> phase == ExchangePhase::Answered,
{
    if let ExchangeEvent::Received(request) = event {
        lemma_length_error(crate::headers::header_fields(request.headers));
        match request.path_and_query {
            Some(target) => request_keeps_its_path_and_query(config, target@),
            None => request_keeps_its_path_and_query(config, seq![]),
        }
    }
}

/// A length that cannot be read is refused as such.
proof fn lemma_length_error(fields: Fields)
    ensures
        crate::headers::declared_length(fields) matches Err(error) ==> error == ProxyHttpError::InvalidContentLength,
{
}

/// What is built from what a URI spells: a request within the limit whose URI
/// spells the origin's authority is built, with that URI, and any other is
/// refused for the first reason that holds.
pub proof fn request_is_built_or_refused(
    config: ValidatedModel,
    request: RequestHead,
    uri: Seq<char>,
    spelled: Option<Components>,
    result: Result<UpstreamRequest, ProxyHttpError>,
)
    requires
        builds_as(result, upstream(config, request@, uri, spelled)),
    ensures
        ({
            let length = crate::headers::declared_length(crate::headers::header_fields(request.headers));
            let too_large = length matches Ok(Some(length)) && length > config.max_body_bytes;
            let to_origin = spelled matches Some((_, Some(authority), _)) && authority == config.origin_authority;
            match result {
                Ok(sent) => {
                    &&& length is Ok && !too_large && to_origin
                    &&& sent.uri@ == uri
                    &&& are_passed_on(
                        crate::headers::header_fields(sent.headers),
                        crate::headers::header_fields(request.headers),
                    )
                    &&& config.max_body_bytes <= usize::MAX ==> sent.body_limit == config.max_body_bytes
                },
                Err(ProxyHttpError::InvalidContentLength) => length is Err,
                Err(ProxyHttpError::RequestBodyTooLarge) => too_large,
                Err(ProxyHttpError::InvalidUpstreamUri) => length is Ok && !too_large && !to_origin,
                Err(_) => false,
            }
        }),
{
    lemma_length_error(crate::headers::header_fields(request.headers));
    lemma_stripping_passes_on(crate::headers::header_fields(request.headers));
}

/// A request begins an exchange, and a response, a failure or lateness of the
/// origin follows where a request was sent, and at no other time.
pub proof fn events_have_their_time(phase: ExchangePhase, event: ExchangeEvent)
    ensures
        can_happen(phase, event@) <==> match event {
            ExchangeEvent::Received(_) => phase == ExchangePhase::AwaitingRequest,
            ExchangeEvent::Responded(_) => phase == ExchangePhase::AwaitingUpstream,
            ExchangeEvent::UpstreamFailed => phase == ExchangePhase::AwaitingUpstream,
            ExchangeEvent::UpstreamTimedOut => phase == ExchangePhase::AwaitingUpstream,
        },
{
}

/// How many of the events are requests received.
pub open spec fn requests_in(events: Seq<EventModel>) -> nat
    decreases events.len(),
{
    if events.len() == 0 {
        0
    } else {
        requests_in(events.drop_last()) + (if events.last() is Received {
            1nat
        } else {
            0nat
        })
    }
}

/// How many of the events are failures of the origin, or its lateness.
pub open spec fn upstream_errors_in(events: Seq<EventModel>) -> nat
    decreases events.len(),
{
    if events.len() == 0 {
        0
    } else {
        upstream_errors_in(events.drop_last()) + (if events.last() is UpstreamFailed || events.last()
            is UpstreamTimedOut {
            1nat
        } else {
            0nat
        })
    }
}

/// The counters count: over any events, in any order, from whatever exchanges,
/// the counters go up by how many requests were received, and by how many times
/// the origin failed or was late, each modulo the counter's range.
pub proof fn counters_count_events(counts: (u64, u64), events: Seq<EventModel>)
    ensures
        counts_after_all(counts, events).0 == (counts.0 + requests_in(events)) % 0x1_0000_0000_0000_0000,
        counts_after_all(counts, events).1 == (counts.1 + upstream_errors_in(events)) % 0x1_0000_0000_0000_0000,
    decreases events.len(),
{
    if events.len() > 0 {
        let earlier = events.drop_last();
        counters_count_events(counts, earlier);
        let before = counts_after_all(counts, earlier);
        crate::metrics::lemma_counted_is_one_more(before.0, counts.0 + requests_in(earlier));
        crate::metrics::lemma_counted_is_one_more(before.1, counts.1 + upstream_errors_in(earlier));
    }
}

/// The events of a run, without the exchanges that they belong to.
pub open spec fn all_events(run: Seq<(int, EventModel)>) -> Seq<EventModel> {
    Seq::new(run.len(), |i: int| run[i].1)
}

/// Of the events of a run, those of the exchange `id`, in order.
pub open spec fn events_of(run: Seq<(int, EventModel)>, id: int) -> Seq<EventModel>
    decreases run.len(),
{
    if run.len() == 0 {
        Seq::empty()
    } else if run.last().0 == id {
        events_of(run.drop_last(), id).push(run.last().1)
    } else {
        events_of(run.drop_last(), id)
    }
}

/// A run of exchanges that go on side by side, their events interleaved in
/// whatever way: the events of each exchange can happen one after the other.
pub open spec fn is_run(config: ValidatedModel, run: Seq<(int, EventModel)>) -> bool {
    forall|id: int| phase_after(config, #[trigger] events_of(run, id)) is Some
}

/// The exchanges of a run.
pub open spec fn exchanges(run: Seq<(int, EventModel)>) -> Set<int> {
    Set::new(|id: int| events_of(run, id).len() > 0)
}

/// The exchanges of a run that ended in a failure of the origin, or in its
/// lateness.
pub open spec fn failed_exchanges(config: ValidatedModel, run: Seq<(int, EventModel)>) -> Set<int> {
    Set::new(
        |id: int|
            events_of(run, id).len() > 0 && ({
                let answer = actions(config, events_of(run, id)).last();
                answer == ActionModel::Refuse(ProxyHttpError::Upstream) || answer == ActionModel::Refuse(
                    ProxyHttpError::UpstreamTimeout,
                )
            }),
    )
}

/// A run counts its exchanges: each has one request, and one upstream error
/// where it ended in one.
proof fn lemma_run_counts(config: ValidatedModel, run: Seq<(int, EventModel)>)
    requires
        is_run(config, run),
    ensures
        exchanges(run).finite(),
        failed_exchanges(config, run).finite(),
        exchanges(run).len() == requests_in(all_events(run)),
        failed_exchanges(config, run).len() == upstream_errors_in(all_events(run)),
    decreases run.len(),
{
    if run.len() == 0 {
        assert(exchanges(run) =~= Set::empty());
        assert(failed_exchanges(config, run) =~= Set::empty());
    } else {
        let shorter = run.drop_last();
        let (id, event) = run.last();
        assert(all_events(run).drop_last() =~= all_events(shorter));
        assert forall|other: int| phase_after(config, #[trigger] events_of(shorter, other)) is Some by {
            assert(phase_after(config, events_of(run, other)) is Some);
            if other == id {
                assert(events_of(run, id).drop_last() =~= events_of(shorter, id));
            }
        }
        lemma_run_counts(config, shorter);
        let before = events_of(shorter, id);
        let after = events_of(run, id);
        assert(phase_after(config, before) is Some && phase_after(config, after) is Some);
        lemma_exchange_shape(config, before);
        lemma_exchange_shape(config, after);
        assert(after[0] == (if before.len() == 0 {
            event
        } else {
            before[0]
        }));
        assert(exchanges(run) =~= exchanges(shorter).insert(id));
        if event is UpstreamFailed || event is UpstreamTimedOut {
            assert(!failed_exchanges(config, shorter).contains(id));
            assert(failed_exchanges(config, run) =~= failed_exchanges(config, shorter).insert(id));
        } else {
            assert(!failed_exchanges(config, shorter).contains(id));
            assert(failed_exchanges(config, run) =~= failed_exchanges(config, shorter));
        }
    }
}

/// The metrics page of a run tells how many exchanges there were: counters that
/// start at zero show the number of exchanges, and the number of those that
/// ended in a failure of the origin or in its lateness, however the exchanges
/// were interleaved.
pub proof fn metrics_page_counts_exchanges(config: ValidatedModel, run: Seq<(int, EventModel)>)
    requires
        is_run(config, run),
    ensures
        ({
            let counts = counts_after_all((0, 0), all_events(run));
            let handled = exchanges(run).len();
            let failed = failed_exchanges(config, run).len();
            &&& exchanges(run).finite()
            &&& failed_exchanges(config, run).finite()
            &&& counts.0 == handled % 0x1_0000_0000_0000_0000
            &&& counts.1 == failed % 0x1_0000_0000_0000_0000
            &&& handled <= u64::MAX && failed <= u64::MAX ==> crate::metrics::metrics_text(counts.0, counts.1)
                == crate::metrics::metrics_text(handled as u64, failed as u64)
        }),
{
    lemma_run_counts(config, run);
    counters_count_events((0, 0), all_events(run));
}

} // verus!
