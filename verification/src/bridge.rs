//! One request through a listener: what happens before the dispatch
//! callback is called, and what is made of its answer.

use vstd::prelude::*;
use vstd::string::StringExecFns;
use http::header::HeaderMap;
use http::header::HeaderValue;
use crate::cors::cors_filter;
use crate::cors::CorsPlan;
use crate::error::Error;
use crate::headers::convert_request_headers;
use crate::headers::convert_response_headers;
use crate::headers::distinct_names;
use crate::headers::fields_map;
use crate::headers::in_lower_case;
use crate::headers::incoming;
use crate::headers::lemma_put_values;
use crate::headers::named;
use crate::headers::offered;
use crate::headers::outgoing;
use crate::headers::put_values;
use crate::headers::sendable;
use crate::headers::stopped;
use crate::headers::untouched;
use crate::headers::HeaderFields;
use crate::lifecycle::next;
use crate::lifecycle::Action;
use crate::lifecycle::Event;
use crate::lifecycle::Lifecycle;
use crate::lifecycle::Phase;
use crate::settings::bad_method_text;
use crate::settings::ServiceSettings;
use crate::text::same_text;
use crate::wire::is_field_name;
use crate::wire::is_name_char;
use crate::wire::lowercase;
use crate::wire::no_fields;
use crate::wire::parse_name;
use crate::wire::parse_value;
use crate::wire::parses_as_status;
use crate::wire::sure_room;
use crate::wire::to_uppercase;
use crate::wire::uppercase;
use crate::wire::values_of;
use crate::wire::wire_append;
use crate::wire::wire_count;
use crate::wire::wire_empty;
use crate::wire::wire_fields;

verus! {

/// The status of a request that read-only mode turns away.
pub const METHOD_NOT_ALLOWED: u16 = 405;

/// The status of a response when the dispatch callback failed or answered
/// with a status that is none.
pub const INTERNAL_SERVER_ERROR: u16 = 500;

/// A request as the dispatch callback receives it.
#[derive(Debug)]
pub struct Request {
    /// The method, in capital letters.
    pub method: String,
    /// The path, without the query.
    pub path: String,
    /// The query as it was sent; empty if there was none.
    pub query_string: String,
    pub header: HeaderFields,
    pub body: Vec<u8>,
}

/// A response as the dispatch callback returns it.
#[derive(Debug)]
pub struct Response {
    pub status_code: u16,
    pub header: HeaderFields,
    pub body: Vec<u8>,
}

/// A response as it is written to the connection.
#[derive(Debug)]
pub struct WireResponse {
    pub status: u16,
    pub headers: HeaderMap<HeaderValue>,
    pub body: Vec<u8>,
    /// Whether `headers` took every header that was offered to it.
    pub complete: bool,
}

/// What to do with a request that came in.
#[derive(Debug)]
pub enum Admission {
    /// Hand this request to the dispatch callback.
    Dispatch(Request),
    /// Answer with this response; the dispatch callback is not called.
    Reject(WireResponse),
}

/// A method that reads only: GET or HEAD, as written.
pub open spec fn reads_only(method: Seq<char>) -> bool {
    method == "GET"@ || method == "HEAD"@
}

/// Whether the method is GET or HEAD.
pub fn is_read_method(method: &str) -> (r: bool)
    ensures
        r == reads_only(method@),
{
    same_text(method, "GET") || same_text(method, "HEAD")
}

/// The query that the dispatch callback sees: the one that was sent, or
/// the empty text.
pub open spec fn query_text(query: Option<String>) -> Seq<char> {
    match query {
        Some(q) => q@,
        None => Seq::empty(),
    }
}

/// A listener with these settings turns the method away.
pub open spec fn turned_away(settings: &ServiceSettings, method: Seq<char>) -> bool {
    settings.read_only() && !reads_only(method)
}

/// Decides what happens to a request before any dispatch.
///
/// In read-only mode a method other than GET and HEAD is answered with 405,
/// without headers or body, and the dispatch callback is not called. Any
/// other request is prepared for the callback: the method in capital
/// letters, the path and the body as they are, the query or the empty text,
/// and the headers as `convert_request_headers` gives them.
pub fn receive(
    settings: &ServiceSettings,
    method: &str,
    path: &str,
    query: Option<String>,
    headers: &HeaderMap<HeaderValue>,
    body: Vec<u8>,
) -> (r: Admission)
    ensures
        turned_away(settings, method@) ==> r is Reject && r->Reject_0.status == METHOD_NOT_ALLOWED
            && r->Reject_0.body@.len() == 0 && wire_fields(r->Reject_0.headers) == no_fields()
            && r->Reject_0.complete,
        !turned_away(settings, method@) ==> r is Dispatch && r->Dispatch_0.method@ == uppercase(
            method@,
        ) && r->Dispatch_0.path@ == path@ && r->Dispatch_0.query_string@ == query_text(query)
            && r->Dispatch_0.body@ == body@ && fields_map(r->Dispatch_0.header@) == incoming(
            wire_fields(*headers),
        ) && distinct_names(r->Dispatch_0.header@) && in_lower_case(r->Dispatch_0.header@),
{
    let read_only: bool = match settings.readonly_mode {
        Some(on) => on,
        None => false,
    };
    if read_only && !is_read_method(method) {
        return Admission::Reject(
            WireResponse {
                status: METHOD_NOT_ALLOWED,
                headers: wire_empty(),
                body: Vec::new(),
                complete: true,
            },
        );
    }
    let query_string: String = match query {
        Some(q) => q,
        None => String::new(),
    };
    Admission::Dispatch(
        Request {
            method: to_uppercase(method),
            path: String::from_str(path),
            query_string,
            header: convert_request_headers(headers),
            body,
        },
    )
}

/// In read-only mode POST, PUT, DELETE and PATCH are turned away, and GET
/// and HEAD are not.
pub proof fn lemma_read_only_methods(settings: &ServiceSettings)
    requires
        settings.read_only(),
    ensures
        turned_away(settings, "POST"@),
        turned_away(settings, "PUT"@),
        turned_away(settings, "DELETE"@),
        turned_away(settings, "PATCH"@),
        !turned_away(settings, "GET"@),
        !turned_away(settings, "HEAD"@),
{
    reveal_strlit("GET");
    reveal_strlit("HEAD");
    reveal_strlit("POST");
    reveal_strlit("PUT");
    reveal_strlit("DELETE");
    reveal_strlit("PATCH");
    assert("POST"@[0] != "GET"@[0] && "POST"@[0] != "HEAD"@[0]);
    assert("PUT"@[0] != "GET"@[0] && "PUT"@[0] != "HEAD"@[0]);
    assert("DELETE"@[0] != "GET"@[0] && "DELETE"@[0] != "HEAD"@[0]);
    assert("PATCH"@[0] != "GET"@[0] && "PATCH"@[0] != "HEAD"@[0]);
}

/// Without read-only mode no method is turned away.
pub proof fn lemma_nothing_turned_away(settings: &ServiceSettings, method: Seq<char>)
    requires
        !settings.read_only(),
    ensures
        !turned_away(settings, method),
{
}

/// A status outside 100 to 599 is seen as 500, and one inside as it is.
pub proof fn lemma_seen_status(code: u16)
    ensures
        100 <= seen_status(code) <= 599,
        100 <= code <= 599 ==> seen_status(code) == code,
        !(100 <= code <= 599) ==> seen_status(code) == INTERNAL_SERVER_ERROR,
{
}

/// The response that stands for a dispatch that failed or timed out:
/// status 500, no headers, no body.
pub fn dispatch_failed() -> (r: Response)
    ensures
        r.status_code == INTERNAL_SERVER_ERROR,
        r.header@.len() == 0,
        r.body@.len() == 0,
{
    Response { status_code: INTERNAL_SERVER_ERROR, header: HeaderFields::new(), body: Vec::new() }
}

/// The response to go on with after the dispatch: the one that the callback
/// returned, or that of a failed dispatch if it returned none.
pub fn settle(outcome: Option<Response>) -> (r: Response)
    ensures
        outcome matches Some(answer) ==> r == answer,
        outcome is None ==> r.status_code == INTERNAL_SERVER_ERROR && r.header@.len() == 0
            && r.body@.len() == 0,
{
    match outcome {
        Some(answer) => answer,
        None => dispatch_failed(),
    }
}

/// The status that a client sees for the status that the callback gave:
/// the same from 100 to 599, and 500 for any other.
pub open spec fn seen_status(code: u16) -> u16 {
    if 100 <= code <= 599 {
        code
    } else {
        INTERNAL_SERVER_ERROR
    }
}

/// Replaces a status that is none by 500.
pub fn coerce_status(code: u16) -> (r: u16)
    ensures
        r == seen_status(code),
{
    if parses_as_status(code) && code <= 599 {
        code
    } else {
        INTERNAL_SERVER_ERROR
    }
}

/// The values of the `Cache-Control` header that the settings ask for.
pub open spec fn cache_control_values(settings: &ServiceSettings) -> Seq<Seq<char>> {
    match settings.cache_control {
        Some(v) => seq![v@],
        None => Seq::empty(),
    }
}

/// The headers of a response before those of the callback are written:
/// `Cache-Control` with the configured value, if one is configured and can
/// be sent.
pub open spec fn first_headers(settings: &ServiceSettings) -> Map<Seq<char>, Seq<Seq<u8>>> {
    put_values(no_fields(), lowercase("Cache-Control"@), cache_control_values(settings))
}

/// The headers of the response to a request that was dispatched.
pub open spec fn response_headers(settings: &ServiceSettings, answer: Response) -> Map<
    Seq<char>,
    Seq<Seq<u8>>,
> {
    outgoing(first_headers(settings), answer.header@)
}

/// Before the headers of the callback are written, a response holds the
/// configured `Cache-Control`, if there is one that can be sent, and no
/// other header.
pub proof fn lemma_first_headers(settings: &ServiceSettings, other: Seq<char>)
    ensures
        values_of(first_headers(settings), lowercase("Cache-Control"@)) == sendable(
            cache_control_values(settings),
        ),
        other != lowercase("Cache-Control"@) ==> !first_headers(settings).dom().contains(other),
{
    let name = lowercase("Cache-Control"@);
    let values = cache_control_values(settings);
    lemma_put_values(no_fields(), name, values);
    assert(values_of(no_fields(), name) + sendable(values) =~= sendable(values));
    if other != name {
        assert(first_headers(settings).remove(name).dom().contains(other) == first_headers(
            settings,
        ).dom().contains(other));
    }
}

proof fn lemma_cache_control_is_a_name()
    ensures
        is_field_name("Cache-Control"@),
{
    reveal_strlit("Cache-Control");
    let s = "Cache-Control"@;
    assert(s.len() == 13);
    assert(is_name_char(s[0]) && is_name_char(s[1]) && is_name_char(s[2]) && is_name_char(s[3]));
    assert(is_name_char(s[4]) && is_name_char(s[5]) && is_name_char(s[6]) && is_name_char(s[7]));
    assert(is_name_char(s[8]) && is_name_char(s[9]) && is_name_char(s[10]) && is_name_char(s[11]));
    assert(is_name_char(s[12]));
}

/// Starts the headers of a response with the configured `Cache-Control`.
fn start_headers(settings: &ServiceSettings) -> (headers: HeaderMap<HeaderValue>)
    ensures
        wire_fields(headers) == first_headers(settings),
        wire_count(headers) <= 1,
{
    let mut headers: HeaderMap<HeaderValue> = wire_empty();
    proof {
        lemma_cache_control_is_a_name();
    }
    match &settings.cache_control {
        Some(v) => {
            assert(seq![v@].drop_last() =~= Seq::<Seq<char>>::empty());
            assert(seq![v@].last() == v@);
            assert(put_values(
                no_fields(),
                lowercase("Cache-Control"@),
                Seq::<Seq<char>>::empty(),
            ) == no_fields());
            match parse_name("Cache-Control") {
                Some(name) => {
                    match parse_value(v.clone()) {
                        Some(value) => {
                            wire_append(&mut headers, &name, value);
                        },
                        None => {},
                    }
                },
                None => {},
            }
        },
        None => {},
    }
    headers
}

/// Makes the response that is written to the connection from the one that
/// the dispatch callback returned.
///
/// The status is kept from 100 to 599 and is 500 otherwise. The headers
/// start with the configured `Cache-Control`, then those of the callback
/// are written over them as `convert_response_headers` does. The body is
/// the callback's.
///
/// `complete` says whether the wire took every header. It does for any
/// response that offers fewer values than a header map is sure to have room
/// for. Where it did not, the headers are those written up to the value
/// that was refused. A name that no field of the callback touches holds
/// what it held at the start in either case.
pub fn respond(settings: &ServiceSettings, answer: Response) -> (r: WireResponse)
    ensures
        r.status == seen_status(answer.status_code),
        r.body@ == answer.body@,
        r.complete ==> wire_fields(r.headers) == response_headers(settings, answer),
        !r.complete ==> stopped(first_headers(settings), answer.header@, wire_fields(r.headers)),
        offered(answer.header@) < sure_room() ==> r.complete,
        forall|name: Seq<char>|
            !(#[trigger] named(answer.header@, name)) ==> untouched(
                first_headers(settings),
                wire_fields(r.headers),
                name,
            ),
{
    let status: u16 = coerce_status(answer.status_code);
    let mut headers: HeaderMap<HeaderValue> = start_headers(settings);
    let complete: bool = convert_response_headers(answer.header, &mut headers);
    WireResponse { status, headers, body: answer.body, complete }
}

/// How a listener takes connections.
#[derive(Debug)]
pub enum Listener {
    /// Without encryption.
    Plain,
    /// With TLS, from these two files.
    Tls { cert_file: String, priv_key_file: String },
}

/// What starting a listener takes.
#[derive(Debug)]
pub struct StartPlan {
    /// The address to bind, as `host:port`.
    pub address: String,
    /// How long to wait for the dispatch callback, in milliseconds.
    pub timeout_ms: Option<u64>,
    pub cors: CorsPlan,
    pub listener: Listener,
}

/// The message for settings without an address.
pub open spec fn no_address_text() -> Seq<char> {
    "no address to listen on"@
}

impl StartPlan {
    /// The plan is the one that the settings ask for.
    pub open spec fn made_from(&self, settings: &ServiceSettings) -> bool {
        &&& settings.address matches Some(a) && self.address@ == a@
        &&& self.timeout_ms == settings.timeout_ms
        &&& self.cors.made_from(settings)
        &&& if settings.tls.set() {
            self.listener matches Listener::Tls { cert_file, priv_key_file } && cert_file@
                == settings.tls.cert_file->0@ && priv_key_file@ == settings.tls.priv_key_file->0@
        } else {
            self.listener is Plain
        }
    }
}

/// Plans the start of a listener, before anything is bound.
///
/// Without an address there is no start. Nor is there with a CORS method
/// that HTTP does not define, which is reported by name. Otherwise the
/// listener uses TLS if both of its files are configured, and takes plain
/// connections if not.
pub fn start_plan(settings: &ServiceSettings) -> (r: Result<StartPlan, Error>)
    ensures
        r is Ok <==> settings.address is Some && settings.methods_ok(),
        r matches Ok(plan) ==> plan.made_from(settings),
        settings.address is None ==> r is Err && r->Err_0.is_init(no_address_text()),
        settings.address is Some && !settings.methods_ok() ==> r is Err
            && r->Err_0.is_invalid_parameter(bad_method_text(settings.bad_method())),
{
    let address: String = match &settings.address {
        Some(a) => a.clone(),
        None => {
            return Err(Error::Init(String::from_str("no address to listen on")));
        },
    };
    let cors: CorsPlan = match cors_filter(settings) {
        Ok(plan) => plan,
        Err(e) => {
            return Err(e);
        },
    };
    let listener: Listener = if settings.tls.is_set() {
        match (&settings.tls.cert_file, &settings.tls.priv_key_file) {
            (Some(cert), Some(key)) => Listener::Tls {
                cert_file: cert.clone(),
                priv_key_file: key.clone(),
            },
            _ => Listener::Plain,
        }
    } else {
        Listener::Plain
    };
    Ok(StartPlan { address, timeout_ms: settings.timeout_ms, cors, listener })
}

/// One listener without its socket: the settings it was made with, and
/// where it is in its life. The program around it binds the socket, calls
/// the dispatch callback, and reports what happened.
#[derive(Debug)]
pub struct HttpServerCore {
    pub settings: ServiceSettings,
    /// The lattice that the tenant belongs to; handed to the callback.
    pub lattice_id: String,
    pub state: Lifecycle,
}

impl HttpServerCore {
    /// A listener with these settings, not started yet.
    pub fn new(settings: ServiceSettings, lattice_id: String) -> (r: Self)
        ensures
            r.settings == settings,
            r.lattice_id == lattice_id,
            r.state == (Lifecycle { phase: Phase::Starting, stop_pending: false }),
    {
        HttpServerCore { settings, lattice_id, state: Lifecycle::new() }
    }

    /// Plans the start of the listener: see `start_plan`. Nothing is bound
    /// and the state stays as it is; the outcome of the bind comes in as an
    /// event.
    pub fn start(&self) -> (r: Result<StartPlan, Error>)
        ensures
            r is Ok <==> self.settings.address is Some && self.settings.methods_ok(),
            r matches Ok(plan) ==> plan.made_from(&self.settings),
            self.settings.address is None ==> r is Err && r->Err_0.is_init(no_address_text()),
            self.settings.address is Some && !self.settings.methods_ok() ==> r is Err
                && r->Err_0.is_invalid_parameter(bad_method_text(self.settings.bad_method())),
    {
        start_plan(&self.settings)
    }

    /// Takes an event in the life of the listener and says what to do.
    pub fn on_event(&mut self, event: Event) -> (action: Action)
        ensures
            final(self).state == next(old(self).state, event).0,
            action == next(old(self).state, event).1,
            final(self).settings == old(self).settings,
            final(self).lattice_id == old(self).lattice_id,
    {
        self.state.on_event(event)
    }

    /// Asks the listener to shut down. This may be done at any time and any
    /// number of times: only the first request of a running listener asks
    /// anything of it, namely to take no more connections.
    pub fn begin_shutdown(&mut self) -> (action: Action)
        ensures
            final(self).state == next(old(self).state, Event::ShutdownRequested).0,
            action == next(old(self).state, Event::ShutdownRequested).1,
            final(self).settings == old(self).settings,
            final(self).lattice_id == old(self).lattice_id,
    {
        self.state.on_event(Event::ShutdownRequested)
    }

    /// How long to wait for the dispatch callback, in milliseconds; `None`
    /// to wait without end.
    pub fn timeout_ms(&self) -> (r: Option<u64>)
        ensures
            r == self.settings.timeout_ms,
    {
        self.settings.timeout_ms
    }
}

} // verus!
