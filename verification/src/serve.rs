//! Which answer each request gets, and how the server is set up.
use serde_json::Value;
use vstd::prelude::*;
use vstd::string::*;

use crate::http::{read_path, write_response};
use crate::json::to_json;
use crate::metrics::Metrics;
use crate::prometheus::to_prometheus;
use crate::soc::SocInfo;
use crate::text::{push_decimal, same_text};

verus! {

/// The content type of the JSON answers.
pub const JSON_TYPE: &'static str = "application/json";

/// The content type of the Prometheus answer.
pub const PROMETHEUS_TYPE: &'static str = "text/plain; version=0.0.4; charset=utf-8";

/// A page that needs a measurement.
#[derive(Debug, Clone, Copy, PartialEq, Eq, Structural)]
pub enum Endpoint {
    Json,
    Prometheus,
    Unknown,
}

/// What to do with a connection.
#[derive(Debug)]
pub enum Connection {
    /// Close it unanswered.
    Close,
    /// Send this response.
    Reply(String),
    /// Look up the latest measurement and answer with `reply`.
    Measure(Endpoint),
}

/// The page that a path names.
pub open spec fn endpoint_of(path: Seq<char>) -> Endpoint {
    if path == "/json"@ {
        Endpoint::Json
    } else if path == "/metrics"@ {
        Endpoint::Prometheus
    } else {
        Endpoint::Unknown
    }
}

/// The path that the bytes of a request ask for.
pub open spec fn path_in(request: Seq<u8>) -> Option<Seq<char>> {
    if vstd::utf8::valid_utf8(request) {
        crate::http::request_path(vstd::utf8::decode_utf8(request))
    } else {
        None
    }
}

/// Decides on a connection by the bytes that arrived first. The root page is
/// answered whether or not there is a measurement.
pub fn handle_conn(request: &[u8]) -> (r: Connection)
    ensures
        match path_in(request@) {
            None => r is Close,
            Some(path) => if path == "/"@ {
                r matches Connection::Reply(text) && text@ == crate::http::response_text(
                    200,
                    JSON_TYPE@,
                    "{}"@,
                )
            } else {
                r == Connection::Measure(endpoint_of(path))
            },
        },
{
    let path = match read_path(request) {
        Some(path) => path,
        None => return Connection::Close,
    };
    if same_text(path.as_str(), "/") {
        return Connection::Reply(write_response(200, JSON_TYPE, "{}"));
    }
    if same_text(path.as_str(), "/json") {
        Connection::Measure(Endpoint::Json)
    } else if same_text(path.as_str(), "/metrics") {
        Connection::Measure(Endpoint::Prometheus)
    } else {
        Connection::Measure(Endpoint::Unknown)
    }
}

/// The bytes of a well-formed request ask for its target up to the query,
/// whatever the method, the version and what follows the first line.
pub proof fn request_bytes_give_path(
    method: Seq<char>,
    target: Seq<char>,
    version: Seq<char>,
    rest: Seq<char>,
)
    requires
        method.len() > 0,
        crate::http::is_word(method),
        target.len() > 0,
        crate::http::is_word(target),
        !version.contains('\n'),
    ensures
        path_in(
            vstd::utf8::encode_utf8(method + " "@ + target + " "@ + version + "\r\n"@ + rest),
        ) == Some(crate::http::without_query(target)),
{
    let text = method + " "@ + target + " "@ + version + "\r\n"@ + rest;
    vstd::utf8::encode_utf8_valid_utf8(text);
    vstd::utf8::encode_utf8_decode_utf8(text);
    crate::http::request_line_gives_path(method, target, version, rest);
}

/// The latest measurement, its real-number readings as JSON values and as
/// texts.
pub struct Latest {
    pub json: Metrics<Value>,
    pub text: Metrics<String>,
}

/// Answers a request for a page, given the latest measurement if there is one.
pub fn reply(endpoint: Endpoint, latest: Option<Latest>, soc: &SocInfo) -> (r: String)
    ensures
        match (latest, endpoint) {
            (None, _) => r@ == crate::http::response_text(
                503,
                JSON_TYPE@,
                "{\"error\":\"no data yet\"}"@,
            ),
            (Some(m), Endpoint::Json) => exists|time: Seq<char>|
                crate::json::clock_text(time) && r@ == crate::http::response_text(
                    200,
                    JSON_TYPE@,
                    crate::json::text_or_empty(#[trigger] crate::json::document(m.json, *soc, time)),
                ),
            (Some(m), Endpoint::Prometheus) => r@ == crate::http::response_text(
                200,
                PROMETHEUS_TYPE@,
                crate::prometheus::prometheus_text(m.text, soc.chip_name@),
            ),
            (Some(_), Endpoint::Unknown) => r@ == crate::http::response_text(
                404,
                JSON_TYPE@,
                "{\"error\":\"not found\"}"@,
            ),
        },
{
    let m = match latest {
        Some(m) => m,
        None => return write_response(503, JSON_TYPE, "{\"error\":\"no data yet\"}"),
    };
    match endpoint {
        Endpoint::Json => {
            let body = to_json(m.json, soc);
            write_response(200, JSON_TYPE, body.as_str())
        },
        Endpoint::Prometheus => {
            let body = to_prometheus(&m.text, soc);
            write_response(200, PROMETHEUS_TYPE, body.as_str())
        },
        Endpoint::Unknown => write_response(404, JSON_TYPE, "{\"error\":\"not found\"}"),
    }
}

/// How the server is set up.
#[derive(Debug)]
pub struct ServerPlan {
    /// The address to listen on.
    pub address: String,
    /// What to report once it listens.
    pub banner: Vec<String>,
}

/// Sets the server up on a port, on all interfaces.
pub fn run(port: u16) -> (r: ServerPlan)
    ensures
        r.address@ == "0.0.0.0:"@ + crate::text::decimal(port as nat),
        r.banner@.len() == 3,
        r.banner@[0]@ == "macmon serving on http://localhost:"@ + crate::text::decimal(port as nat),
        r.banner@[1]@ == "  GET /json    → JSON metrics"@,
        r.banner@[2]@ == "  GET /metrics → Prometheus format"@,
{
    let mut address = "0.0.0.0:".to_owned();
    push_decimal(&mut address, port as u64);
    let mut first = "macmon serving on http://localhost:".to_owned();
    push_decimal(&mut first, port as u64);
    let banner = vec![
        first,
        "  GET /json    → JSON metrics".to_owned(),
        "  GET /metrics → Prometheus format".to_owned(),
    ];
    ServerPlan { address, banner }
}

/// Whether a text is a response of this status, in digits and words, with this
/// JSON body.
pub open spec fn answers(text: Seq<char>, status: nat, words: Seq<char>, body: Seq<char>) -> bool {
    text == "HTTP/1.1 "@ + crate::text::decimal(status) + " "@ + words + "\r\nContent-Type: "@
        + "application/json"@ + "\r\nContent-Length: "@ + crate::text::decimal(
        vstd::utf8::encode_utf8(body).len(),
    ) + "\r\nConnection: close\r\n\r\n"@ + body
}

/// A request reaches the page that its path names, whatever its method, query
/// and version: `/` is answered at once with an empty object, and `/json`,
/// `/metrics` and every other path are answered by the latest measurement.
pub proof fn requests_reach_the_page_named(
    method: Seq<char>,
    path: Seq<char>,
    query: Seq<char>,
    version: Seq<char>,
    rest: Seq<char>,
    request: &[u8],
    r: Connection,
)
    requires
        method.len() > 0,
        crate::http::is_word(method),
        crate::http::is_word(path),
        !path.contains('?'),
        crate::http::is_word(query),
        query.len() > 0 ==> query[0] == '?',
        path.len() + query.len() > 0,
        !version.contains('\n'),
        request@ == vstd::utf8::encode_utf8(
            method + " "@ + (path + query) + " "@ + version + "\r\n"@ + rest,
        ),
        call_ensures(handle_conn, (request,), r),
    ensures
        path == "/"@ ==> (r matches Connection::Reply(text) && answers(
            text@,
            200,
            "OK"@,
            "{}"@,
        )),
        path == "/json"@ ==> r == Connection::Measure(Endpoint::Json),
        path == "/metrics"@ ==> r == Connection::Measure(Endpoint::Prometheus),
        path != "/"@ && path != "/json"@ && path != "/metrics"@ ==> r == Connection::Measure(
            Endpoint::Unknown,
        ),
{
    reveal_strlit("/");
    reveal_strlit("/json");
    reveal_strlit("/metrics");
    assert("/json"@[1] == 'j' && "/metrics"@[1] == 'm');
    let target = path + query;
    assert(crate::http::is_word(target)) by {
        assert forall|i: int| 0 <= i < target.len() implies !crate::http::white(
            #[trigger] target[i],
        ) by {
            if i < path.len() {
                assert(!crate::http::white(path[i]));
            } else {
                assert(!crate::http::white(query[i - path.len()]));
            }
        }
    }
    request_bytes_give_path(method, target, version, rest);
    let tail = query.drop_first();
    crate::http::query_is_left_out(path, tail);
    reveal_strlit("?");
    if query.len() > 0 {
        assert(path + "?"@ + tail =~= target);
    } else {
        assert(target =~= path);
    }
    assert(crate::http::without_query(target) == path);
}

/// A request whose first line has less than two words, or that is no text, is
/// closed unanswered.
pub proof fn unreadable_requests_are_closed(
    before: Seq<char>,
    word: Seq<char>,
    after: Seq<char>,
    rest: Seq<char>,
    request: &[u8],
    r: Connection,
)
    requires
        crate::http::is_gap(before),
        crate::http::is_word(word),
        crate::http::is_gap(after),
        vstd::utf8::valid_utf8(request@) ==> crate::http::opens_with(
            vstd::utf8::decode_utf8(request@),
            before + word + after,
            rest,
        ),
        call_ensures(handle_conn, (request,), r),
    ensures
        r is Close,
{
    if vstd::utf8::valid_utf8(request@) {
        crate::http::no_path_in_one_word(
            before,
            word,
            after,
            rest,
            vstd::utf8::decode_utf8(request@),
        );
    }
}

/// Before the first measurement every page is unavailable; after it, the pages
/// that are not known are not found.
pub proof fn pages_tell_what_is_missing(
    endpoint: Endpoint,
    latest: Option<Latest>,
    soc: &SocInfo,
    r: String,
)
    requires
        call_ensures(reply, (endpoint, latest, soc), r),
    ensures
        latest is None ==> answers(
            r@,
            503,
            "Service Unavailable"@,
            "{\"error\":\"no data yet\"}"@,
        ),
        latest is Some && endpoint is Unknown ==> answers(
            r@,
            404,
            "Not Found"@,
            "{\"error\":\"not found\"}"@,
        ),
{
}

/// The JSON page is the document of the latest measurement, of the chip and of a
/// time that the clock gave; the Prometheus page is its text form.
pub proof fn pages_show_the_latest_measurement(
    m: Latest,
    soc: &SocInfo,
    json: String,
    text: String,
    shown: String,
)
    requires
        call_ensures(reply, (Endpoint::Json, Some(m), soc), json),
        call_ensures(reply, (Endpoint::Prometheus, Some(m), soc), text),
        call_ensures(to_prometheus, (&m.text, soc), shown),
    ensures
        exists|time: Seq<char>, body: Seq<char>|
            {
                &&& crate::json::clock_text(time)
                &&& crate::json::json_text(
                    #[trigger] crate::json::document(m.json, *soc, time),
                ) matches Some(doc) ==> body == doc
                &&& #[trigger] answers(json@, 200, "OK"@, body)
            },
        text@ == "HTTP/1.1 "@ + crate::text::decimal(200) + " "@ + "OK"@ + "\r\nContent-Type: "@
            + "text/plain; version=0.0.4; charset=utf-8"@ + "\r\nContent-Length: "@
            + crate::text::decimal(vstd::utf8::encode_utf8(shown@).len())
            + "\r\nConnection: close\r\n\r\n"@ + shown@,
{
    let time = choose|time: Seq<char>|
        crate::json::clock_text(time) && json@ == crate::http::response_text(
            200,
            JSON_TYPE@,
            crate::json::text_or_empty(#[trigger] crate::json::document(m.json, *soc, time)),
        );
    let body = crate::json::text_or_empty(crate::json::document(m.json, *soc, time));
    assert(answers(json@, 200, "OK"@, body));
}

/// The server listens on the port that it was given, on all interfaces, and
/// tells that port; different ports are different addresses.
pub proof fn server_listens_on_its_port(port: u16, r: ServerPlan, other: u16, s: ServerPlan)
    requires
        call_ensures(run, (port,), r),
        call_ensures(run, (other,), s),
    ensures
        exists|digits: Seq<char>|
            {
                &&& #[trigger] crate::text::decimal_value(digits) == port
                &&& r.address@ == "0.0.0.0:"@ + digits
                &&& r.banner@[0]@ == "macmon serving on http://localhost:"@ + digits
            },
        r.banner@.len() == 3,
        r.banner@[1]@ == "  GET /json    → JSON metrics"@,
        r.banner@[2]@ == "  GET /metrics → Prometheus format"@,
        r.address@ == s.address@ ==> port == other,
{
    let (x, y) = (crate::text::decimal(port as nat), crate::text::decimal(other as nat));
    crate::text::decimal_reads_back(port as nat);
    crate::text::decimals_differ(port as nat, other as nat);
    assert(crate::text::decimal_value(x) == port);
    if r.address@ == s.address@ {
        let n = "0.0.0.0:"@.len() as int;
        assert(r.address@.skip(n) =~= x);
        assert(s.address@.skip(n) =~= y);
    }
}

} // verus!
