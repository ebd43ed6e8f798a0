//! Log lines and the access-log stage of the request chain.
//!
//! A log line reads `timestamp|level|target|request_id|message`; lines at
//! error level carry `file@line` before the message. The access-log stage
//! emits one line per request:
//! `ip|user_agent|username|method|status|duration|sizeB|path`.

use vstd::prelude::*;
use crate::auth::header_credential;
use crate::level::{level_label, Level};
use crate::request_id::{id_from, is_id_text, set_req_id, RequestContext, REQ_ID_LEN};
use crate::text::{decimal, find_char, first_at, push_char, push_decimal, same_text};

verus! {

/// RFC 3339 UTC text, with milliseconds, of the instant `unix_millis`
/// milliseconds after the Unix epoch.
pub uninterp spec fn rfc3339_millis(unix_millis: u64) -> Seq<char>;

/// The debug text of a duration of `nanos` nanoseconds, such as `1.5ms`.
pub uninterp spec fn duration_debug(nanos: u64) -> Seq<char>;

/// First instant that the RFC 3339 formatter refuses (year 10000), in
/// milliseconds after the Unix epoch.
pub const TIMESTAMP_LIMIT_MILLIS: u64 = 253402300800000;

/// Relies on `humantime::format_rfc3339_millis`: the UTC timestamp text of an
/// instant before year 10000, which it formats without error.
#[verifier::external_body]
fn format_timestamp(unix_millis: u64) -> (r: String)
    requires
        unix_millis < TIMESTAMP_LIMIT_MILLIS,
    ensures
        r@ == rfc3339_millis(unix_millis),
{
    let t = std::time::UNIX_EPOCH + std::time::Duration::from_millis(unix_millis);
    humantime::format_rfc3339_millis(t).to_string()
}

/// Relies on the `Debug` format of `std::time::Duration`.
#[verifier::external_body]
fn format_duration(nanos: u64) -> (r: String)
    ensures
        r@ == duration_debug(nanos),
{
    format!("{:?}", std::time::Duration::from_nanos(nanos))
}

/// A record that the library asks to log.
#[derive(Debug)]
pub struct LogRecord {
    pub level: Level,
    pub target: String,
    pub message: String,
}

/// The request-id field: the identifier, or `-` outside any request.
pub open spec fn id_field(id: Seq<char>) -> Seq<char> {
    if id.len() == 0 {
        seq!['-']
    } else {
        id
    }
}

pub open spec fn opt_str(o: Option<&str>) -> Option<Seq<char>> {
    match o {
        Some(s) => Some(s@),
        None => None,
    }
}

pub open spec fn opt_string(o: Option<String>) -> Option<Seq<char>> {
    match o {
        Some(s) => Some(s@),
        None => None,
    }
}

/// `file@line` of an error line; an unknown file reads `unknown_file` and an
/// unknown line `0`.
pub open spec fn location_text(file: Option<Seq<char>>, line: Option<u32>) -> Seq<char> {
    let f = match file {
        Some(f) => f,
        None => "unknown_file"@,
    };
    let l: nat = match line {
        Some(l) => l as nat,
        None => 0,
    };
    f + seq!['@'] + decimal(l)
}

/// The text of one log line, without its line break.
pub open spec fn log_line_text(
    timestamp: Seq<char>,
    level: Level,
    target: Seq<char>,
    id: Seq<char>,
    file: Option<Seq<char>>,
    line: Option<u32>,
    message: Seq<char>,
) -> Seq<char> {
    let head = timestamp + seq!['|'] + level_label(level) + seq!['|'] + target + seq!['|'] + id_field(id) + seq!['|'];
    if level == Level::Error {
        head + location_text(file, line) + seq!['|'] + message
    } else {
        head + message
    }
}

/// Formats one log line for a record emitted while handling the request of
/// `ctx` (or outside any request, with an empty context).
pub fn format_log_line(
    timestamp: &str,
    level: Level,
    target: &str,
    ctx: &RequestContext,
    file: Option<&str>,
    line: Option<u32>,
    message: &str,
) -> (r: String)
    ensures
        r@ == log_line_text(timestamp@, level, target@, ctx@, opt_str(file), line, message@),
{
    let mut r = String::from_str(timestamp);
    push_char(&mut r, '|');
    let label = level.label();
    r.append(label.as_str());
    push_char(&mut r, '|');
    r.append(target);
    push_char(&mut r, '|');
    if ctx.request_id.as_str().unicode_len() == 0 {
        push_char(&mut r, '-');
    } else {
        r.append(ctx.request_id.as_str());
    }
    push_char(&mut r, '|');
    let ghost head = r@;
    let is_error = match level {
        Level::Error => true,
        _ => false,
    };
    if is_error {
        match file {
            Some(f) => r.append(f),
            None => r.append("unknown_file"),
        }
        push_char(&mut r, '@');
        let l: u32 = match line {
            Some(l) => l,
            None => 0,
        };
        push_decimal(&mut r, l as u64);
        push_char(&mut r, '|');
        r.append(message);
        proof {
            assert(r@ =~= head + location_text(opt_str(file), line) + seq!['|'] + message@);
        }
    } else {
        r.append(message);
    }
    proof {
        assert(head =~= timestamp@ + seq!['|'] + level_label(level) + seq!['|'] + target@ + seq!['|'] + id_field(ctx@)
            + seq!['|']);
    }
    r
}

/// Formats a log line stamped with the instant `unix_millis` milliseconds
/// after the Unix epoch.
pub fn log_line(
    unix_millis: u64,
    level: Level,
    target: &str,
    ctx: &RequestContext,
    file: Option<&str>,
    line: Option<u32>,
    message: &str,
) -> (r: String)
    requires
        unix_millis < TIMESTAMP_LIMIT_MILLIS,
    ensures
        r@ == log_line_text(rfc3339_millis(unix_millis), level, target@, ctx@, opt_str(file), line, message@),
{
    let ts = format_timestamp(unix_millis);
    format_log_line(ts.as_str(), level, target, ctx, file, line, message)
}

/// Lines formatted with the same fields but for two different request
/// contexts differ (a context outside any request has the empty identifier):
/// a line never shows another request's identifier.
pub proof fn lemma_request_ids_do_not_mix(
    timestamp: Seq<char>,
    level: Level,
    target: Seq<char>,
    a: Seq<char>,
    b: Seq<char>,
    file: Option<Seq<char>>,
    line: Option<u32>,
    message: Seq<char>,
)
    requires
        is_id_text(a),
        is_id_text(b),
        a != b,
    ensures
        log_line_text(timestamp, level, target, a, file, line, message) != log_line_text(
            timestamp,
            level,
            target,
            b,
            file,
            line,
            message,
        ),
{
    let p = timestamp + seq!['|'] + level_label(level) + seq!['|'] + target + seq!['|'];
    let rest = if level == Level::Error {
        seq!['|'] + location_text(file, line) + seq!['|'] + message
    } else {
        seq!['|'] + message
    };
    let fa = id_field(a);
    let fb = id_field(b);
    assert(fa != fb) by {
        if a.len() == 0 {
            if b.len() == 0 {
                assert(a =~= b);
            }
            if fa == fb {
                assert(b[0] == '-');
            }
        } else if b.len() == 0 {
            if fa == fb {
                assert(a[0] == '-');
            }
        }
    }
    let la = log_line_text(timestamp, level, target, a, file, line, message);
    let lb = log_line_text(timestamp, level, target, b, file, line, message);
    assert(la =~= p + fa + rest);
    assert(lb =~= p + fb + rest);
    if la == lb {
        assert(fa.len() == fb.len());
        assert(fa =~= la.subrange(p.len() as int, (p.len() + fa.len()) as int));
        assert(fb =~= lb.subrange(p.len() as int, (p.len() + fb.len()) as int));
    }
}

/// What the access-log stage gathers about one request and its response.
pub struct AccessRecord {
    /// The peer address, if the connection has one.
    pub peer_addr: Option<String>,
    /// The `User-Agent` header, if any.
    pub user_agent: Option<String>,
    /// The `Authorization` header, if any.
    pub authorization: Option<String>,
    pub method: String,
    pub status: u16,
    /// Time spent in the rest of the chain, in nanoseconds.
    pub elapsed_nanos: u64,
    /// Length of the request body (0 when unknown).
    pub request_len: u64,
    /// Length of the response body (0 when unknown).
    pub response_len: u64,
    pub path: String,
}

/// The first token of the user agent (up to its first space), or `-`
/// without the header.
pub open spec fn agent_token(agent: Option<Seq<char>>) -> Seq<char> {
    match agent {
        None => seq!['-'],
        Some(a) => if exists|i: int| first_at(a, ' ', i) {
            a.subrange(0, choose|i: int| first_at(a, ' ', i))
        } else {
            a
        },
    }
}

/// The user name that the `Authorization` header presents, or `-`.
pub open spec fn access_username(authorization: Option<Seq<char>>) -> Seq<char> {
    match header_credential(authorization) {
        Some((u, _)) => u,
        None => seq!['-'],
    }
}

/// The size logged: the request body for `POST`, the response body otherwise.
pub open spec fn logged_size(method: Seq<char>, request_len: u64, response_len: u64) -> u64 {
    if method == "POST"@ {
        request_len
    } else {
        response_len
    }
}

pub open spec fn or_dash(o: Option<Seq<char>>) -> Seq<char> {
    match o {
        Some(s) => s,
        None => seq!['-'],
    }
}

/// The access-log line of a request.
pub open spec fn access_line_text(rec: AccessRecord) -> Seq<char> {
    or_dash(opt_string(rec.peer_addr)) + seq!['|'] + agent_token(opt_string(rec.user_agent)) + seq!['|']
        + access_username(opt_string(rec.authorization)) + seq!['|'] + rec.method@ + seq!['|']
        + decimal(rec.status as nat) + seq!['|'] + duration_debug(rec.elapsed_nanos) + seq!['|']
        + decimal(logged_size(rec.method@, rec.request_len, rec.response_len) as nat) + seq!['B', '|']
        + rec.path@
}

/// The first token of a user agent.
fn first_token(agent: &str) -> (r: String)
    ensures
        r@ == agent_token(Some(agent@)),
{
    match find_char(agent, ' ') {
        Some(i) => {
            proof {
                let k = choose|k: int| first_at(agent@, ' ', k);
                crate::text::lemma_first_at_unique(agent@, ' ', i as int, k);
            }
            String::from_str(agent.substring_char(0, i))
        },
        None => {
            proof {
                assert(!exists|k: int| first_at(agent@, ' ', k)) by {
                    assert forall|k: int| !first_at(agent@, ' ', k) by {
                        if 0 <= k < agent@.len() {
                            assert(agent@[k] != ' ');
                        }
                    }
                }
            }
            String::from_str(agent)
        },
    }
}

/// Formats the access-log line of a request.
pub fn access_log_line(rec: &AccessRecord) -> (r: String)
    ensures
        r@ == access_line_text(*rec),
{
    let mut r = String::new();
    match &rec.peer_addr {
        Some(a) => r.append(a.as_str()),
        None => push_char(&mut r, '-'),
    }
    push_char(&mut r, '|');
    match &rec.user_agent {
        Some(a) => {
            let t = first_token(a.as_str());
            r.append(t.as_str());
        },
        None => push_char(&mut r, '-'),
    }
    push_char(&mut r, '|');
    let cred = match &rec.authorization {
        Some(h) => crate::auth::read_cred_from_basic_auth(h.as_str()),
        None => None,
    };
    match cred {
        Some(c) => r.append(c.username.as_str()),
        None => push_char(&mut r, '-'),
    }
    push_char(&mut r, '|');
    r.append(rec.method.as_str());
    push_char(&mut r, '|');
    push_decimal(&mut r, rec.status as u64);
    push_char(&mut r, '|');
    let d = format_duration(rec.elapsed_nanos);
    r.append(d.as_str());
    push_char(&mut r, '|');
    proof {
        reveal_strlit("POST");
    }
    let size = if same_text(rec.method.as_str(), "POST") {
        rec.request_len
    } else {
        rec.response_len
    };
    push_decimal(&mut r, size);
    push_char(&mut r, 'B');
    push_char(&mut r, '|');
    r.append(rec.path.as_str());
    proof {
        assert(r@ =~= access_line_text(*rec));
    }
    r
}

/// The stage that gives each request its identifier and logs it once done.
#[derive(Clone, Copy, Debug)]
pub struct AccessLogMiddleware;

impl AccessLogMiddleware {
    /// Starts a request: a context with a fresh identifier.
    pub fn begin(&self) -> (r: RequestContext)
        ensures
            r@.len() == REQ_ID_LEN,
            is_id_text(r@),
            exists|draws: Seq<u8>| draws.len() == REQ_ID_LEN && r@ == id_from(draws),
    {
        let mut ctx = RequestContext::detached();
        set_req_id(&mut ctx);
        ctx
    }

    /// Ends a request: the one record to log for it, at info level.
    pub fn finish(&self, rec: &AccessRecord) -> (r: LogRecord)
        ensures
            r.level == Level::Info,
            r.target@ == "access"@,
            r.message@ == access_line_text(*rec),
    {
        LogRecord { level: Level::Info, target: String::from_str("access"), message: access_log_line(rec) }
    }
}

} // verus!
