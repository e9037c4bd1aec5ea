//! What the mitigation server answers: routing of requests, the identity of the client, and
//! the verdict that a reverse proxy asks for before it lets a request through.

use vstd::prelude::*;
use crate::addr::IpAddr;
use crate::blocklist::{in_force, Blocklist, Verdict};
use crate::dashboard::DASHBOARD_HTML;
use crate::text::{
    eq_ignore_case, law_case_is_all_that_may_differ, law_trimming_ignores_white_space_around,
    same_ignoring_case, same_text, trim, trimmed,
};

verus! {

/// What a request path asks for.
#[derive(Debug, Clone, Copy, PartialEq, Eq, Structural)]
pub enum Route {
    /// Whether a client may pass.
    Check,
    /// Live telemetry.
    Stats,
    /// The forensic log.
    Anomalies,
    /// The dashboard page.
    Dashboard,
    /// Nothing that is served.
    NotFound,
}

/// The route of a request path.
pub open spec fn spec_route(url: Seq<char>) -> Route {
    if url == "/check"@ {
        Route::Check
    } else if url == "/api/stats"@ {
        Route::Stats
    } else if url == "/api/anomalies"@ {
        Route::Anomalies
    } else if url == "/dashboard"@ || url == "/dashboard.html"@ || url
        == "/svdd_visualization.html"@ {
        Route::Dashboard
    } else {
        Route::NotFound
    }
}

/// Finds the route of a request path.
pub fn route(url: &str) -> (r: Route)
    ensures
        r == spec_route(url@),
{
    if same_text(url, "/check") {
        Route::Check
    } else if same_text(url, "/api/stats") {
        Route::Stats
    } else if same_text(url, "/api/anomalies") {
        Route::Anomalies
    } else if same_text(url, "/dashboard") || same_text(url, "/dashboard.html") || same_text(
        url,
        "/svdd_visualization.html",
    ) {
        Route::Dashboard
    } else {
        Route::NotFound
    }
}

impl Route {
    /// The header that announces the content type of a page, where the route serves one.
    pub fn content_type(&self) -> (r: Option<&'static str>)
        ensures
            r is Some <==> (self is Stats || self is Anomalies || self is Dashboard),
            self is Stats || self is Anomalies ==> r->0@ == "Content-Type: application/json"@,
            self is Dashboard ==> r->0@ == "Content-Type: text/html"@,
    {
        match self {
            Route::Stats | Route::Anomalies => Some("Content-Type: application/json"),
            Route::Dashboard => Some("Content-Type: text/html"),
            Route::Check | Route::NotFound => None,
        }
    }

    /// The status code of a page.
    pub fn page_status(&self) -> (r: u16)
        requires
            !(self is Check),
        ensures
            r == if self is NotFound {
                404int
            } else {
                200int
            },
    {
        match self {
            Route::NotFound => 404,
            _ => 200,
        }
    }

    /// The body of a page whose text never changes.
    pub fn page_body(&self) -> (r: Option<&'static str>)
        ensures
            r is Some <==> (self is Dashboard || self is NotFound),
            self is Dashboard ==> r->0@ == DASHBOARD_HTML@,
            self is NotFound ==> r->0@ == "Not Found"@,
    {
        match self {
            Route::Dashboard => Some(DASHBOARD_HTML),
            Route::NotFound => Some("Not Found"),
            Route::Check | Route::Stats | Route::Anomalies => None,
        }
    }
}

/// A header of a request, as ASCII bytes.
#[derive(Debug, Clone)]
pub struct RequestHeader {
    pub field: Vec<u8>,
    pub value: Vec<u8>,
}

/// The name of the header in which a reverse proxy passes on the client's address,
/// `X-Real-IP`.
pub open spec fn real_ip_field() -> Seq<u8> {
    seq![0x58u8, 0x2d, 0x52, 0x65, 0x61, 0x6c, 0x2d, 0x49, 0x50]
}

/// The header at `i` names the client's address.
pub open spec fn names_client(headers: Seq<RequestHeader>, i: int) -> bool {
    0 <= i < headers.len() && same_ignoring_case(headers[i].field@, real_ip_field())
}

/// The text in which a reverse proxy passed on the client's address: the value of the first
/// `X-Real-IP` header, in any case, without white space around it.
pub fn real_ip_text(headers: &Vec<RequestHeader>) -> (r: Option<Vec<u8>>)
    ensures
        r is None <==> (forall|i: int| !names_client(headers@, i)),
        r matches Some(text) ==> exists|i: int|
            {
                &&& #[trigger] names_client(headers@, i)
                &&& forall|j: int| 0 <= j < i ==> !names_client(headers@, j)
                &&& text@ == trimmed(headers@[i].value@)
            },
{
    let name: [u8; 9] = [0x58, 0x2d, 0x52, 0x65, 0x61, 0x6c, 0x2d, 0x49, 0x50];
    assert(name@ =~= real_ip_field());
    let mut i: usize = 0;
    while i < headers.len()
        invariant
            i <= headers@.len(),
            name@ == real_ip_field(),
            forall|j: int| 0 <= j < i ==> !names_client(headers@, j),
        decreases headers@.len() - i,
    {
        if eq_ignore_case(headers[i].field.as_slice(), name.as_slice()) {
            assert(names_client(headers@, i as int));
            return Some(trim(headers[i].value.as_slice()));
        }
        i = i + 1;
    }
    None
}

/// The address to judge a request by: the one that the proxy passed on, else the one that
/// the connection comes from, else the loopback address 127.0.0.1.
pub fn client_address(passed_on: Option<IpAddr>, remote: Option<IpAddr>) -> (r: IpAddr)
    ensures
        r == (match (passed_on, remote) {
            (Some(ip), _) => ip,
            (None, Some(ip)) => ip,
            (None, None) => IpAddr::V4(0x7f00_0001),
        }),
{
    match (passed_on, remote) {
        (Some(ip), _) => ip,
        (None, Some(ip)) => ip,
        (None, None) => IpAddr::V4(0x7f00_0001),
    }
}

/// The answer to a `/check` request: a status code, a body and three header lines.
#[derive(Debug, Clone, Copy)]
pub struct CheckReply {
    pub status_code: u16,
    pub body: &'static str,
    pub mode_header: &'static str,
    pub status_header: &'static str,
    pub anomaly_header: &'static str,
}

impl CheckReply {
    /// The answer for a client that is or is not blocked, under mitigation or monitoring.
    pub open spec fn answers(&self, blocked: bool, mitigating: bool) -> bool {
        &&& self.status_code == if blocked && mitigating {
            403int
        } else {
            200int
        }
        &&& self.body@ == if blocked && mitigating {
            "Forbidden"@
        } else {
            "OK"@
        }
        &&& self.mode_header@ == if mitigating {
            "X-RNADS-Mode: Mitigation"@
        } else {
            "X-RNADS-Mode: Monitoring"@
        }
        &&& self.status_header@ == if blocked && mitigating {
            "X-RNADS-Detection-Status: Blocked"@
        } else {
            "X-RNADS-Detection-Status: Allowed"@
        }
        &&& self.anomaly_header@ == if blocked {
            "X-RNADS-Anomaly-Detected: Yes"@
        } else {
            "X-RNADS-Anomaly-Detected: No"@
        }
    }
}

/// The answer for a client that is or is not blocked. Only in mitigation mode `mitigate` is a
/// blocked client turned away; in every other mode it is only reported.
pub fn check_reply(blocked: bool, mitigation_mode: &str) -> (r: CheckReply)
    ensures
        r.answers(blocked, mitigation_mode@ == "mitigate"@),
{
    let mitigating = same_text(mitigation_mode, "mitigate");
    let turned_away = blocked && mitigating;
    CheckReply {
        status_code: if turned_away {
            403
        } else {
            200
        },
        body: if turned_away {
            "Forbidden"
        } else {
            "OK"
        },
        mode_header: if mitigating {
            "X-RNADS-Mode: Mitigation"
        } else {
            "X-RNADS-Mode: Monitoring"
        },
        status_header: if turned_away {
            "X-RNADS-Detection-Status: Blocked"
        } else {
            "X-RNADS-Detection-Status: Allowed"
        },
        anomaly_header: if blocked {
            "X-RNADS-Anomaly-Detected: Yes"
        } else {
            "X-RNADS-Anomaly-Detected: No"
        },
    }
}

/// Answers a `/check` request of `client` at the instant `now`: looks the client up, drops
/// its block if it has run out, and words the answer.
pub fn handle_check(
    blocklist: &mut Blocklist,
    client: IpAddr,
    now: u128,
    ttl_secs: u64,
    mitigation_mode: &str,
) -> (r: CheckReply)
    requires
        old(blocklist).wf(),
    ensures
        final(blocklist).wf(),
        ({
            let blocked = old(blocklist)@.contains_key(client) && in_force(
                old(blocklist)@[client],
                now,
                ttl_secs,
            );
            &&& r.answers(blocked, mitigation_mode@ == "mitigate"@)
            &&& final(blocklist)@ == if blocked {
                old(blocklist)@
            } else {
                old(blocklist)@.remove(client)
            }
        }),
{
    let blocked = blocklist.is_blocked(client, now, ttl_secs);
    check_reply(blocked, mitigation_mode)
}

/// Nobody is turned away unless the server is set to mitigate.
pub proof fn law_monitoring_never_blocks(reply: CheckReply, blocked: bool)
    requires
        reply.answers(blocked, false),
    ensures
        reply.status_code == 200,
        reply.body@ == "OK"@,
{
}

/// A client is turned away exactly if it is blocked and the server is set to mitigate; the
/// status code, the body and the status header agree on it.
pub proof fn law_refusal_is_consistent(reply: CheckReply, blocked: bool, mitigating: bool)
    requires
        reply.answers(blocked, mitigating),
    ensures
        reply.status_code == 403 <==> blocked && mitigating,
        reply.status_code == 403 <==> reply.body@ == "Forbidden"@,
        reply.status_code == 403 <==> reply.status_header@ == "X-RNADS-Detection-Status: Blocked"@,
        reply.status_code == 200 || reply.status_code == 403,
{
    reveal_strlit("Forbidden");
    reveal_strlit("OK");
    reveal_strlit("X-RNADS-Detection-Status: Blocked");
    reveal_strlit("X-RNADS-Detection-Status: Allowed");
    assert("Forbidden"@.len() != "OK"@.len());
    assert("X-RNADS-Detection-Status: Blocked"@[26] != "X-RNADS-Detection-Status: Allowed"@[26]);
}

/// Under mitigation a client that was found anomalous is refused while the block lasts, and
/// let through again once it has run out.
pub proof fn law_anomalous_client_is_refused(
    before: Map<IpAddr, u128>,
    client: IpAddr,
    blocked_at: u128,
    now: u128,
    ttl_secs: u64,
    reply: CheckReply,
)
    requires
        now >= blocked_at,
        ({
            let after = before.insert(client, blocked_at);
            reply.answers(
                after.contains_key(client) && in_force(after[client], now, ttl_secs),
                true,
            )
        }),
    ensures
        reply.status_code == 403 <==> now < blocked_at + ttl_secs * 1_000_000_000,
{
}

/// A client that has returned to normal is let through at once, in every mode, and is no
/// longer reported as anomalous.
pub proof fn law_unblocked_client_passes(
    before: Map<IpAddr, u128>,
    client: IpAddr,
    now: u128,
    ttl_secs: u64,
    mitigating: bool,
    reply: CheckReply,
)
    requires
        ({
            let after = before.remove(client);
            reply.answers(
                after.contains_key(client) && in_force(after[client], now, ttl_secs),
                mitigating,
            )
        }),
    ensures
        reply.status_code == 200,
        reply.body@ == "OK"@,
        reply.anomaly_header@ == "X-RNADS-Anomaly-Detected: No"@,
{
}

/// Each path is served by its own route, and every other path by none. Paths are compared as a
/// whole.
pub proof fn law_each_path_has_its_route(url: &str, r: Route)
    requires
        call_ensures(route, (url,), r),
    ensures
        url@ == "/check"@ ==> r is Check,
        url@ == "/api/stats"@ ==> r is Stats,
        url@ == "/api/anomalies"@ ==> r is Anomalies,
        url@ == "/dashboard"@ || url@ == "/dashboard.html"@ || url@ == "/svdd_visualization.html"@
            ==> r is Dashboard,
        r is NotFound <==> url@ != "/check"@ && url@ != "/api/stats"@ && url@ != "/api/anomalies"@
            && url@ != "/dashboard"@ && url@ != "/dashboard.html"@ && url@
            != "/svdd_visualization.html"@,
{
    reveal_strlit("/check");
    reveal_strlit("/api/stats");
    reveal_strlit("/api/anomalies");
    reveal_strlit("/dashboard");
    reveal_strlit("/dashboard.html");
    reveal_strlit("/svdd_visualization.html");
    assert("/check"@.len() == 6 && "/api/stats"@.len() == 10 && "/api/anomalies"@.len() == 14);
    assert("/dashboard"@.len() == 10 && "/dashboard.html"@.len() == 15
        && "/svdd_visualization.html"@.len() == 24);
    assert("/dashboard"@[1] != "/api/stats"@[1]);
}

/// A page is found exactly if its route is, JSON comes from the two interfaces and HTML from the
/// dashboard.
pub proof fn law_pages_announce_what_they_are(
    route: Route,
    status: u16,
    content_type: Option<&'static str>,
    body: Option<&'static str>,
)
    requires
        !(route is Check),
        call_ensures(Route::page_status, (&route,), status),
        call_ensures(Route::content_type, (&route,), content_type),
        call_ensures(Route::page_body, (&route,), body),
    ensures
        status == 404 <==> route is NotFound,
        status == 200 <==> !(route is NotFound),
        route is Stats || route is Anomalies ==> body is None && (content_type matches Some(line)
            && line@ == "Content-Type: application/json"@),
        route is Dashboard ==> (content_type matches Some(line) && line@
            == "Content-Type: text/html"@) && (body matches Some(text) && text@ == DASHBOARD_HTML@),
        route is NotFound ==> content_type is None && (body matches Some(text) && text@
            == "Not Found"@),
{
}

/// A header names the client exactly if its name reads `X-Real-IP`, letter by letter and in any
/// case.
pub proof fn law_client_header_reads_x_real_ip(headers: Seq<RequestHeader>, i: int)
    ensures
        names_client(headers, i) <==> 0 <= i < headers.len() && headers[i].field@.len() == 9
            && forall|k: int|
            0 <= k < 9 ==> {
                let c = "X-Real-IP"@[k] as int;
                ||| #[trigger] headers[i].field@[k] == c
                ||| 0x41 <= c <= 0x5a && headers[i].field@[k] == c + 0x20
                ||| 0x61 <= c <= 0x7a && headers[i].field@[k] == c - 0x20
            },
{
    reveal_strlit("X-Real-IP");
    let name = real_ip_field();
    let text = "X-Real-IP"@;
    assert(text.len() == 9);
    assert forall|k: int| 0 <= k < 9 implies name[k] == #[trigger] text[k] as int by {
        assert(k == 0 || k == 1 || k == 2 || k == 3 || k == 4 || k == 5 || k == 6 || k == 7 || k == 8);
    }
    if 0 <= i < headers.len() {
        let field = headers[i].field@;
        law_case_is_all_that_may_differ(field, name);
        if field.len() == 9 && forall|k: int|
            0 <= k < 9 ==> {
                let c = text[k] as int;
                ||| #[trigger] field[k] == c
                ||| 0x41 <= c <= 0x5a && field[k] == c + 0x20
                ||| 0x61 <= c <= 0x7a && field[k] == c - 0x20
            } {
            assert forall|k: int| 0 <= k < field.len() implies {
                ||| #[trigger] field[k] == name[k]
                ||| 0x41 <= field[k] <= 0x5a && name[k] == field[k] + 0x20
                ||| 0x41 <= name[k] <= 0x5a && field[k] == name[k] + 0x20
            } by {
                assert(name[k] == text[k] as int);
            }
        }
        if same_ignoring_case(field, name) {
            assert forall|k: int| 0 <= k < 9 implies {
                let c = text[k] as int;
                ||| #[trigger] field[k] == c
                ||| 0x41 <= c <= 0x5a && field[k] == c + 0x20
                ||| 0x61 <= c <= 0x7a && field[k] == c - 0x20
            } by {
                assert(name[k] == text[k] as int);
            }
        }
    }
}

/// The address that a proxy passes on is taken byte for byte from the first header that names
/// the client, whatever white space surrounds it there.
pub proof fn law_passed_on_address_is_the_header_value(
    headers: Seq<RequestHeader>,
    i: int,
    before: Seq<u8>,
    address: Seq<u8>,
    after: Seq<u8>,
    r: Option<Vec<u8>>,
)
    requires
        r is None <==> (forall|i: int| !names_client(headers, i)),
        r matches Some(text) ==> exists|i: int|
            {
                &&& #[trigger] names_client(headers, i)
                &&& forall|j: int| 0 <= j < i ==> !names_client(headers, j)
                &&& text@ == trimmed(headers[i].value@)
            },
        names_client(headers, i),
        forall|j: int| 0 <= j < i ==> !names_client(headers, j),
        headers[i].value@ == before + address + after,
        address.len() > 0,
        !(0x09 <= address[0] <= 0x0d || address[0] == 0x20),
        !(0x09 <= address.last() <= 0x0d || address.last() == 0x20),
        forall|k: int|
            0 <= k < before.len() ==> 0x09 <= #[trigger] before[k] <= 0x0d || before[k] == 0x20,
        forall|k: int|
            0 <= k < after.len() ==> 0x09 <= #[trigger] after[k] <= 0x0d || after[k] == 0x20,
    ensures
        r matches Some(text) && text@ == address,
{
    law_trimming_ignores_white_space_around(before, address, after);
    let text = r->0;
    let k = choose|k: int|
        {
            &&& #[trigger] names_client(headers, k)
            &&& forall|j: int| 0 <= j < k ==> !names_client(headers, j)
            &&& text@ == trimmed(headers[k].value@)
        };
    assert(k == i);
}

/// The address that a proxy passed on counts before the address of the connection, and that
/// before 127.0.0.1.
pub proof fn law_proxy_is_believed_first(
    passed_on: Option<IpAddr>,
    remote: Option<IpAddr>,
    r: IpAddr,
)
    requires
        call_ensures(client_address, (passed_on, remote), r),
    ensures
        passed_on matches Some(ip) ==> r == ip,
        passed_on is None ==> (remote matches Some(ip) ==> r == ip),
        passed_on is None && remote is None ==> r == IpAddr::V4(0x7f00_0001),
{
}

/// Every header of an answer tells its own fact: the mode whether the server mitigates, the
/// status whether the client is turned away, the anomaly header whether it is blocked.
pub proof fn law_headers_tell_the_facts(blocked: bool, mode: &str, reply: CheckReply)
    requires
        call_ensures(check_reply, (blocked, mode), reply),
    ensures
        mode@ == "mitigate"@ ==> reply.mode_header@ == "X-RNADS-Mode: Mitigation"@,
        mode@ != "mitigate"@ ==> reply.mode_header@ == "X-RNADS-Mode: Monitoring"@,
        blocked ==> reply.anomaly_header@ == "X-RNADS-Anomaly-Detected: Yes"@,
        !blocked ==> reply.anomaly_header@ == "X-RNADS-Anomaly-Detected: No"@,
        blocked && mode@ == "mitigate"@ ==> reply.status_code == 403 && reply.body@ == "Forbidden"@
            && reply.status_header@ == "X-RNADS-Detection-Status: Blocked"@,
        !(blocked && mode@ == "mitigate"@) ==> reply.status_code == 200 && reply.body@ == "OK"@
            && reply.status_header@ == "X-RNADS-Detection-Status: Allowed"@,
{
}

/// A client that was found anomalous is answered 403 under mitigation while less than the time
/// to live has passed, and 200 otherwise; the answer to a client that was never on the list is
/// 200.
pub proof fn law_check_follows_the_observation(
    list: &mut Blocklist,
    then: &mut Blocklist,
    client: IpAddr,
    asked: IpAddr,
    found_at: u128,
    now: u128,
    ttl_secs: u64,
    mode: &str,
    verdict: Verdict,
    reply: CheckReply,
)
    requires
        call_ensures(Blocklist::observe, (list, client, true, found_at), verdict),
        *old(then) == *final(list),
        call_ensures(handle_check, (then, asked, now, ttl_secs, mode), reply),
        now >= found_at,
    ensures
        asked == client ==> (reply.status_code == 403 <==> mode@ == "mitigate"@ && now - found_at
            < ttl_secs * 1_000_000_000),
        asked != client && !old(list)@.contains_key(asked) ==> reply.status_code == 200,
        reply.status_code == 403 || reply.status_code == 200,
{
}

} // verus!
