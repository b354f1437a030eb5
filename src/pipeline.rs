//! The per-request inspection pipeline: a header phase, then a body phase.
//! Each function decides; the caller performs the I/O the decision names.

use crate::body::{too_large_message, BodyInspector, DEFAULT_MAX_BODY_SIZE};
use crate::engine::{request_view, verdict, Engine, Headers, HeadersView, RequestView, VerdictView};
use crate::router::{route, routes_to, table_view};
use crate::rule::RuleView;
use crate::shared::EngineRegistry;
use vstd::prelude::*;

verus! {

/// The text a body turns into for inspection.
pub uninterp spec fn utf8_lossy(bytes: Seq<u8>) -> Seq<char>;

/// Relies on `String::from_utf8_lossy`: the text decoded from the bytes, with
/// each invalid sequence replaced; it depends on the bytes alone.
#[verifier::external_body]
fn decode_lossy(bytes: &[u8]) -> (r: String)
    ensures
        r@ == utf8_lossy(bytes@),
{
    String::from_utf8_lossy(bytes).into_owned()
}

/// The HTTP version of a request, as the request line renders it.
#[derive(Debug, Clone, Copy, PartialEq, Eq, Structural)]
pub enum HttpVersion {
    Http10,
    Http11,
    Http2,
    /// Any other version; rendered as `HTTP/1.1`.
    Other,
}

pub open spec fn version_text(v: HttpVersion) -> Seq<char> {
    match v {
        HttpVersion::Http10 => "HTTP/1.0"@,
        HttpVersion::Http11 => "HTTP/1.1"@,
        HttpVersion::Http2 => "HTTP/2.0"@,
        HttpVersion::Other => "HTTP/1.1"@,
    }
}

/// `<METHOD> <URI> <VERSION>`.
pub open spec fn request_line_of(method: Seq<char>, uri: Seq<char>, v: HttpVersion) -> Seq<char> {
    method + " "@ + uri + " "@ + version_text(v)
}

/// The request line that `REQUEST_LINE` rules see.
pub fn request_line(method: &str, uri: &str, version: HttpVersion) -> (r: String)
    ensures
        r@ == request_line_of(method@, uri@, version),
{
    let mut s = method.to_owned();
    s.append(" ");
    s.append(uri);
    s.append(" ");
    let v = match version {
        HttpVersion::Http10 => "HTTP/1.0",
        HttpVersion::Http11 => "HTTP/1.1",
        HttpVersion::Http2 => "HTTP/2.0",
        HttpVersion::Other => "HTTP/1.1",
    };
    s.append(v);
    s
}

/// A record of a rule, or the body bound, refusing a request.
#[derive(Debug)]
pub struct WafViolation {
    pub rule_id: u32,
    pub reason: String,
    pub blocked: bool,
    /// Milliseconds since the Unix epoch.
    pub timestamp: i64,
    /// `header` or `body`.
    pub source: String,
}

pub struct ViolationView {
    pub rule_id: u32,
    pub reason: Seq<char>,
    pub blocked: bool,
    pub timestamp: i64,
    pub source: Seq<char>,
}

impl View for WafViolation {
    type V = ViolationView;

    open spec fn view(&self) -> ViolationView {
        ViolationView {
            rule_id: self.rule_id,
            reason: self.reason@,
            blocked: self.blocked,
            timestamp: self.timestamp,
            source: self.source@,
        }
    }
}

pub open spec fn violations_view(v: Seq<WafViolation>) -> Seq<ViolationView> {
    v.map_values(|x: WafViolation| x@)
}

/// Per-request scratch state, owned by the request alone.
pub struct RequestContext {
    pub body_inspector: BodyInspector,
    pub upstream_name: Option<String>,
    pub upstream_key: Option<String>,
    pub client_ip: String,
    /// Append-only within a request.
    pub violations: Vec<WafViolation>,
}

impl RequestContext {
    pub open spec fn wf(&self) -> bool {
        self.body_inspector.wf()
    }

    /// A fresh context with the default body bound of 10 MiB.
    pub fn new(client_ip: &str) -> (r: RequestContext)
        ensures
            r.wf(),
            r.body_inspector.max_size() == DEFAULT_MAX_BODY_SIZE,
            r.body_inspector.is_enabled(),
            r.body_inspector.buffered() == Seq::<u8>::empty(),
            r.upstream_name is None,
            r.upstream_key is None,
            r.client_ip@ == client_ip@,
            r.violations@.len() == 0,
    {
        RequestContext::with_body_limit(client_ip, DEFAULT_MAX_BODY_SIZE)
    }

    /// A fresh context with an enabled body inspector of the given bound.
    pub fn with_body_limit(client_ip: &str, max_body_size: usize) -> (r: RequestContext)
        ensures
            r.wf(),
            r.body_inspector.max_size() == max_body_size,
            r.body_inspector.is_enabled(),
            r.body_inspector.buffered() == Seq::<u8>::empty(),
            r.upstream_name is None,
            r.upstream_key is None,
            r.client_ip@ == client_ip@,
            r.violations@.len() == 0,
    {
        RequestContext {
            body_inspector: BodyInspector::new(max_body_size, true),
            upstream_name: None,
            upstream_key: None,
            client_ip: client_ip.to_owned(),
            violations: Vec::new(),
        }
    }

    fn record(&mut self, rule_id: u32, reason: String, source: &str, timestamp: i64)
        ensures
            final(self).body_inspector == old(self).body_inspector,
            final(self).upstream_name == old(self).upstream_name,
            violations_view(final(self).violations@) == violations_view(old(self).violations@).push(
                ViolationView { rule_id, reason: reason@, blocked: true, timestamp, source: source@ },
            ),
    {
        let ghost prev = self.violations@;
        let v = WafViolation {
            rule_id,
            reason,
            blocked: true,
            timestamp,
            source: source.to_owned(),
        };
        self.violations.push(v);
        proof {
            assert(violations_view(self.violations@) =~= violations_view(prev).push(v@));
        }
    }
}

/// What the caller does next.
#[derive(Debug, Clone, Copy, PartialEq, Eq, Structural)]
pub enum Decision {
    /// Go on: to the body phase, or forward the request.
    Continue,
    /// Answer with this status and end the request.
    Respond(u16),
}

/// The outcome of one inspection against a rule list: continue when allowed;
/// else answer with the verdict's status and record the refusal, stamped
/// with `timestamp` (milliseconds since the Unix epoch).
pub open spec fn inspected(
    rules: Seq<RuleView>,
    v: VerdictView,
    old_violations: Seq<ViolationView>,
    new_violations: Seq<ViolationView>,
    source: Seq<char>,
    timestamp: i64,
    d: Decision,
) -> bool {
    &&& v.allowed ==> d == Decision::Continue && new_violations == old_violations
    &&& !v.allowed ==> d == Decision::Respond(v.status) && new_violations == old_violations.push(
        ViolationView { rule_id: v.rule_id, reason: v.reason, blocked: true, timestamp, source },
    )
}

/// Header phase against one engine: evaluates the phase-1 rules once.
pub fn inspect_headers(
    ctx: &mut RequestContext,
    engine: &Engine,
    request_line: &str,
    headers: &Headers,
    uri: &str,
    timestamp: i64,
) -> (d: Decision)
    ensures
        final(ctx).body_inspector == old(ctx).body_inspector,
        final(ctx).upstream_name == old(ctx).upstream_name,
        exists|v: VerdictView|
            #![trigger verdict(engine.rules_view(), request_view(request_line, headers, uri, None), v)]
            verdict(engine.rules_view(), request_view(request_line, headers, uri, None), v)
                && inspected(
                engine.rules_view(),
                v,
                violations_view(old(ctx).violations@),
                violations_view(final(ctx).violations@),
                "header"@,
                timestamp,
                d,
            ),
{
    let v = engine.check_detailed(request_line, headers, uri, None);
    if !v.allowed {
        let status = v.status;
        ctx.record(v.rule_id, v.reason, "header", timestamp);
        Decision::Respond(status)
    } else {
        Decision::Continue
    }
}

/// The header-phase view of a request.
pub open spec fn header_request(line: Seq<char>, headers: HeadersView, uri: Seq<char>) -> RequestView {
    RequestView { line, headers, uri, body: None }
}

pub open spec fn names(o: Option<String>, s: Seq<char>) -> bool {
    o is Some && o->0@ == s
}

pub open spec fn host_or_unknown(host: Option<&str>) -> Seq<char> {
    match host {
        Some(h) => h@,
        None => "unknown"@,
    }
}

proof fn lemma_route_unique(t: crate::router::TableView, h: Seq<char>, i: int, j: int)
    requires
        routes_to(t, h, Some(i)),
        routes_to(t, h, Some(j)),
    ensures
        i == j,
{
}

/// The whole header phase: route by Host (`unknown` when absent), find the
/// upstream's engine, and inspect the request line, URI and headers.
/// 404 when no upstream is configured; 500 when the upstream has no engine.
pub fn headers_phase(
    ctx: &mut RequestContext,
    table: &Vec<(String, String)>,
    registry: &EngineRegistry,
    host: Option<&str>,
    method: &str,
    uri: &str,
    version: HttpVersion,
    headers: &Headers,
    timestamp: i64,
) -> (d: Decision)
    requires
        registry.wf(),
    ensures
        final(ctx).body_inspector == old(ctx).body_inspector,
        table@.len() == 0 ==> d == Decision::Respond(404) && final(ctx).violations@
            == old(ctx).violations@ && final(ctx).upstream_name == old(ctx).upstream_name,
        forall|i: int|
            #![trigger routes_to(table_view(table@), host_or_unknown(host), Some(i))]
            routes_to(table_view(table@), host_or_unknown(host), Some(i)) ==> {
                &&& names(final(ctx).upstream_name, table@[i].0@)
                &&& !registry.keys().contains(table@[i].0@) ==> d == Decision::Respond(500)
                    && final(ctx).violations@ == old(ctx).violations@
                &&& registry.keys().contains(table@[i].0@) ==> exists|v: VerdictView|
                    #![trigger verdict(registry.rules_of(table@[i].0@), header_request(request_line_of(method@, uri@, version), headers@, uri@), v)]
                    verdict(
                        registry.rules_of(table@[i].0@),
                        header_request(request_line_of(method@, uri@, version), headers@, uri@),
                        v,
                    ) && inspected(
                        registry.rules_of(table@[i].0@),
                        v,
                        violations_view(old(ctx).violations@),
                        violations_view(final(ctx).violations@),
                        "header"@,
                        timestamp,
                        d,
                    )
            },
{
    let h = match host {
        Some(h) => h,
        None => "unknown",
    };
    let i = match route(table, h) {
        Some(i) => i,
        None => {
            return Decision::Respond(404);
        },
    };
    proof {
        assert forall|j: int| routes_to(table_view(table@), host_or_unknown(host), Some(j)) implies j
            == i by {
            lemma_route_unique(table_view(table@), host_or_unknown(host), i as int, j);
        }
    }
    let key = &table[i].0;
    ctx.upstream_name = Some(key.clone());
    let cell = match registry.get(key.as_str()) {
        Some(c) => c,
        None => {
            return Decision::Respond(500);
        },
    };
    let line = request_line(method, uri, version);
    let d = inspect_headers(ctx, cell.engine(), line.as_str(), headers, uri, timestamp);
    d
}


/// The reason recorded when a chunk would take the body past its bound.
pub open spec fn oversize_reason(max_body_size: nat) -> Seq<char> {
    "Body size limit exceeded: "@ + too_large_message(max_body_size)
}

/// Body phase, one chunk: buffer it, or answer 413 and record a violation
/// of rule 413 from `body` when it would take the body past its bound.
pub fn body_chunk(ctx: &mut RequestContext, chunk: &[u8], timestamp: i64) -> (d: Decision)
    requires
        old(ctx).wf(),
    ensures
        final(ctx).wf(),
        final(ctx).upstream_name == old(ctx).upstream_name,
        final(ctx).body_inspector.max_size() == old(ctx).body_inspector.max_size(),
        final(ctx).body_inspector.is_enabled() == old(ctx).body_inspector.is_enabled(),
        !old(ctx).body_inspector.is_enabled() ==> d == Decision::Continue
            && final(ctx).body_inspector.buffered() == old(ctx).body_inspector.buffered()
            && final(ctx).violations@ == old(ctx).violations@,
        old(ctx).body_inspector.is_enabled() && old(ctx).body_inspector.buffered().len()
            + chunk@.len() <= old(ctx).body_inspector.max_size() ==> d == Decision::Continue
            && final(ctx).body_inspector.buffered() == old(ctx).body_inspector.buffered() + chunk@
            && final(ctx).violations@ == old(ctx).violations@,
        old(ctx).body_inspector.is_enabled() && old(ctx).body_inspector.buffered().len()
            + chunk@.len() > old(ctx).body_inspector.max_size() ==> d == Decision::Respond(413)
            && final(ctx).body_inspector.buffered() == old(ctx).body_inspector.buffered()
            && violations_view(final(ctx).violations@) == violations_view(old(ctx).violations@).push(
            ViolationView {
                rule_id: 413,
                reason: oversize_reason(old(ctx).body_inspector.max_size() as nat),
                blocked: true,
                timestamp,
                source: "body"@,
            },
        ),
{
    match ctx.body_inspector.append_chunk(chunk) {
        Ok(()) => Decision::Continue,
        Err(e) => {
            let mut reason = "Body size limit exceeded: ".to_owned();
            reason.append(e.message().as_str());
            proof {
                assert(e.max_body_size == old(ctx).body_inspector.max_size());
                assert(reason@ =~= oversize_reason(old(ctx).body_inspector.max_size() as nat));
            }
            ctx.record(413, reason, "body", timestamp);
            Decision::Respond(413)
        },
    }
}

/// The body-phase view of a request.
pub open spec fn body_request(line: Seq<char>, headers: HeadersView, uri: Seq<char>, body: Seq<u8>) -> RequestView {
    RequestView { line, headers, uri, body: Some(utf8_lossy(body)) }
}

/// The outcome of the body phase against a rule list: an empty body goes on
/// unexamined; otherwise the verdict on the decoded body decides, and a
/// refusal also drops the buffered body.
pub open spec fn body_inspected(
    rules: Seq<RuleView>,
    line: Seq<char>,
    headers: HeadersView,
    uri: Seq<char>,
    old_ctx: RequestContext,
    new_ctx: RequestContext,
    timestamp: i64,
    d: Decision,
) -> bool {
    &&& old_ctx.body_inspector.buffered().len() == 0 ==> d == Decision::Continue
        && new_ctx.violations@ == old_ctx.violations@ && new_ctx.body_inspector
        == old_ctx.body_inspector
    &&& old_ctx.body_inspector.buffered().len() > 0 ==> exists|v: VerdictView|
        #![trigger verdict(rules, body_request(line, headers, uri, old_ctx.body_inspector.buffered()), v)]
        verdict(rules, body_request(line, headers, uri, old_ctx.body_inspector.buffered()), v)
            && inspected(
            rules,
            v,
            violations_view(old_ctx.violations@),
            violations_view(new_ctx.violations@),
            "body"@,
            timestamp,
            d,
        ) && (v.allowed ==> new_ctx.body_inspector == old_ctx.body_inspector) && (!v.allowed
            ==> new_ctx.body_inspector.buffered().len() == 0)
}

/// Body phase at end of stream, against one engine.
pub fn inspect_body(
    ctx: &mut RequestContext,
    engine: &Engine,
    request_line: &str,
    headers: &Headers,
    uri: &str,
    timestamp: i64,
) -> (d: Decision)
    requires
        old(ctx).wf(),
    ensures
        final(ctx).wf(),
        final(ctx).upstream_name == old(ctx).upstream_name,
        body_inspected(engine.rules_view(), request_line@, headers@, uri@, *old(ctx), *final(ctx), timestamp, d),
{
    let body = ctx.body_inspector.get_body();
    if body.len() == 0 {
        return Decision::Continue;
    }
    let text = decode_lossy(body.as_slice());
    let t = text.as_str();
    let v = engine.check_detailed(request_line, headers, uri, Some(t));
    proof {
        assert(request_view(request_line, headers, uri, Some(t)) == body_request(
            request_line@,
            headers@,
            uri@,
            old(ctx).body_inspector.buffered(),
        ));
    }
    if !v.allowed {
        let status = v.status;
        ctx.record(v.rule_id, v.reason, "body", timestamp);
        ctx.body_inspector.clear();
        Decision::Respond(status)
    } else {
        Decision::Continue
    }
}

/// The whole body phase at end of stream: the engine of the upstream chosen
/// in the header phase inspects the buffered body. Without a chosen
/// upstream, or when the registry has no engine for it, the request goes on.
pub fn body_phase_end(
    ctx: &mut RequestContext,
    registry: &EngineRegistry,
    method: &str,
    uri: &str,
    version: HttpVersion,
    headers: &Headers,
    timestamp: i64,
) -> (d: Decision)
    requires
        old(ctx).wf(),
        registry.wf(),
    ensures
        final(ctx).wf(),
        final(ctx).upstream_name == old(ctx).upstream_name,
        old(ctx).upstream_name is None ==> d == Decision::Continue && final(ctx).violations@
            == old(ctx).violations@ && final(ctx).body_inspector == old(ctx).body_inspector,
        old(ctx).upstream_name is Some && !registry.keys().contains(old(ctx).upstream_name->0@)
            ==> d == Decision::Continue && final(ctx).violations@ == old(ctx).violations@
            && final(ctx).body_inspector == old(ctx).body_inspector,
        old(ctx).upstream_name is Some && registry.keys().contains(old(ctx).upstream_name->0@)
            ==> body_inspected(
            registry.rules_of(old(ctx).upstream_name->0@),
            request_line_of(method@, uri@, version),
            headers@,
            uri@,
            *old(ctx),
            *final(ctx),
            timestamp,
            d,
        ),
{
    let cell = match &ctx.upstream_name {
        Some(name) => match registry.get(name.as_str()) {
            Some(c) => c,
            None => {
                return Decision::Continue;
            },
        },
        None => {
            return Decision::Continue;
        },
    };
    let line = request_line(method, uri, version);
    inspect_body(ctx, cell.engine(), line.as_str(), headers, uri, timestamp)
}

} // verus!
