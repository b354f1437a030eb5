//! The administrative surface: which endpoint a path names, and what each
//! endpoint answers.

use crate::engine::{summary_of, summary_text, RulesSummary};
use crate::rule::RuleView;
use crate::shared::{info_text, stats_text, EngineRegistry};
use crate::text::{chars_of, eq_exec, starts_with, starts_with_exec, string_of};
use vstd::prelude::*;

verus! {

/// An administrative endpoint.
#[derive(Debug)]
pub enum AdminRoute {
    /// `/reload`: reload every engine from its rules file.
    Reload,
    /// `/stats`: rule counts per upstream.
    Stats,
    /// `/health`.
    Health,
    /// `/info`: a compact summary.
    Info,
    /// `/server/<name>`, with a name: one upstream's summary.
    Server(String),
    /// Anything else.
    NotFound,
}

pub enum RouteView {
    Reload,
    Stats,
    Health,
    Info,
    Server(Seq<char>),
    NotFound,
}

impl View for AdminRoute {
    type V = RouteView;

    open spec fn view(&self) -> RouteView {
        match self {
            AdminRoute::Reload => RouteView::Reload,
            AdminRoute::Stats => RouteView::Stats,
            AdminRoute::Health => RouteView::Health,
            AdminRoute::Info => RouteView::Info,
            AdminRoute::Server(n) => RouteView::Server(n@),
            AdminRoute::NotFound => RouteView::NotFound,
        }
    }
}

/// The endpoint a request path names.
pub open spec fn route_of(path: Seq<char>) -> RouteView {
    if path == "/reload"@ {
        RouteView::Reload
    } else if path == "/stats"@ {
        RouteView::Stats
    } else if path == "/health"@ {
        RouteView::Health
    } else if path == "/info"@ {
        RouteView::Info
    } else if starts_with(path, "/server/"@) {
        let name = path.skip("/server/"@.len() as int);
        if name.len() == 0 {
            RouteView::NotFound
        } else {
            RouteView::Server(name)
        }
    } else {
        RouteView::NotFound
    }
}

fn is_path(p: &Vec<char>, lit: &str) -> (r: bool)
    ensures
        r == (p@ == lit@),
{
    eq_exec(p, &chars_of(lit))
}

/// Names the endpoint of a request path.
pub fn admin_route(path: &str) -> (r: AdminRoute)
    ensures
        r@ == route_of(path@),
{
    let p = chars_of(path);
    if is_path(&p, "/reload") {
        AdminRoute::Reload
    } else if is_path(&p, "/stats") {
        AdminRoute::Stats
    } else if is_path(&p, "/health") {
        AdminRoute::Health
    } else if is_path(&p, "/info") {
        AdminRoute::Info
    } else {
        let prefix = chars_of("/server/");
        if starts_with_exec(&p, &prefix) {
            let mut name: Vec<char> = Vec::new();
            let mut i: usize = prefix.len();
            while i < p.len()
                invariant
                    prefix@ == "/server/"@,
                    prefix.len() <= i <= p.len(),
                    name@ == p@.subrange(prefix.len() as int, i as int),
                decreases p.len() - i,
            {
                name.push(p[i]);
                proof {
                    assert(name@ =~= p@.subrange(prefix.len() as int, i + 1));
                }
                i = i + 1;
            }
            proof {
                assert(name@ =~= p@.skip(prefix.len() as int));
            }
            if name.len() == 0 {
                AdminRoute::NotFound
            } else {
                AdminRoute::Server(string_of(&name))
            }
        } else {
            AdminRoute::NotFound
        }
    }
}

/// An answer of the administrative surface.
#[derive(Debug)]
pub struct AdminResponse {
    pub status: u16,
    pub body: String,
}

/// `parts` joined by `sep`.
pub open spec fn joined(parts: Seq<Seq<char>>, sep: Seq<char>) -> Seq<char>
    decreases parts.len(),
{
    if parts.len() == 0 {
        Seq::empty()
    } else if parts.len() == 1 {
        parts[0]
    } else {
        joined(parts.drop_last(), sep) + sep + parts.last()
    }
}

/// Joins strings with a separator.
pub fn join(parts: &Vec<String>, sep: &str) -> (r: String)
    ensures
        r@ == joined(parts@.map_values(|s: String| s@), sep@),
{
    let ghost ps = parts@.map_values(|s: String| s@);
    let mut out = String::new();
    let mut i: usize = 0;
    while i < parts.len()
        invariant
            ps == parts@.map_values(|s: String| s@),
            i <= parts.len(),
            out@ == joined(ps.take(i as int), sep@),
        decreases parts.len() - i,
    {
        proof {
            assert(ps.take(i + 1).drop_last() =~= ps.take(i as int));
            if i == 0 {
                assert(ps.take(1) =~= seq![ps[0]]);
                assert(out@ =~= Seq::<char>::empty());
            }
        }
        if i > 0 {
            out.append(sep);
        }
        out.append(parts[i].as_str());
        proof {
            if i == 0 {
                assert(out@ =~= joined(ps.take(1), sep@));
            } else {
                assert(out@ =~= joined(ps.take(i + 1), sep@));
            }
        }
        i = i + 1;
    }
    proof {
        assert(ps.take(parts.len() as int) =~= ps);
    }
    out
}

pub open spec fn health_reply(r: AdminResponse) -> bool {
    r.status == 200 && r.body@ == "healthy"@
}

pub open spec fn not_found_reply(r: AdminResponse) -> bool {
    r.status == 404 && r.body@
        == "❌ Endpoint not found. Available: /reload, /stats, /health, /info, /server/{name}"@
}

pub open spec fn reload_reply(result: Result<(), Vec<String>>, r: AdminResponse) -> bool {
    &&& result is Ok ==> r.status == 200 && r.body@ == "All WAF rules reloaded successfully"@
    &&& result is Err ==> r.status == 500 && r.body@ == "❌ Reload failed: "@ + joined(
        result->Err_0@.map_values(|s: String| s@),
        "; "@,
    )
}

pub open spec fn summaries(registry: EngineRegistry) -> Seq<RulesSummary> {
    registry.rules().map_values(|rs: Seq<RuleView>| summary_of(rs))
}

pub open spec fn stats_reply(registry: EngineRegistry, r: AdminResponse) -> bool {
    r.status == 200 && r.body@ == stats_text(registry.keys(), summaries(registry))
}

pub open spec fn info_reply(registry: EngineRegistry, r: AdminResponse) -> bool {
    r.status == 200 && r.body@ == info_text(registry.keys(), summaries(registry))
}

pub open spec fn server_reply(registry: EngineRegistry, name: Seq<char>, r: AdminResponse) -> bool {
    &&& registry.keys().contains(name) ==> r.status == 200 && r.body@ == summary_text(
        summary_of(registry.rules_of(name)),
    )
    &&& !registry.keys().contains(name) ==> r.status == 404 && r.body@ == "Server '"@ + name
        + "' not found"@
}

pub fn health_response() -> (r: AdminResponse)
    ensures
        health_reply(r),
{
    AdminResponse { status: 200, body: "healthy".to_owned() }
}

pub fn not_found_response() -> (r: AdminResponse)
    ensures
        not_found_reply(r),
{
    AdminResponse {
        status: 404,
        body: "❌ Endpoint not found. Available: /reload, /stats, /health, /info, /server/{name}".to_owned(),
    }
}

/// 200 after a full reload; 500 with every error, `; `-separated, otherwise.
pub fn reload_response(result: &Result<(), Vec<String>>) -> (r: AdminResponse)
    ensures
        reload_reply(*result, r),
{
    match result {
        Ok(()) => AdminResponse { status: 200, body: "All WAF rules reloaded successfully".to_owned() },
        Err(errors) => {
            let mut body = "❌ Reload failed: ".to_owned();
            body.append(join(errors, "; ").as_str());
            AdminResponse { status: 500, body }
        },
    }
}

/// Rule counts of every upstream.
pub fn stats_response(registry: &EngineRegistry) -> (r: AdminResponse)
    ensures
        stats_reply(*registry, r),
{
    AdminResponse { status: 200, body: registry.get_all_rules_info() }
}

/// The compact summary of every upstream.
pub fn info_response(registry: &EngineRegistry) -> (r: AdminResponse)
    ensures
        info_reply(*registry, r),
{
    AdminResponse { status: 200, body: registry.get_waf_info() }
}

/// One upstream's summary, or 404 when the registry has no such upstream.
pub fn server_response(registry: &EngineRegistry, name: &str) -> (r: AdminResponse)
    requires
        registry.wf(),
    ensures
        server_reply(*registry, name@, r),
{
    match registry.get_server_info(name) {
        Some(body) => AdminResponse { status: 200, body },
        None => {
            let mut body = "Server '".to_owned();
            body.append(name);
            body.append("' not found");
            AdminResponse { status: 404, body }
        },
    }
}

/// What an admin request asks of the caller.
#[derive(Debug)]
pub enum AdminAction {
    /// Load every upstream's rules file, hand the results to
    /// `EngineRegistry::reload_all_rules`, and answer with `reload_response`.
    ReloadAll,
    /// Answer with this response.
    Reply(AdminResponse),
}

/// Answers an admin request for `path`; a reload is left to the caller,
/// which alone can read the rules files.
pub fn admin_request(path: &str, registry: &EngineRegistry) -> (r: AdminAction)
    requires
        registry.wf(),
    ensures
        (route_of(path@) is Reload) <==> (r is ReloadAll),
        route_of(path@) is Stats ==> r is Reply && stats_reply(*registry, r->Reply_0),
        route_of(path@) is Health ==> r is Reply && health_reply(r->Reply_0),
        route_of(path@) is Info ==> r is Reply && info_reply(*registry, r->Reply_0),
        route_of(path@) is Server ==> r is Reply && server_reply(
            *registry,
            route_of(path@)->Server_0,
            r->Reply_0,
        ),
        route_of(path@) is NotFound ==> r is Reply && not_found_reply(r->Reply_0),
{
    match admin_route(path) {
        AdminRoute::Reload => AdminAction::ReloadAll,
        AdminRoute::Stats => AdminAction::Reply(stats_response(registry)),
        AdminRoute::Health => AdminAction::Reply(health_response()),
        AdminRoute::Info => AdminAction::Reply(info_response(registry)),
        AdminRoute::Server(name) => AdminAction::Reply(server_response(registry, name.as_str())),
        AdminRoute::NotFound => AdminAction::Reply(not_found_response()),
    }
}

} // verus!
