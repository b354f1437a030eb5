//! The rule engine: evaluates a request against an ordered rule list,
//! first match wins.

use crate::operator::{
    compile_regex, desc_of, holds, holds_plain, kind_of, operator_desc, operator_kind,
    regex_is_match, OperatorKind, RegexMatcher,
};
use crate::rule::{
    actions_view, deny_status, is_blocking, lookup_action, opt_view, ParsedRule, RuleView,
};
use crate::text::{
    chars_of, decimal, decimal_string, eq_exec, lower, lower_chars, starts_with, starts_with_exec,
    string_of,
};
use vstd::prelude::*;

verus! {

/// Header name/value pairs in arrival order.
pub type HeadersView = Seq<(Seq<char>, Seq<char>)>;

/// Request headers as name/value pairs in arrival order.
#[derive(Debug)]
pub struct Headers {
    pub entries: Vec<(String, String)>,
}

impl View for Headers {
    type V = HeadersView;

    open spec fn view(&self) -> HeadersView {
        actions_view(self.entries@)
    }
}

impl Headers {
    pub fn new() -> (r: Headers)
        ensures
            r@ == Seq::<(Seq<char>, Seq<char>)>::empty(),
    {
        let r = Headers { entries: Vec::new() };
        proof {
            assert(r@ =~= Seq::<(Seq<char>, Seq<char>)>::empty());
        }
        r
    }

    /// Appends a header; an earlier one of the same name keeps precedence.
    pub fn insert(&mut self, name: &str, value: &str)
        ensures
            final(self)@ == old(self)@.push((name@, value@)),
    {
        let ghost prev = self.entries@;
        self.entries.push((name.to_owned(), value.to_owned()));
        proof {
            assert(actions_view(self.entries@) =~= actions_view(prev).push((name@, value@)));
        }
    }
}

/// The value of the first header whose name equals `name` without regard to
/// ASCII case.
pub open spec fn find_header(hs: HeadersView, name: Seq<char>) -> Option<Seq<char>>
    decreases hs.len(),
{
    if hs.len() == 0 {
        None
    } else if lower(hs[0].0) == lower(name) {
        Some(hs[0].1)
    } else {
        find_header(hs.drop_first(), name)
    }
}

/// How many rules satisfy `p`.
pub open spec fn count_where(rules: Seq<RuleView>, p: spec_fn(RuleView) -> bool) -> nat
    decreases rules.len(),
{
    if rules.len() == 0 {
        0
    } else {
        count_where(rules.drop_last(), p) + if p(rules.last()) {
            1nat
        } else {
            0nat
        }
    }
}

proof fn lemma_count_le(rules: Seq<RuleView>, p: spec_fn(RuleView) -> bool)
    ensures
        count_where(rules, p) <= rules.len(),
    decreases rules.len(),
{
    if rules.len() > 0 {
        lemma_count_le(rules.drop_last(), p);
    }
}

/// Rule counts for observability.
#[derive(Debug, Clone, Copy, PartialEq, Eq, Structural)]
pub struct RulesSummary {
    pub total: usize,
    /// Rules whose action is `deny`.
    pub blocking: usize,
    /// Every other rule.
    pub logging: usize,
    /// Rules on `REQUEST_URI`.
    pub uri_rules: usize,
    /// Rules on `REQUEST_HEADERS:<name>`.
    pub header_rules: usize,
}

pub open spec fn uri_rule(r: RuleView) -> bool {
    r.variable == "REQUEST_URI"@
}

pub open spec fn header_rule(r: RuleView) -> bool {
    is_header_variable(r.variable)
}

pub open spec fn blocking_rule(r: RuleView) -> bool {
    is_blocking(r)
}

/// The summary of a rule list.
pub open spec fn summary_of(rules: Seq<RuleView>) -> RulesSummary {
    RulesSummary {
        total: rules.len() as usize,
        blocking: count_where(rules, |r: RuleView| blocking_rule(r)) as usize,
        logging: (rules.len() - count_where(rules, |r: RuleView| blocking_rule(r))) as usize,
        uri_rules: count_where(rules, |r: RuleView| uri_rule(r)) as usize,
        header_rules: count_where(rules, |r: RuleView| header_rule(r)) as usize,
    }
}

/// The two-line text of a summary: its first line, then the URI and
/// header rule counts.
pub open spec fn summary_text(s: RulesSummary) -> Seq<char> {
    summary_first_line(s) + "\nПравил URI: "@ + decimal(s.uri_rules as nat) + ", Правил заголовков: "@
        + decimal(s.header_rules as nat)
}

/// What one evaluation looks at.
pub struct RequestView {
    pub line: Seq<char>,
    pub headers: HeadersView,
    pub uri: Seq<char>,
    /// Present in the body phase only.
    pub body: Option<Seq<char>>,
}

pub open spec fn opt_str_view(o: Option<&str>) -> Option<Seq<char>> {
    match o {
        Some(s) => Some(s@),
        None => None,
    }
}

pub open spec fn request_view(line: &str, headers: &Headers, uri: &str, body: Option<&str>) -> RequestView {
    RequestView { line: line@, headers: headers@, uri: uri@, body: opt_str_view(body) }
}

pub open spec fn is_header_variable(v: Seq<char>) -> bool {
    starts_with(v, "REQUEST_HEADERS:"@)
}

pub open spec fn header_suffix(v: Seq<char>) -> Seq<char> {
    v.skip("REQUEST_HEADERS:"@.len() as int)
}

/// The value a rule's variable selects from a request; none where the
/// variable is unknown, the header is absent, or the body is not available.
pub open spec fn subject_of(v: Seq<char>, req: RequestView) -> Option<Seq<char>> {
    if is_header_variable(v) {
        find_header(req.headers, header_suffix(v))
    } else if v == "REQUEST_URI"@ {
        Some(req.uri)
    } else if v == "REQUEST_LINE"@ {
        Some(req.line)
    } else if v == "REQUEST_BODY"@ {
        req.body
    } else {
        None
    }
}

/// Phase 1 (and 0) rules run without a body; phase 2 and later with one.
pub open spec fn in_phase(phase: u8, req: RequestView) -> bool {
    if req.body is Some {
        phase >= 2
    } else {
        phase < 2
    }
}

/// An operator applied as the engine applies it: regular expressions see the
/// subject and pattern as given, every other operator their ASCII lower case.
pub open spec fn operator_matches(k: OperatorKind, subject: Seq<char>, pattern: Seq<char>) -> bool {
    if k == OperatorKind::Rx {
        holds(k, subject, pattern)
    } else {
        holds(k, lower(subject), lower(pattern))
    }
}

pub open spec fn rule_matches(r: RuleView, req: RequestView) -> bool {
    &&& in_phase(r.phase, req)
    &&& subject_of(r.variable, req) is Some
    &&& operator_matches(kind_of(r.operator), subject_of(r.variable, req)->0, r.pattern)
}

/// Rule `i` matches and no earlier one does.
pub open spec fn is_first_match(rules: Seq<RuleView>, req: RequestView, i: int) -> bool {
    &&& 0 <= i < rules.len()
    &&& rule_matches(rules[i], req)
    &&& forall|j: int| 0 <= j < i ==> !rule_matches(#[trigger] rules[j], req)
}

pub open spec fn no_match(rules: Seq<RuleView>, req: RequestView) -> bool {
    forall|j: int| 0 <= j < rules.len() ==> !rule_matches(#[trigger] rules[j], req)
}

/// What a verdict names as the inspected target.
pub open spec fn target_label(v: Seq<char>) -> Seq<char> {
    if is_header_variable(v) {
        header_suffix(v)
    } else if v == "REQUEST_URI"@ {
        "URI"@
    } else {
        v
    }
}

pub open spec fn reason_for(r: RuleView) -> Seq<char> {
    let tail = " "@ + desc_of(kind_of(r.operator)) + " '"@ + r.pattern + "'"@;
    if is_header_variable(r.variable) {
        "header '"@ + header_suffix(r.variable) + "'"@ + tail
    } else {
        target_label(r.variable) + tail
    }
}

/// The result of evaluating a request.
#[derive(Debug)]
pub struct WafCheckResult {
    pub allowed: bool,
    pub matched_rule: Option<ParsedRule>,
    /// The inspected target: a header name, `URI`, `REQUEST_LINE` or `REQUEST_BODY`.
    pub header_name: Option<String>,
    /// The inspected value, as the request carried it.
    pub header_value: Option<String>,
    pub reason: String,
    pub rule_id: u32,
    pub msg: Option<String>,
    /// The status to answer with when the request is not allowed.
    pub status: u16,
}

pub struct VerdictView {
    pub allowed: bool,
    pub matched_rule: Option<RuleView>,
    pub header_name: Option<Seq<char>>,
    pub header_value: Option<Seq<char>>,
    pub reason: Seq<char>,
    pub rule_id: u32,
    pub msg: Option<Seq<char>>,
    pub status: u16,
}

impl View for WafCheckResult {
    type V = VerdictView;

    open spec fn view(&self) -> VerdictView {
        VerdictView {
            allowed: self.allowed,
            matched_rule: match self.matched_rule {
                Some(r) => Some(r@),
                None => None,
            },
            header_name: opt_view(self.header_name),
            header_value: opt_view(self.header_value),
            reason: self.reason@,
            rule_id: self.rule_id,
            msg: opt_view(self.msg),
            status: self.status,
        }
    }
}

/// The verdict when rule `r` matched `subject`.
pub open spec fn verdict_for(r: RuleView, subject: Seq<char>) -> VerdictView {
    VerdictView {
        allowed: !is_blocking(r),
        matched_rule: Some(r),
        header_name: Some(target_label(r.variable)),
        header_value: Some(subject),
        reason: reason_for(r),
        rule_id: r.id,
        msg: r.msg,
        status: deny_status(r),
    }
}

/// The verdict when no rule matched.
pub open spec fn verdict_none() -> VerdictView {
    VerdictView {
        allowed: true,
        matched_rule: None,
        header_name: None,
        header_value: None,
        reason: "Ни одно правило не сработало"@,
        rule_id: 0,
        msg: Some(Seq::empty()),
        status: 200,
    }
}

/// The verdict of a rule list on a request.
pub open spec fn verdict(rules: Seq<RuleView>, req: RequestView, v: VerdictView) -> bool {
    &&& no_match(rules, req) ==> v == verdict_none()
    &&& forall|i: int|
        is_first_match(rules, req, i) ==> v == verdict_for(
            #[trigger] rules[i],
            subject_of(rules[i].variable, req)->0,
        )
}

/// What a rule's variable selects, resolved once when the engine is built.
enum Target {
    Header { name: String, lowered: Vec<char> },
    Uri,
    Line,
    Body,
    Unknown,
}

impl Target {
    spec fn wf_for(&self, v: Seq<char>) -> bool {
        match self {
            Target::Header { name, lowered } => is_header_variable(v) && name@ == header_suffix(v)
                && lowered@ == lower(header_suffix(v)),
            Target::Uri => !is_header_variable(v) && v == "REQUEST_URI"@,
            Target::Line => !is_header_variable(v) && v == "REQUEST_LINE"@,
            Target::Body => !is_header_variable(v) && v == "REQUEST_BODY"@,
            Target::Unknown => !is_header_variable(v) && v != "REQUEST_URI"@ && v
                != "REQUEST_LINE"@ && v != "REQUEST_BODY"@,
        }
    }
}

/// A rule with its operator classified, pattern folded and regex compiled.
struct CompiledRule {
    kind: OperatorKind,
    pattern_lower: Vec<char>,
    matcher: Option<RegexMatcher>,
    target: Target,
    blocking: bool,
    status: u16,
}

impl CompiledRule {
    spec fn wf_for(&self, r: RuleView) -> bool {
        &&& self.kind == kind_of(r.operator)
        &&& self.pattern_lower@ == lower(r.pattern)
        &&& (self.matcher is Some <==> (self.kind == OperatorKind::Rx && crate::operator::regex_compiles(r.pattern)))
        &&& (self.matcher is Some ==> self.matcher->0.source() == r.pattern)
        &&& self.blocking == is_blocking(r)
        &&& self.status == deny_status(r)
        &&& self.target.wf_for(r.variable)
    }
}

fn skip_chars(v: &Vec<char>, n: usize) -> (r: Vec<char>)
    requires
        n <= v.len(),
    ensures
        r@ == v@.skip(n as int),
{
    let mut out: Vec<char> = Vec::new();
    let mut i: usize = n;
    while i < v.len()
        invariant
            n <= i <= v.len(),
            out@ == v@.subrange(n as int, i as int),
        decreases v.len() - i,
    {
        out.push(v[i]);
        proof {
            assert(out@ =~= v@.subrange(n as int, i + 1));
        }
        i = i + 1;
    }
    proof {
        assert(out@ =~= v@.skip(n as int));
    }
    out
}

fn lower_vec(v: &Vec<char>) -> (r: Vec<char>)
    ensures
        r@ == lower(v@),
{
    let s = string_of(v);
    lower_chars(s.as_str())
}

fn compile_target(variable: &str) -> (t: Target)
    ensures
        t.wf_for(variable@),
{
    let v = chars_of(variable);
    let prefix = chars_of("REQUEST_HEADERS:");
    if starts_with_exec(&v, &prefix) {
        let suffix = skip_chars(&v, prefix.len());
        let lowered = lower_vec(&suffix);
        Target::Header { name: string_of(&suffix), lowered }
    } else if eq_exec(&v, &chars_of("REQUEST_URI")) {
        Target::Uri
    } else if eq_exec(&v, &chars_of("REQUEST_LINE")) {
        Target::Line
    } else if eq_exec(&v, &chars_of("REQUEST_BODY")) {
        Target::Body
    } else {
        Target::Unknown
    }
}

fn compile_rule(rule: &ParsedRule) -> (c: CompiledRule)
    ensures
        c.wf_for(rule@),
{
    let kind = operator_kind(rule.operator.as_str());
    let matcher = match kind {
        OperatorKind::Rx => compile_regex(rule.pattern.as_str()),
        _ => None,
    };
    let blocking = match lookup_action(&rule.actions, "action") {
        Some(a) => eq_exec(&chars_of(a.as_str()), &chars_of("deny")),
        None => false,
    };
    let status: u16 = match rule.status {
        Some(s) => s,
        None => 403,
    };
    CompiledRule {
        kind,
        pattern_lower: lower_chars(rule.pattern.as_str()),
        matcher,
        target: compile_target(rule.variable.as_str()),
        blocking,
        status,
    }
}

/// The first header whose name equals `lowered_name` after ASCII folding.
fn find_header_exec<'a>(headers: &'a Headers, lowered_name: &Vec<char>, name: Ghost<Seq<char>>) -> (r: Option<&'a str>)
    requires
        lowered_name@ == lower(name@),
    ensures
        opt_str_view(r) == find_header(headers@, name@),
{
    let mut i: usize = 0;
    proof {
        assert(headers@.skip(0) =~= headers@);
    }
    while i < headers.entries.len()
        invariant
            i <= headers.entries.len(),
            lowered_name@ == lower(name@),
            find_header(headers@, name@) == find_header(headers@.skip(i as int), name@),
        decreases headers.entries.len() - i,
    {
        let entry = &headers.entries[i];
        let n = lower_chars(entry.0.as_str());
        proof {
            assert(headers@.skip(i as int)[0] == (entry.0@, entry.1@));
            assert(headers@.skip(i as int).drop_first() =~= headers@.skip(i + 1));
        }
        if eq_exec(&n, lowered_name) {
            return Some(entry.1.as_str());
        }
        i = i + 1;
    }
    proof {
        assert(headers@.skip(i as int).len() == 0);
    }
    None
}

/// Rule lists paired with their compiled forms.
pub struct Engine {
    rules: Vec<ParsedRule>,
    compiled: Vec<CompiledRule>,
}

impl Engine {
    #[verifier::type_invariant]
    spec fn inv(&self) -> bool {
        &&& self.compiled@.len() == self.rules@.len()
        &&& forall|i: int| 0 <= i < self.rules@.len() ==> (#[trigger] self.compiled@[i]).wf_for(self.rules@[i]@)
    }

    /// The rules, in evaluation order.
    pub closed spec fn rules_view(&self) -> Seq<RuleView> {
        self.rules@.map_values(|r: ParsedRule| r@)
    }

    /// Builds an engine over `rules`, compiling each regular expression once.
    pub fn new(rules: Vec<ParsedRule>) -> (e: Engine)
        ensures
            e.rules_view() == rules@.map_values(|r: ParsedRule| r@),
    {
        let mut compiled: Vec<CompiledRule> = Vec::new();
        let mut i: usize = 0;
        while i < rules.len()
            invariant
                i <= rules.len(),
                compiled@.len() == i,
                forall|j: int| 0 <= j < i ==> (#[trigger] compiled@[j]).wf_for(rules@[j]@),
            decreases rules.len() - i,
        {
            compiled.push(compile_rule(&rules[i]));
            i = i + 1;
        }
        Engine { rules, compiled }
    }

    /// The engine without rules, which allows every request.
    pub fn empty() -> (e: Engine)
        ensures
            e.rules_view() == Seq::<RuleView>::empty(),
    {
        let e = Engine::new(Vec::new());
        proof {
            assert(e.rules_view() =~= Seq::<RuleView>::empty());
        }
        e
    }

    /// The rules, in evaluation order.
    pub fn rules(&self) -> (r: &Vec<ParsedRule>)
        ensures
            r@.map_values(|x: ParsedRule| x@) == self.rules_view(),
    {
        &self.rules
    }

    fn subject<'a>(
        &self,
        i: usize,
        request_line: &'a str,
        headers: &'a Headers,
        uri: &'a str,
        body: Option<&'a str>,
    ) -> (r: Option<&'a str>)
        requires
            i < self.rules_view().len(),
        ensures
            opt_str_view(r) == subject_of(
                self.rules_view()[i as int].variable,
                request_view(request_line, headers, uri, body),
            ),
    {
        proof {
            use_type_invariant(self);
        }
        let c = &self.compiled[i];
        proof {
            assert(self.rules_view()[i as int] == self.rules@[i as int]@);
            assert(c.wf_for(self.rules@[i as int]@));
            lemma_variable_names_distinct();
        }
        match &c.target {
            Target::Header { name, lowered } => find_header_exec(headers, lowered, Ghost(name@)),
            Target::Uri => Some(uri),
            Target::Line => Some(request_line),
            Target::Body => body,
            Target::Unknown => None,
        }
    }

    fn rule_holds(&self, i: usize, subject: &str) -> (r: bool)
        requires
            i < self.rules_view().len(),
        ensures
            r == operator_matches(
                kind_of(self.rules_view()[i as int].operator),
                subject@,
                self.rules_view()[i as int].pattern,
            ),
    {
        proof {
            use_type_invariant(self);
        }
        let c = &self.compiled[i];
        match c.kind {
            OperatorKind::Rx => match &c.matcher {
                Some(m) => regex_is_match(m, subject),
                None => false,
            },
            k => {
                let s = lower_chars(subject);
                holds_plain(k, &s, &c.pattern_lower)
            },
        }
    }

    fn verdict_at(&self, i: usize, subject: &str) -> (v: WafCheckResult)
        requires
            i < self.rules_view().len(),
        ensures
            v@ == verdict_for(self.rules_view()[i as int], subject@),
    {
        proof {
            use_type_invariant(self);
        }
        let rule = &self.rules[i];
        let c = &self.compiled[i];
        proof {
            assert(self.rules_view()[i as int] == rule@);
            lemma_variable_names_distinct();
        }
        let desc = operator_desc(rule.operator.as_str());
        let (label, mut reason) = match &c.target {
            Target::Header { name, .. } => {
                let mut reason = "header '".to_owned();
                reason.append(name.as_str());
                reason.append("'");
                (name.clone(), reason)
            },
            Target::Uri => ("URI".to_owned(), "URI".to_owned()),
            _ => (rule.variable.clone(), rule.variable.clone()),
        };
        reason.append(" ");
        reason.append(desc);
        reason.append(" '");
        reason.append(rule.pattern.as_str());
        reason.append("'");
        proof {
            let r = self.rules_view()[i as int];
            assert(r == rule@);
            assert(reason@ =~= reason_for(r));
        }
        WafCheckResult {
            allowed: !c.blocking,
            matched_rule: Some(rule.copy()),
            header_name: Some(label),
            header_value: Some(subject.to_owned()),
            reason,
            rule_id: rule.id,
            msg: crate::rule::copy_opt(&rule.msg),
            status: c.status,
        }
    }

    /// Evaluates the request against the rules in order; the first rule that
    /// matches decides. Without a body only rules of phase 0 and 1 run, with
    /// one only rules of phase 2 and later.
    pub fn check_detailed(
        &self,
        request_line: &str,
        headers: &Headers,
        uri: &str,
        body: Option<&str>,
    ) -> (v: WafCheckResult)
        ensures
            verdict(self.rules_view(), request_view(request_line, headers, uri, body), v@),
    {
        let ghost req = request_view(request_line, headers, uri, body);
        let ghost rules = self.rules_view();
        let n = self.rules.len();
        let mut i: usize = 0;
        while i < n
            invariant
                n == rules.len(),
                rules == self.rules_view(),
                req == request_view(request_line, headers, uri, body),
                i <= n,
                forall|j: int| 0 <= j < i ==> !rule_matches(#[trigger] rules[j], req),
            decreases n - i,
        {
            let phase = self.rules[i].phase;
            let active = match body {
                Some(_) => phase >= 2,
                None => phase < 2,
            };
            if active {
                match self.subject(i, request_line, headers, uri, body) {
                    Some(s) => {
                        if self.rule_holds(i, s) {
                            let v = self.verdict_at(i, s);
                            proof {
                                assert(rule_matches(rules[i as int], req));
                                assert forall|k: int| is_first_match(rules, req, k) implies k == i by {
                                    if k < i {
                                    } else if k > i {
                                        assert(!rule_matches(rules[i as int], req));
                                    }
                                }
                            }
                            return v;
                        }
                    },
                    None => {},
                }
            }
            i = i + 1;
        }
        let v = WafCheckResult {
            allowed: true,
            matched_rule: None,
            header_name: None,
            header_value: None,
            reason: "Ни одно правило не сработало".to_owned(),
            rule_id: 0,
            msg: Some(String::new()),
            status: 200,
        };
        v
    }

    /// Whether the request passes the header-phase rules.
    pub fn check(&self, request_line: &str, headers: &Headers, uri: &str) -> (r: bool)
        ensures
            exists|v: VerdictView|
                verdict(self.rules_view(), request_view(request_line, headers, uri, None), v)
                    && r == v.allowed,
            forall|v: VerdictView|
                verdict(self.rules_view(), request_view(request_line, headers, uri, None), v)
                    ==> r == v.allowed,
    {
        let v = self.check_detailed(request_line, headers, uri, None);
        proof {
            lemma_verdict_unique(self.rules_view(), request_view(request_line, headers, uri, None), v@);
        }
        v.allowed
    }
}

proof fn lemma_variable_names_distinct()
    ensures
        "REQUEST_URI"@ != "REQUEST_LINE"@,
        "REQUEST_URI"@ != "REQUEST_BODY"@,
        "REQUEST_LINE"@ != "REQUEST_BODY"@,
        !is_header_variable("REQUEST_URI"@),
{
    reveal_strlit("REQUEST_HEADERS:");
    reveal_strlit("REQUEST_URI");
    reveal_strlit("REQUEST_LINE");
    reveal_strlit("REQUEST_BODY");
    assert("REQUEST_LINE"@[8] != "REQUEST_BODY"@[8]);
}

impl Engine {
    /// Counts of all, blocking, logging-only, URI and header rules.
    pub fn summary(&self) -> (s: RulesSummary)
        ensures
            s == summary_of(self.rules_view()),
    {
        proof {
            use_type_invariant(self);
        }
        let ghost rules = self.rules_view();
        let mut blocking: usize = 0;
        let mut uri_rules: usize = 0;
        let mut header_rules: usize = 0;
        let mut i: usize = 0;
        while i < self.rules.len()
            invariant
                rules == self.rules_view(),
                self.compiled@.len() == self.rules@.len(),
                forall|k: int| 0 <= k < self.rules@.len() ==> (#[trigger] self.compiled@[k]).wf_for(self.rules@[k]@),
                i <= self.rules.len(),
                blocking == count_where(rules.take(i as int), |r: RuleView| blocking_rule(r)),
                uri_rules == count_where(rules.take(i as int), |r: RuleView| uri_rule(r)),
                header_rules == count_where(rules.take(i as int), |r: RuleView| header_rule(r)),
            decreases self.rules.len() - i,
        {
            let c = &self.compiled[i];
            proof {
                let t = rules.take(i + 1);
                assert(t.drop_last() =~= rules.take(i as int));
                assert(t.last() == self.rules@[i as int]@);
                lemma_count_le(rules.take(i as int), |r: RuleView| blocking_rule(r));
                lemma_count_le(rules.take(i as int), |r: RuleView| uri_rule(r));
                lemma_count_le(rules.take(i as int), |r: RuleView| header_rule(r));
                lemma_variable_names_distinct();
            }
            if c.blocking {
                blocking = blocking + 1;
            }
            match c.target {
                Target::Uri => {
                    uri_rules = uri_rules + 1;
                },
                Target::Header { .. } => {
                    header_rules = header_rules + 1;
                },
                _ => {},
            }
            i = i + 1;
        }
        proof {
            assert(rules.take(self.rules@.len() as int) =~= rules);
            lemma_count_le(rules, |r: RuleView| blocking_rule(r));
        }
        RulesSummary {
            total: self.rules.len(),
            blocking,
            logging: self.rules.len() - blocking,
            uri_rules,
            header_rules,
        }
    }

    /// The summary as two lines of text.
    pub fn get_rules_info(&self) -> (r: String)
        ensures
            r@ == summary_text(summary_of(self.rules_view())),
    {
        summary_string(self.summary())
    }
}

/// The first line of a summary's text.
pub open spec fn summary_first_line(s: RulesSummary) -> Seq<char> {
    "Всего правил: "@ + decimal(s.total as nat) + " (блокирующих: "@ + decimal(s.blocking as nat)
        + ", логгируемых: "@ + decimal(s.logging as nat) + ")"@
}

pub fn summary_first_line_string(s: RulesSummary) -> (r: String)
    ensures
        r@ == summary_first_line(s),
{
    let mut out = "Всего правил: ".to_owned();
    out.append(decimal_string(s.total as u64).as_str());
    out.append(" (блокирующих: ");
    out.append(decimal_string(s.blocking as u64).as_str());
    out.append(", логгируемых: ");
    out.append(decimal_string(s.logging as u64).as_str());
    out.append(")");
    out
}

pub fn summary_string(s: RulesSummary) -> (r: String)
    ensures
        r@ == summary_text(s),
{
    let mut out = summary_first_line_string(s);
    out.append("\nПравил URI: ");
    out.append(decimal_string(s.uri_rules as u64).as_str());
    out.append(", Правил заголовков: ");
    out.append(decimal_string(s.header_rules as u64).as_str());
    proof {
        assert(out@ =~= summary_text(s));
    }
    out
}

/// Some rule matching means that a first one does.
pub proof fn lemma_first_match_exists(rules: Seq<RuleView>, req: RequestView)
    requires
        !no_match(rules, req),
    ensures
        exists|i: int| is_first_match(rules, req, i),
    decreases rules.len(),
{
    if no_match(rules.drop_last(), req) {
        let i = rules.len() - 1;
        assert forall|j: int| 0 <= j < i implies !rule_matches(#[trigger] rules[j], req) by {
            assert(rules.drop_last()[j] == rules[j]);
        }
        assert(rule_matches(rules[i], req));
        assert(is_first_match(rules, req, i));
    } else {
        lemma_first_match_exists(rules.drop_last(), req);
        let i = choose|i: int| is_first_match(rules.drop_last(), req, i);
        assert forall|j: int| 0 <= j < i implies !rule_matches(#[trigger] rules[j], req) by {
            assert(rules.drop_last()[j] == rules[j]);
        }
        assert(rules.drop_last()[i] == rules[i]);
        assert(is_first_match(rules, req, i));
    }
}

/// One verdict at most fits a rule list and a request.
pub proof fn lemma_verdict_unique(rules: Seq<RuleView>, req: RequestView, v: VerdictView)
    requires
        verdict(rules, req, v),
    ensures
        forall|w: VerdictView| verdict(rules, req, w) ==> w == v,
{
    if !no_match(rules, req) {
        lemma_first_match_exists(rules, req);
    }
}

} // verus!
