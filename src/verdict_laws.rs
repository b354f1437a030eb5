//! Laws of rule evaluation, stated over the engine's verdict.

use crate::engine::{
    find_header, in_phase, is_first_match, lemma_first_match_exists, no_match, operator_matches,
    rule_matches, subject_of, verdict, verdict_for, HeadersView, RequestView, VerdictView,
};
use crate::operator::{kind_of, regex_compiles, OperatorKind};
use crate::rule::{is_blocking, RuleView};
use crate::text::lower;
use vstd::prelude::*;

verus! {

/// When no rule matches, the request is allowed and the verdict names rule 0.
pub proof fn lemma_no_match_allows(rules: Seq<RuleView>, req: RequestView, v: VerdictView)
    requires
        verdict(rules, req, v),
        no_match(rules, req),
    ensures
        v.allowed,
        v.rule_id == 0,
{
}

/// When some rule matches, the verdict names the earliest matching rule.
pub proof fn lemma_earliest_match_decides(rules: Seq<RuleView>, req: RequestView, v: VerdictView)
    requires
        verdict(rules, req, v),
        exists|k: int| 0 <= k < rules.len() && rule_matches(#[trigger] rules[k], req),
    ensures
        exists|i: int|
            {
                &&& 0 <= i < rules.len()
                &&& rule_matches(#[trigger] rules[i], req)
                &&& (forall|j: int| 0 <= j < i ==> !rule_matches(#[trigger] rules[j], req))
                &&& v.rule_id == rules[i].id
            },
{
    lemma_first_match_exists(rules, req);
    let i = choose|i: int| is_first_match(rules, req, i);
    assert(v.rule_id == rules[i].id);
}

/// A request is refused only by a matching rule whose action is `deny`.
pub proof fn lemma_only_deny_refuses(rules: Seq<RuleView>, req: RequestView, v: VerdictView)
    requires
        verdict(rules, req, v),
        !v.allowed,
    ensures
        exists|i: int| is_first_match(rules, req, i) && is_blocking(#[trigger] rules[i]),
{
    lemma_first_match_exists(rules, req);
    let i = choose|i: int| is_first_match(rules, req, i);
    assert(is_blocking(rules[i]));
}

/// The engine without rules allows every request.
pub proof fn lemma_empty_allows(req: RequestView, v: VerdictView)
    requires
        verdict(Seq::empty(), req, v),
    ensures
        v.allowed,
        v.rule_id == 0,
{
}

/// Rules of phase 0 or 1 never match in the body phase, and a rule on the
/// body never matches in the header phase.
pub proof fn lemma_phases_separate(r: RuleView, req: RequestView)
    ensures
        req.body is Some && r.phase < 2 ==> !rule_matches(r, req),
        req.body is None && r.variable == "REQUEST_BODY"@ ==> !rule_matches(r, req),
{
    reveal_strlit("REQUEST_BODY");
    reveal_strlit("REQUEST_URI");
    reveal_strlit("REQUEST_LINE");
    reveal_strlit("REQUEST_HEADERS:");
    if req.body is None && r.variable == "REQUEST_BODY"@ {
        assert(r.variable[8] != "REQUEST_HEADERS:"@[8]);
        assert(r.variable != "REQUEST_LINE"@) by {
            assert(r.variable[8] != "REQUEST_LINE"@[8]);
        }
    }
}

/// A regular-expression rule whose pattern does not compile never matches.
pub proof fn lemma_invalid_regex_never_matches(r: RuleView, req: RequestView)
    requires
        kind_of(r.operator) == OperatorKind::Rx,
        !regex_compiles(r.pattern),
    ensures
        !rule_matches(r, req),
{
}

/// Removing a rule that does not match a request leaves the verdict on that
/// request as it was; in particular a regular-expression rule whose pattern
/// does not compile can be dropped without changing any verdict.
pub proof fn lemma_drop_unmatched_rule(
    rules: Seq<RuleView>,
    j: int,
    req: RequestView,
    v: VerdictView,
    w: VerdictView,
)
    requires
        0 <= j < rules.len(),
        !rule_matches(rules[j], req),
        verdict(rules, req, v),
        verdict(rules.remove(j), req, w),
    ensures
        v == w,
{
    let rs = rules.remove(j);
    assert forall|k: int| 0 <= k < rs.len() implies #[trigger] rs[k] == (if k < j {
        rules[k]
    } else {
        rules[k + 1]
    }) by {}
    if no_match(rules, req) {
        assert forall|k: int| 0 <= k < rs.len() implies !rule_matches(#[trigger] rs[k], req) by {
            if k < j {
                assert(!rule_matches(rules[k], req));
            } else {
                assert(!rule_matches(rules[k + 1], req));
            }
        }
    } else {
        lemma_first_match_exists(rules, req);
        let i = choose|i: int| is_first_match(rules, req, i);
        assert(i != j);
        let i2 = if i < j {
            i
        } else {
            i - 1
        };
        assert(rs[i2] == rules[i]);
        assert forall|k: int| 0 <= k < i2 implies !rule_matches(#[trigger] rs[k], req) by {
            if k < j {
                assert(!rule_matches(rules[k], req));
            } else {
                assert(!rule_matches(rules[k + 1], req));
            }
        }
        assert(is_first_match(rs, req, i2));
        assert(w == verdict_for(rs[i2], subject_of(rs[i2].variable, req)->0));
    }
}

/// A single denying phase-2 rule on `REQUEST_BODY` with a regular
/// expression blocks a body in which the expression finds a match, with the
/// rule's id and its status (403 when it sets none).
pub proof fn lemma_body_regex_blocks(r: RuleView, req: RequestView, v: VerdictView)
    requires
        r.phase == 2,
        r.variable == "REQUEST_BODY"@,
        kind_of(r.operator) == OperatorKind::Rx,
        is_blocking(r),
        req.body is Some,
        regex_compiles(r.pattern),
        crate::operator::regex_finds(r.pattern, req.body->0),
        verdict(seq![r], req, v),
    ensures
        !v.allowed,
        v.rule_id == r.id,
        v.status == crate::rule::deny_status(r),
        r.status is None ==> v.status == 403,
{
    reveal_strlit("REQUEST_BODY");
    reveal_strlit("REQUEST_URI");
    reveal_strlit("REQUEST_LINE");
    reveal_strlit("REQUEST_HEADERS:");
    assert(r.variable[8] != "REQUEST_HEADERS:"@[8]);
    assert(r.variable[8] != "REQUEST_LINE"@[8]);
    assert(subject_of(r.variable, req) == req.body);
    assert(rule_matches(seq![r][0], req));
    assert(is_first_match(seq![r], req, 0));
}

/// Two header lists that agree up to ASCII case, entry by entry.
pub open spec fn same_folded_headers(a: HeadersView, b: HeadersView) -> bool {
    &&& a.len() == b.len()
    &&& forall|i: int|
        0 <= i < a.len() ==> lower(#[trigger] a[i].0) == lower(b[i].0) && lower(a[i].1) == lower(
            b[i].1,
        )
}

/// Two requests that agree up to ASCII case in every part.
pub open spec fn same_folded_request(a: RequestView, b: RequestView) -> bool {
    &&& lower(a.line) == lower(b.line)
    &&& lower(a.uri) == lower(b.uri)
    &&& same_folded_headers(a.headers, b.headers)
    &&& (a.body is Some <==> b.body is Some)
    &&& (a.body is Some ==> lower(a.body->0) == lower(b.body->0))
}

/// Two rule lists without regular expressions that differ at most in the
/// ASCII case of their patterns.
pub open spec fn same_folded_rules(a: Seq<RuleView>, b: Seq<RuleView>) -> bool {
    &&& a.len() == b.len()
    &&& forall|i: int|
        0 <= i < a.len() ==> {
            &&& (#[trigger] a[i]).id == b[i].id
            &&& a[i].phase == b[i].phase
            &&& a[i].variable == b[i].variable
            &&& a[i].operator == b[i].operator
            &&& a[i].actions == b[i].actions
            &&& a[i].status == b[i].status
            &&& lower(a[i].pattern) == lower(b[i].pattern)
            &&& kind_of(a[i].operator) != OperatorKind::Rx
        }
}

proof fn lemma_find_header_folded(a: HeadersView, b: HeadersView, name: Seq<char>)
    requires
        same_folded_headers(a, b),
    ensures
        (find_header(a, name) is Some <==> find_header(b, name) is Some),
        find_header(a, name) is Some ==> lower(find_header(a, name)->0) == lower(
            find_header(b, name)->0,
        ),
    decreases a.len(),
{
    if a.len() > 0 {
        assert(lower(a[0].0) == lower(b[0].0));
        let (a1, b1) = (a.drop_first(), b.drop_first());
        assert forall|i: int| 0 <= i < a1.len() implies lower(#[trigger] a1[i].0) == lower(b1[i].0)
            && lower(a1[i].1) == lower(b1[i].1) by {
            assert(a1[i] == a[i + 1] && b1[i] == b[i + 1]);
        }
        lemma_find_header_folded(a1, b1, name);
    }
}

proof fn lemma_rule_matches_folded(r: RuleView, s: RuleView, a: RequestView, b: RequestView)
    requires
        same_folded_request(a, b),
        r.phase == s.phase,
        r.variable == s.variable,
        r.operator == s.operator,
        lower(r.pattern) == lower(s.pattern),
        kind_of(r.operator) != OperatorKind::Rx,
    ensures
        rule_matches(r, a) == rule_matches(s, b),
{
    lemma_find_header_folded(a.headers, b.headers, crate::engine::header_suffix(r.variable));
    assert(in_phase(r.phase, a) == in_phase(s.phase, b));
    let (sa, sb) = (subject_of(r.variable, a), subject_of(s.variable, b));
    assert(sa is Some <==> sb is Some);
    if sa is Some {
        assert(lower(sa->0) == lower(sb->0));
        assert(operator_matches(kind_of(r.operator), sa->0, r.pattern) == operator_matches(
            kind_of(s.operator),
            sb->0,
            s.pattern,
        ));
    }
}

/// Outside regular expressions, evaluation does not see ASCII case: changing
/// the case of subjects and patterns keeps the decision and the deciding rule.
pub proof fn lemma_case_insensitive(
    r1: Seq<RuleView>,
    r2: Seq<RuleView>,
    q1: RequestView,
    q2: RequestView,
    v1: VerdictView,
    v2: VerdictView,
)
    requires
        same_folded_rules(r1, r2),
        same_folded_request(q1, q2),
        verdict(r1, q1, v1),
        verdict(r2, q2, v2),
    ensures
        v1.allowed == v2.allowed,
        v1.rule_id == v2.rule_id,
{
    assert forall|i: int| 0 <= i < r1.len() implies rule_matches(#[trigger] r1[i], q1)
        == rule_matches(r2[i], q2) by {
        lemma_rule_matches_folded(r1[i], r2[i], q1, q2);
    }
    if !no_match(r1, q1) {
        lemma_first_match_exists(r1, q1);
        let i = choose|i: int| is_first_match(r1, q1, i);
        assert forall|j: int| 0 <= j < i implies !rule_matches(#[trigger] r2[j], q2) by {
            assert(rule_matches(r1[j], q1) == rule_matches(r2[j], q2));
        }
        assert(is_first_match(r2, q2, i));
        assert(is_blocking(r1[i]) == is_blocking(r2[i]));
    } else {
        assert forall|j: int| 0 <= j < r2.len() implies !rule_matches(#[trigger] r2[j], q2) by {
            assert(rule_matches(r1[j], q1) == rule_matches(r2[j], q2));
        }
    }
}

} // verus!
