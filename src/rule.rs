//! Rules: the compiled rule record, its tabular record form, and the
//! conversions between them.

use crate::text::{chars_of, eq_exec};
use vstd::prelude::*;

verus! {

/// Pairs of action name and value, in source order.
pub type ActionsView = Seq<(Seq<char>, Seq<char>)>;

/// The value of action `key`; where a name occurs more than once the latest wins.
pub open spec fn lookup(m: ActionsView, key: Seq<char>) -> Option<Seq<char>>
    decreases m.len(),
{
    if m.len() == 0 {
        None
    } else if m.last().0 == key {
        Some(m.last().1)
    } else {
        lookup(m.drop_last(), key)
    }
}

pub open spec fn actions_view(v: Seq<(String, String)>) -> ActionsView {
    v.map_values(|p: (String, String)| (p.0@, p.1@))
}

pub open spec fn opt_view(o: Option<String>) -> Option<Seq<char>> {
    match o {
        Some(s) => Some(s@),
        None => None,
    }
}

/// A compiled match specification.
#[derive(Debug)]
pub struct ParsedRule {
    pub id: u32,
    /// 1: request line, URI and headers; 2: request body.
    pub phase: u8,
    /// `REQUEST_URI`, `REQUEST_LINE`, `REQUEST_BODY` or `REQUEST_HEADERS:<name>`.
    pub variable: String,
    pub operator: String,
    pub pattern: String,
    /// Action names and values in source order; a later name overrides an earlier one.
    pub actions: Vec<(String, String)>,
    pub msg: Option<String>,
    /// The status to answer with when the rule denies; 403 when absent.
    pub status: Option<u16>,
}

pub struct RuleView {
    pub id: u32,
    pub phase: u8,
    pub variable: Seq<char>,
    pub operator: Seq<char>,
    pub pattern: Seq<char>,
    pub actions: ActionsView,
    pub msg: Option<Seq<char>>,
    pub status: Option<u16>,
}

impl View for ParsedRule {
    type V = RuleView;

    open spec fn view(&self) -> RuleView {
        RuleView {
            id: self.id,
            phase: self.phase,
            variable: self.variable@,
            operator: self.operator@,
            pattern: self.pattern@,
            actions: actions_view(self.actions@),
            msg: opt_view(self.msg),
            status: self.status,
        }
    }
}

/// Whether a rule blocks when it matches: its `action` is `deny`.
pub open spec fn is_blocking(r: RuleView) -> bool {
    lookup(r.actions, "action"@) == Some("deny"@)
}

/// The status a matching rule answers with.
pub open spec fn deny_status(r: RuleView) -> u16 {
    match r.status {
        Some(s) => s,
        None => 403,
    }
}

/// One record of the tabular rules form.
#[derive(Debug)]
pub struct TomlRule {
    pub id: u32,
    pub phase: u32,
    /// One variable, such as `REQUEST_URI` or `REQUEST_HEADERS:User-Agent`.
    pub variables: String,
    /// The operator name: `streq`, `rx`, `contains`, `pm` and so on.
    pub operators: String,
    /// The operator's argument.
    pub pattern: String,
    /// The action: `deny`, `allow` and so on.
    pub actions: String,
    /// The status to answer with when the rule denies.
    pub status: Option<u16>,
    pub msg: Option<String>,
}

/// A whole tabular rules file.
#[derive(Debug)]
pub struct TomlRulesFile {
    pub rule: Vec<TomlRule>,
}

pub struct RecordView {
    pub id: u32,
    pub phase: u32,
    pub variables: Seq<char>,
    pub operators: Seq<char>,
    pub pattern: Seq<char>,
    pub actions: Seq<char>,
    pub status: Option<u16>,
    pub msg: Option<Seq<char>>,
}

impl View for TomlRule {
    type V = RecordView;

    open spec fn view(&self) -> RecordView {
        RecordView {
            id: self.id,
            phase: self.phase,
            variables: self.variables@,
            operators: self.operators@,
            pattern: self.pattern@,
            actions: self.actions@,
            status: self.status,
            msg: opt_view(self.msg),
        }
    }
}

/// The rule that a tabular record describes.
pub open spec fn rule_of_record(r: RecordView) -> RuleView {
    RuleView {
        id: r.id,
        phase: (r.phase % 256) as u8,
        variable: r.variables,
        operator: r.operators,
        pattern: r.pattern,
        actions: seq![("action"@, r.actions)],
        msg: r.msg,
        status: r.status,
    }
}

/// The tabular record that describes a rule.
pub open spec fn record_of_rule(r: RuleView) -> RecordView {
    RecordView {
        id: r.id,
        phase: r.phase as u32,
        variables: r.variable,
        operators: r.operator,
        pattern: r.pattern,
        actions: match lookup(r.actions, "action"@) {
            Some(a) => a,
            None => Seq::empty(),
        },
        status: r.status,
        msg: r.msg,
    }
}

/// A rule has the shape of the tabular form: its one action is `action`.
pub open spec fn is_tabular(r: RuleView) -> bool {
    r.actions.len() == 1 && r.actions[0].0 == "action"@
}

pub fn copy_opt(o: &Option<String>) -> (r: Option<String>)
    ensures
        opt_view(r) == opt_view(*o),
{
    match o {
        Some(s) => Some(s.clone()),
        None => None,
    }
}

pub fn copy_actions(v: &Vec<(String, String)>) -> (r: Vec<(String, String)>)
    ensures
        actions_view(r@) == actions_view(v@),
{
    let mut out: Vec<(String, String)> = Vec::new();
    let mut i: usize = 0;
    while i < v.len()
        invariant
            i <= v.len(),
            actions_view(out@) =~= actions_view(v@.take(i as int)),
        decreases v.len() - i,
    {
        let k = v[i].0.clone();
        let x = v[i].1.clone();
        let ghost prev = out@;
        out.push((k, x));
        proof {
            assert(v@.take(i + 1) == v@.take(i as int).push(v@[i as int]));
            assert(out@ == prev.push((k, x)));
            assert(actions_view(out@) =~= actions_view(prev).push((k@, x@)));
            assert(actions_view(v@.take(i + 1)) =~= actions_view(v@.take(i as int)).push(
                (v@[i as int].0@, v@[i as int].1@),
            ));
        }
        i = i + 1;
    }
    proof {
        assert(v@.take(v.len() as int) =~= v@);
    }
    out
}

impl ParsedRule {
    /// A field-by-field copy.
    pub fn copy(&self) -> (r: ParsedRule)
        ensures
            r@ == self@,
    {
        ParsedRule {
            id: self.id,
            phase: self.phase,
            variable: self.variable.clone(),
            operator: self.operator.clone(),
            pattern: self.pattern.clone(),
            actions: copy_actions(&self.actions),
            msg: copy_opt(&self.msg),
            status: self.status,
        }
    }
}

/// The value of action `key` in `actions`, the latest occurrence winning.
pub fn lookup_action(actions: &Vec<(String, String)>, key: &str) -> (r: Option<String>)
    ensures
        opt_view(r) == lookup(actions_view(actions@), key@),
{
    let k = chars_of(key);
    let mut i: usize = actions.len();
    proof {
        assert(actions@.take(i as int) =~= actions@);
    }
    while i > 0
        invariant
            i <= actions.len(),
            k@ == key@,
            lookup(actions_view(actions@), key@) == lookup(actions_view(actions@.take(i as int)), key@),
        decreases i,
    {
        let name = chars_of(actions[i - 1].0.as_str());
        proof {
            let m = actions_view(actions@.take(i as int));
            assert(m.drop_last() =~= actions_view(actions@.take(i - 1)));
            assert(m.last() == (actions@[i - 1].0@, actions@[i - 1].1@));
        }
        if eq_exec(&name, &k) {
            return Some(actions[i - 1].1.clone());
        }
        i = i - 1;
    }
    proof {
        assert(actions_view(actions@.take(0)) =~= Seq::empty());
    }
    None
}

/// The rule that a tabular record describes: its `actions` becomes the value
/// of the `action` key.
pub fn rule_from_record(r: &TomlRule) -> (out: ParsedRule)
    ensures
        out@ == rule_of_record(r@),
{
    let mut actions: Vec<(String, String)> = Vec::new();
    actions.push(("action".to_owned(), r.actions.clone()));
    let out = ParsedRule {
        id: r.id,
        phase: (r.phase % 256) as u8,
        variable: r.variables.clone(),
        operator: r.operators.clone(),
        pattern: r.pattern.clone(),
        actions,
        msg: copy_opt(&r.msg),
        status: r.status,
    };
    proof {
        assert(actions_view(out.actions@) =~= seq![("action"@, r.actions@)]);
    }
    out
}

/// The tabular record that describes a rule: the value of its `action` key
/// becomes the record's `actions`.
pub fn record_from_rule(r: &ParsedRule) -> (out: TomlRule)
    ensures
        out@ == record_of_rule(r@),
{
    let a = match lookup_action(&r.actions, "action") {
        Some(a) => a,
        None => String::new(),
    };
    TomlRule {
        id: r.id,
        phase: r.phase as u32,
        variables: r.variable.clone(),
        operators: r.operator.clone(),
        pattern: r.pattern.clone(),
        actions: a,
        status: r.status,
        msg: copy_opt(&r.msg),
    }
}

/// The rules of a tabular file, one per record, in order.
pub fn load_toml_rules(file: &TomlRulesFile) -> (out: Vec<ParsedRule>)
    ensures
        out@.len() == file.rule@.len(),
        forall|i: int| 0 <= i < out@.len() ==> #[trigger] out@[i]@ == rule_of_record(file.rule@[i]@),
{
    let mut out: Vec<ParsedRule> = Vec::new();
    let mut i: usize = 0;
    while i < file.rule.len()
        invariant
            i <= file.rule.len(),
            out@.len() == i,
            forall|j: int| 0 <= j < i ==> #[trigger] out@[j]@ == rule_of_record(file.rule@[j]@),
        decreases file.rule.len() - i,
    {
        out.push(rule_from_record(&file.rule[i]));
        i = i + 1;
    }
    out
}

/// The tabular file that describes a rule list, one record per rule, in order.
pub fn records_from_rules(rules: &Vec<ParsedRule>) -> (out: TomlRulesFile)
    ensures
        out.rule@.len() == rules@.len(),
        forall|i: int| 0 <= i < rules@.len() ==> #[trigger] out.rule@[i]@ == record_of_rule(rules@[i]@),
{
    let mut recs: Vec<TomlRule> = Vec::new();
    let mut i: usize = 0;
    while i < rules.len()
        invariant
            i <= rules.len(),
            recs@.len() == i,
            forall|j: int| 0 <= j < i ==> #[trigger] recs@[j]@ == record_of_rule(rules@[j]@),
        decreases rules.len() - i,
    {
        recs.push(record_from_rule(&rules[i]));
        i = i + 1;
    }
    TomlRulesFile { rule: recs }
}

/// Reading back the tabular form of a rule list gives the same rules, for
/// every list whose rules have the tabular shape.
pub proof fn lemma_tabular_round_trip(rules: Seq<RuleView>)
    requires
        forall|i: int| 0 <= i < rules.len() ==> is_tabular(#[trigger] rules[i]),
    ensures
        rules.map_values(|r: RuleView| rule_of_record(record_of_rule(r))) == rules,
{
    assert forall|i: int| 0 <= i < rules.len() implies rule_of_record(record_of_rule(#[trigger] rules[i]))
        == rules[i] by {
        let r = rules[i];
        assert(r.actions.drop_last() =~= Seq::empty());
        assert(lookup(r.actions.drop_last(), "action"@) == None::<Seq<char>>);
        assert(seq![("action"@, r.actions[0].1)] =~= r.actions);
    }
    assert(rules.map_values(|r: RuleView| rule_of_record(record_of_rule(r))) =~= rules);
}

} // verus!
