//! The operator library: pure predicates over a subject and an argument.

use crate::text::{
    chars_of, contains, contains_exec, eq_exec, lower, lower_chars, starts_with, starts_with_exec,
};
use vstd::prelude::*;

verus! {

#[verifier::external_type_specification]
#[verifier::external_body]
pub struct ExRegex(regex::Regex);

/// Whether `pattern` compiles as a case-insensitive regular expression.
pub uninterp spec fn regex_compiles(pattern: Seq<char>) -> bool;

/// Whether the case-insensitive regular expression `pattern` finds a match
/// anywhere in `subject`.
pub uninterp spec fn regex_finds(pattern: Seq<char>, subject: Seq<char>) -> bool;

/// A compiled case-insensitive regular expression together with its source.
/// Values are only made by [`compile_regex`], from the source they hold.
pub struct RegexMatcher {
    source: String,
    re: regex::Regex,
}

impl RegexMatcher {
    pub closed spec fn source(&self) -> Seq<char> {
        self.source@
    }
}

/// Relies on `regex::RegexBuilder::new(..).case_insensitive(true).build()`:
/// it succeeds exactly on the patterns that compile.
#[verifier::external_body]
pub fn compile_regex(pattern: &str) -> (r: Option<RegexMatcher>)
    ensures
        r is Some <==> regex_compiles(pattern@),
        r is Some ==> r->0.source() == pattern@,
{
    match regex::RegexBuilder::new(pattern).case_insensitive(true).build() {
        Ok(re) => Some(RegexMatcher { source: pattern.to_string(), re }),
        Err(_) => None,
    }
}

/// Relies on `regex::Regex::is_match`: whether the expression, compiled from
/// the matcher's source, matches anywhere in `subject`.
#[verifier::external_body]
pub fn regex_is_match(m: &RegexMatcher, subject: &str) -> (r: bool)
    ensures
        r == regex_finds(m.source(), subject@),
{
    m.re.is_match(subject)
}

/// The closed set of operators a rule may name.
#[derive(Clone, Copy, Debug, PartialEq, Eq, Structural)]
pub enum OperatorKind {
    /// `contains` or `pm`: the subject holds the argument.
    Contains,
    /// `streq`: the subject equals the argument.
    Streq,
    /// `beginswith`: the subject starts with the argument.
    BeginsWith,
    /// `!beginswith`: the subject does not start with the argument.
    NotBeginsWith,
    /// `rx`: a regular expression finds a match in the subject.
    Rx,
    /// Any other name: never holds.
    Unknown,
}

/// The operator that a name denotes, compared without regard to ASCII case.
pub open spec fn kind_of(name: Seq<char>) -> OperatorKind {
    let l = lower(name);
    if l == "contains"@ || l == "pm"@ {
        OperatorKind::Contains
    } else if l == "streq"@ {
        OperatorKind::Streq
    } else if l == "beginswith"@ {
        OperatorKind::BeginsWith
    } else if l == "!beginswith"@ {
        OperatorKind::NotBeginsWith
    } else if l == "rx"@ {
        OperatorKind::Rx
    } else {
        OperatorKind::Unknown
    }
}

/// Whether operator `k` holds of `subject` with `argument`, both taken as given.
pub open spec fn holds(k: OperatorKind, subject: Seq<char>, argument: Seq<char>) -> bool {
    match k {
        OperatorKind::Contains => contains(subject, argument),
        OperatorKind::Streq => subject == argument,
        OperatorKind::BeginsWith => starts_with(subject, argument),
        OperatorKind::NotBeginsWith => !starts_with(subject, argument),
        OperatorKind::Rx => regex_compiles(argument) && regex_finds(argument, subject),
        OperatorKind::Unknown => false,
    }
}

/// The phrase that describes an operator in log lines and reasons.
pub open spec fn desc_of(k: OperatorKind) -> Seq<char> {
    match k {
        OperatorKind::Contains => "содержит"@,
        OperatorKind::Streq => "равно"@,
        OperatorKind::BeginsWith => "начинается с"@,
        OperatorKind::NotBeginsWith => "не начинается с"@,
        OperatorKind::Rx => "совпадает с regex"@,
        OperatorKind::Unknown => "проверяется по"@,
    }
}

fn is_name(l: &Vec<char>, name: &str) -> (r: bool)
    ensures
        r == (l@ == name@),
{
    let n = chars_of(name);
    eq_exec(l, &n)
}

/// Classifies an operator name.
pub fn operator_kind(name: &str) -> (r: OperatorKind)
    ensures
        r == kind_of(name@),
{
    let l = lower_chars(name);
    if is_name(&l, "contains") || is_name(&l, "pm") {
        OperatorKind::Contains
    } else if is_name(&l, "streq") {
        OperatorKind::Streq
    } else if is_name(&l, "beginswith") {
        OperatorKind::BeginsWith
    } else if is_name(&l, "!beginswith") {
        OperatorKind::NotBeginsWith
    } else if is_name(&l, "rx") {
        OperatorKind::Rx
    } else {
        OperatorKind::Unknown
    }
}

/// Applies a non-regex operator to character sequences.
pub fn holds_plain(k: OperatorKind, subject: &Vec<char>, argument: &Vec<char>) -> (r: bool)
    requires
        k != OperatorKind::Rx,
    ensures
        r == holds(k, subject@, argument@),
{
    match k {
        OperatorKind::Contains => contains_exec(subject, argument),
        OperatorKind::Streq => eq_exec(subject, argument),
        OperatorKind::BeginsWith => starts_with_exec(subject, argument),
        OperatorKind::NotBeginsWith => !starts_with_exec(subject, argument),
        _ => false,
    }
}

/// Applies the operator named `operator` to `value` with `argument`. Both
/// sides are taken as given; a regular expression is compiled case-insensitively
/// and never matches when it does not compile.
pub fn check_operator(operator: &str, value: &str, argument: &str) -> (r: bool)
    ensures
        r == holds(kind_of(operator@), value@, argument@),
{
    let k = operator_kind(operator);
    match k {
        OperatorKind::Rx => match compile_regex(argument) {
            Some(m) => regex_is_match(&m, value),
            None => false,
        },
        _ => {
            let v = chars_of(value);
            let a = chars_of(argument);
            holds_plain(k, &v, &a)
        },
    }
}

/// A stable human-readable phrase for an operator, used only for logging.
pub fn operator_desc(operator: &str) -> (r: &'static str)
    ensures
        r@ == desc_of(kind_of(operator@)),
{
    match operator_kind(operator) {
        OperatorKind::Contains => "содержит",
        OperatorKind::Streq => "равно",
        OperatorKind::BeginsWith => "начинается с",
        OperatorKind::NotBeginsWith => "не начинается с",
        OperatorKind::Rx => "совпадает с regex",
        OperatorKind::Unknown => "проверяется по",
    }
}

} // verus!
