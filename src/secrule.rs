//! The textual rules form: one `SecRule <VAR> "@<op> <arg>" "<actions>"`
//! per line; blank lines and `#` comments are skipped, and so are lines that
//! do not parse.

use crate::router::{is_space, is_space_exec, skip_spaces, trim, trim_exec};
use crate::rule::{actions_view, lookup, lookup_action, opt_view, ActionsView, ParsedRule, RuleView};
use crate::text::{chars_of, eq_exec, lower, string_of};
use vstd::prelude::*;

verus! {

/// `s` cut at every `sep`: one more piece than there are separators.
pub open spec fn split_on(s: Seq<char>, sep: char) -> Seq<Seq<char>>
    decreases s.len(),
{
    if s.len() == 0 {
        seq![Seq::empty()]
    } else {
        let prev = split_on(s.drop_last(), sep);
        if s.last() == sep {
            prev.push(Seq::empty())
        } else {
            prev.update(prev.len() - 1, prev.last().push(s.last()))
        }
    }
}

proof fn lemma_split_nonempty(s: Seq<char>, sep: char)
    ensures
        split_on(s, sep).len() >= 1,
    decreases s.len(),
{
    if s.len() > 0 {
        lemma_split_nonempty(s.drop_last(), sep);
    }
}

pub open spec fn seqs_view(v: Seq<Vec<char>>) -> Seq<Seq<char>> {
    v.map_values(|x: Vec<char>| x@)
}

/// Cuts `s` at every `sep`.
pub fn split_exec(s: &Vec<char>, sep: char) -> (r: Vec<Vec<char>>)
    ensures
        seqs_view(r@) == split_on(s@, sep),
{
    let mut done: Vec<Vec<char>> = Vec::new();
    let mut cur: Vec<char> = Vec::new();
    let mut i: usize = 0;
    proof {
        assert(s@.take(0) =~= Seq::<char>::empty());
        assert(seqs_view(done@).push(cur@) =~= split_on(s@.take(0), sep));
    }
    while i < s.len()
        invariant
            i <= s.len(),
            seqs_view(done@).push(cur@) == split_on(s@.take(i as int), sep),
        decreases s.len() - i,
    {
        let c = s[i];
        proof {
            assert(s@.take(i + 1).drop_last() =~= s@.take(i as int));
            lemma_split_nonempty(s@.take(i as int), sep);
        }
        if c == sep {
            let ghost prev = seqs_view(done@).push(cur@);
            let finished = cur;
            done.push(finished);
            cur = Vec::new();
            proof {
                assert(seqs_view(done@).push(cur@) =~= prev.push(Seq::empty()));
            }
        } else {
            let ghost prev = seqs_view(done@).push(cur@);
            cur.push(c);
            proof {
                assert(seqs_view(done@).push(cur@) =~= prev.update(prev.len() - 1, prev.last().push(c)));
            }
        }
        i = i + 1;
    }
    proof {
        assert(s@.take(s.len() as int) =~= s@);
    }
    let ghost prev = seqs_view(done@).push(cur@);
    done.push(cur);
    proof {
        assert(seqs_view(done@) =~= prev);
    }
    done
}

/// The first index at or after `i` that holds `c`, or the length.
pub open spec fn find_char(s: Seq<char>, c: char, i: int) -> int
    decreases s.len() - i,
{
    if i < 0 || i >= s.len() {
        s.len() as int
    } else if s[i] == c {
        i
    } else {
        find_char(s, c, i + 1)
    }
}

fn find_char_exec(s: &Vec<char>, c: char, from: usize) -> (r: usize)
    requires
        from <= s.len(),
    ensures
        r == find_char(s@, c, from as int),
        from <= r <= s.len(),
{
    let mut i: usize = from;
    while i < s.len() && s[i] != c
        invariant
            from <= i <= s.len(),
            find_char(s@, c, from as int) == find_char(s@, c, i as int),
        decreases s.len() - i,
    {
        i = i + 1;
    }
    i
}

/// The first index at or after `i` that holds a space, or the length.
pub open spec fn token_end(s: Seq<char>, i: int) -> int
    decreases s.len() - i,
{
    if i < 0 || i >= s.len() {
        s.len() as int
    } else if is_space(s[i]) {
        i
    } else {
        token_end(s, i + 1)
    }
}

fn token_end_exec(s: &Vec<char>, from: usize) -> (r: usize)
    requires
        from <= s.len(),
    ensures
        r == token_end(s@, from as int),
        from <= r <= s.len(),
{
    let mut i: usize = from;
    while i < s.len() && !is_space_exec(s[i])
        invariant
            from <= i <= s.len(),
            token_end(s@, from as int) == token_end(s@, i as int),
        decreases s.len() - i,
    {
        i = i + 1;
    }
    i
}

fn skip_spaces_exec(s: &Vec<char>, from: usize) -> (r: usize)
    requires
        from <= s.len(),
    ensures
        r == skip_spaces(s@, from as int),
        from <= r <= s.len(),
{
    let mut i: usize = from;
    while i < s.len() && is_space_exec(s[i])
        invariant
            from <= i <= s.len(),
            skip_spaces(s@, from as int) == skip_spaces(s@, i as int),
        decreases s.len() - i,
    {
        i = i + 1;
    }
    i
}

fn slice_of(s: &Vec<char>, a: usize, b: usize) -> (r: Vec<char>)
    requires
        a <= b <= s.len(),
    ensures
        r@ == s@.subrange(a as int, b as int),
{
    let mut out: Vec<char> = Vec::new();
    let mut i: usize = a;
    while i < b
        invariant
            a <= i <= b <= s.len(),
            out@ == s@.subrange(a as int, i as int),
        decreases b - i,
    {
        out.push(s[i]);
        proof {
            assert(out@ =~= s@.subrange(a as int, i + 1));
        }
        i = i + 1;
    }
    out
}

/// `s` without leading and trailing single quotes.
pub open spec fn strip_quotes(s: Seq<char>) -> Seq<char> {
    let a = find_non_quote(s, 0);
    let b = trim_quotes_end(s, s.len() as int);
    if a < b {
        s.subrange(a, b)
    } else {
        Seq::empty()
    }
}

pub open spec fn find_non_quote(s: Seq<char>, i: int) -> int
    decreases s.len() - i,
{
    if 0 <= i < s.len() && s[i] == '\'' {
        find_non_quote(s, i + 1)
    } else {
        i
    }
}

pub open spec fn trim_quotes_end(s: Seq<char>, j: int) -> int
    decreases j,
{
    if 0 < j <= s.len() && s[j - 1] == '\'' {
        trim_quotes_end(s, j - 1)
    } else {
        j
    }
}

fn strip_quotes_exec(s: &Vec<char>) -> (r: Vec<char>)
    ensures
        r@ == strip_quotes(s@),
{
    let mut a: usize = 0;
    while a < s.len() && s[a] == '\''
        invariant
            a <= s.len(),
            find_non_quote(s@, 0) == find_non_quote(s@, a as int),
        decreases s.len() - a,
    {
        a = a + 1;
    }
    let mut b: usize = s.len();
    while b > 0 && s[b - 1] == '\''
        invariant
            b <= s.len(),
            trim_quotes_end(s@, s@.len() as int) == trim_quotes_end(s@, b as int),
        decreases b,
    {
        b = b - 1;
    }
    if a < b {
        slice_of(s, a, b)
    } else {
        Vec::new()
    }
}

/// Bare action words that name the rule's disruptive action.
pub open spec fn is_disruptive(word: Seq<char>) -> bool {
    word == "deny"@ || word == "allow"@ || word == "pass"@
}

/// One `key[:value]` item: a value loses its surrounding single quotes; a
/// bare key has an empty value.
pub open spec fn action_pair(part: Seq<char>) -> (Seq<char>, Seq<char>) {
    let k = find_char(part, ':', 0);
    if k < part.len() {
        (part.take(k), strip_quotes(part.skip(k + 1)))
    } else {
        (part, Seq::empty())
    }
}

/// A bare `deny`, `allow` or `pass`: besides its own key, it sets `action`.
pub open spec fn is_disruptive_item(part: Seq<char>) -> bool {
    find_char(part, ':', 0) >= part.len() && is_disruptive(part)
}

/// The actions of a comma-separated list, skipping empty items.
pub open spec fn actions_of_parts(parts: Seq<Seq<char>>) -> ActionsView
    decreases parts.len(),
{
    if parts.len() == 0 {
        Seq::empty()
    } else {
        let prev = actions_of_parts(parts.drop_last());
        let p = trim(parts.last());
        if p.len() == 0 {
            prev
        } else if is_disruptive_item(p) {
            prev.push(action_pair(p)).push(("action"@, p))
        } else {
            prev.push(action_pair(p))
        }
    }
}

pub open spec fn parse_actions(s: Seq<char>) -> ActionsView {
    actions_of_parts(split_on(s, ','))
}

fn is_word(w: &Vec<char>, lit: &str) -> (r: bool)
    ensures
        r == (w@ == lit@),
{
    eq_exec(w, &chars_of(lit))
}

fn action_pair_exec(part: &Vec<char>) -> (r: (String, String))
    ensures
        (r.0@, r.1@) == action_pair(part@),
{
    let k = find_char_exec(part, ':', 0);
    if k < part.len() {
        let key = slice_of(part, 0, k);
        let value = strip_quotes_exec(&slice_of(part, k + 1, part.len()));
        proof {
            assert(key@ =~= part@.take(k as int));
            assert(part@.subrange(k + 1, part@.len() as int) =~= part@.skip(k + 1));
        }
        (string_of(&key), string_of(&value))
    } else {
        (string_of(part), String::new())
    }
}

fn parse_actions_exec(s: &Vec<char>) -> (r: Vec<(String, String)>)
    ensures
        actions_view(r@) == parse_actions(s@),
{
    let parts = split_exec(s, ',');
    let ghost ps = seqs_view(parts@);
    let mut out: Vec<(String, String)> = Vec::new();
    let mut i: usize = 0;
    while i < parts.len()
        invariant
            ps == seqs_view(parts@),
            i <= parts.len(),
            actions_view(out@) == actions_of_parts(ps.take(i as int)),
        decreases parts.len() - i,
    {
        proof {
            assert(ps.take(i + 1).drop_last() =~= ps.take(i as int));
            assert(ps.take(i + 1).last() == parts@[i as int]@);
        }
        let p = trim_exec(&parts[i]);
        if p.len() > 0 {
            let ghost prev = out@;
            let pair = action_pair_exec(&p);
            out.push(pair);
            proof {
                assert(actions_view(out@) =~= actions_view(prev).push((pair.0@, pair.1@)));
            }
            let k = find_char_exec(&p, ':', 0);
            if k == p.len() && (is_word(&p, "deny") || is_word(&p, "allow") || is_word(&p, "pass")) {
                let ghost mid = out@;
                out.push(("action".to_owned(), string_of(&p)));
                proof {
                    assert(actions_view(out@) =~= actions_view(mid).push(("action"@, p@)));
                }
            }
        }
        i = i + 1;
    }
    proof {
        assert(ps.take(parts.len() as int) =~= ps);
    }
    out
}

/// The digits of `s` read as a decimal number.
pub open spec fn digits_value(s: Seq<char>) -> nat
    decreases s.len(),
{
    if s.len() == 0 {
        0
    } else {
        digits_value(s.drop_last()) * 10 + ((s.last() as u32) - 48) as nat
    }
}

pub open spec fn all_digits(s: Seq<char>) -> bool {
    forall|i: int| 0 <= i < s.len() ==> '0' <= #[trigger] s[i] && s[i] <= '9'
}

/// `s` is a decimal number no greater than `max`.
pub open spec fn decimal_within(s: Seq<char>, max: nat) -> bool {
    s.len() > 0 && all_digits(s) && digits_value(s) <= max
}

proof fn lemma_digits_grow(s: Seq<char>, i: int)
    requires
        all_digits(s),
        0 <= i <= s.len(),
    ensures
        digits_value(s.take(i)) <= digits_value(s),
    decreases s.len() - i,
{
    if i < s.len() {
        lemma_digits_grow(s, i + 1);
        assert(s.take(i + 1).drop_last() =~= s.take(i));
    } else {
        assert(s.take(i) =~= s);
    }
}

/// Reads a decimal number no greater than `max`.
pub fn parse_decimal(s: &Vec<char>, max: u64) -> (r: Option<u64>)
    ensures
        r is Some <==> decimal_within(s@, max as nat),
        r is Some ==> r->0 == digits_value(s@),
{
    if s.len() == 0 {
        return None;
    }
    let mut i: usize = 0;
    while i < s.len()
        invariant
            i <= s.len(),
            forall|j: int| 0 <= j < i ==> '0' <= #[trigger] s@[j] && s@[j] <= '9',
        decreases s.len() - i,
    {
        if !('0' <= s[i] && s[i] <= '9') {
            return None;
        }
        i = i + 1;
    }
    let mut acc: u64 = 0;
    let mut i: usize = 0;
    while i < s.len()
        invariant
            all_digits(s@),
            i <= s.len(),
            acc == digits_value(s@.take(i as int)),
            acc <= max,
        decreases s.len() - i,
    {
        let d: u64 = ((s[i] as u32) - 48) as u64;
        proof {
            assert(s@.take(i + 1).drop_last() =~= s@.take(i as int));
            assert('0' <= s@[i as int] && s@[i as int] <= '9');
        }
        if d > max || acc > (max - d) / 10 {
            proof {
                assert(acc * 10 + d > max) by (nonlinear_arith)
                    requires
                        d > max || acc > (max - d) / 10,
                        d <= max ==> (max - d) / 10 * 10 <= max - d,
                        acc >= 0,
                ;
                lemma_digits_grow(s@, i + 1);
            }
            return None;
        }
        proof {
            assert(acc * 10 + d <= max) by (nonlinear_arith)
                requires
                    acc <= (max - d) / 10,
                    d <= max,
            ;
        }
        acc = acc * 10 + d;
        i = i + 1;
    }
    proof {
        assert(s@.take(s.len() as int) =~= s@);
    }
    Some(acc)
}


/// The parts of one rule line.
pub struct LineParts {
    pub variable: Seq<char>,
    pub operator: Seq<char>,
    pub argument: Seq<char>,
    pub actions: Seq<char>,
}

/// `@<op> <arg>` or `!@<op> <arg>` inside the operator quotes; a negated
/// operator keeps its `!`.
pub open spec fn parse_operator(b: Seq<char>) -> Option<(Seq<char>, Seq<char>)> {
    let neg = b.len() > 0 && b[0] == '!';
    let s: int = if neg {
        1
    } else {
        0
    };
    if !(s < b.len() && b[s] == '@') {
        None
    } else {
        let e = token_end(b, s + 1);
        let g = skip_spaces(b, e);
        if !(s + 1 < e && g < b.len()) {
            None
        } else {
            let name = b.subrange(s + 1, e);
            Some((if neg { seq!['!'] + name } else { name }, b.subrange(g, b.len() as int)))
        }
    }
}

/// A trimmed line that starts with `SecRule` (in any case) and a space.
pub open spec fn has_keyword(t: Seq<char>) -> bool {
    t.len() > 7 && lower(t.take(7)) == "secrule"@ && is_space(t[7])
}

/// The parts of a rule line, none for anything else.
pub open spec fn parse_line(line: Seq<char>) -> Option<LineParts> {
    let t = trim(line);
    if !has_keyword(t) {
        None
    } else {
        let a = skip_spaces(t, 7);
        let b = token_end(t, a);
        let c = skip_spaces(t, b);
        if !(a < b && c < t.len() && t[c] == '"') {
            None
        } else {
            let q = find_char(t, '"', c + 1);
            let d = skip_spaces(t, q + 1);
            if !(q + 1 < t.len() && is_space(t[q + 1]) && d < t.len() - 1 && t[d] == '"' && t[t.len()
                - 1] == '"') {
                None
            } else {
                match parse_operator(t.subrange(c + 1, q)) {
                    None => None,
                    Some(op) => Some(
                        LineParts {
                            variable: t.subrange(a, b),
                            operator: op.0,
                            argument: op.1,
                            actions: t.subrange(d + 1, t.len() - 1),
                        },
                    ),
                }
            }
        }
    }
}

/// The rule a line describes. Besides parsing, it needs an `id` between 1
/// and 4294967295; `phase` (default 1) and `status`, where given, must be
/// decimal numbers that fit their fields.
pub open spec fn rule_of_line(line: Seq<char>) -> Option<RuleView> {
    match parse_line(line) {
        None => None,
        Some(p) => {
            let acts = parse_actions(p.actions);
            let id = lookup(acts, "id"@);
            let phase = lookup(acts, "phase"@);
            let status = lookup(acts, "status"@);
            if !(id is Some && decimal_within(id->0, 4294967295) && digits_value(id->0) > 0) {
                None
            } else if phase is Some && !decimal_within(phase->0, 255) {
                None
            } else if status is Some && !decimal_within(status->0, 65535) {
                None
            } else {
                Some(
                    RuleView {
                        id: digits_value(id->0) as u32,
                        phase: if phase is Some {
                            digits_value(phase->0) as u8
                        } else {
                            1
                        },
                        variable: p.variable,
                        operator: p.operator,
                        pattern: p.argument,
                        actions: acts,
                        msg: lookup(acts, "msg"@),
                        status: if status is Some {
                            Some(digits_value(status->0) as u16)
                        } else {
                            None
                        },
                    },
                )
            }
        },
    }
}

fn has_keyword_exec(t: &Vec<char>) -> (r: bool)
    ensures
        r == has_keyword(t@),
{
    if t.len() <= 7 {
        return false;
    }
    let head = crate::text::lower_chars(string_of(&slice_of(t, 0, 7)).as_str());
    proof {
        assert(t@.subrange(0, 7) =~= t@.take(7));
    }
    is_word(&head, "secrule") && is_space_exec(t[7])
}

fn parse_operator_exec(b: &Vec<char>) -> (r: Option<(Vec<char>, Vec<char>)>)
    ensures
        r is None <==> parse_operator(b@) is None,
        r is Some ==> ((r->0).0@, (r->0).1@) == parse_operator(b@)->0,
{
    let neg = b.len() > 0 && b[0] == '!';
    let s: usize = if neg {
        1
    } else {
        0
    };
    if !(s < b.len() && b[s] == '@') {
        return None;
    }
    let e = token_end_exec(b, s + 1);
    let g = skip_spaces_exec(b, e);
    if !(s + 1 < e && g < b.len()) {
        return None;
    }
    let name = slice_of(b, s + 1, e);
    let op = if neg {
        let mut v: Vec<char> = Vec::new();
        v.push('!');
        let ghost first = v@;
        let mut i: usize = 0;
        while i < name.len()
            invariant
                i <= name.len(),
                first == seq!['!'],
                v@ == first + name@.take(i as int),
            decreases name.len() - i,
        {
            v.push(name[i]);
            proof {
                assert(name@.take(i + 1) == name@.take(i as int).push(name@[i as int]));
                assert(v@ =~= first + name@.take(i + 1));
            }
            i = i + 1;
        }
        proof {
            assert(name@.take(name.len() as int) =~= name@);
        }
        v
    } else {
        name
    };
    Some((op, slice_of(b, g, b.len())))
}

/// The rule one line of the textual form describes, if it describes one.
pub fn parse_secrule(line: &str) -> (r: Option<ParsedRule>)
    ensures
        r is None <==> rule_of_line(line@) is None,
        r is Some ==> r->0@ == rule_of_line(line@)->0,
{
    let t = trim_exec(&chars_of(line));
    if !has_keyword_exec(&t) {
        return None;
    }
    let a = skip_spaces_exec(&t, 7);
    let b = token_end_exec(&t, a);
    let c = skip_spaces_exec(&t, b);
    if !(a < b && c < t.len() && t[c] == '"') {
        return None;
    }
    let q = find_char_exec(&t, '"', c + 1);
    if !(q < t.len() - 1) {
        return None;
    }
    let d = skip_spaces_exec(&t, q + 1);
    if !(is_space_exec(t[q + 1]) && d < t.len() - 1 && t[d] == '"' && t[t.len() - 1] == '"') {
        return None;
    }
    let (operator, argument) = match parse_operator_exec(&slice_of(&t, c + 1, q)) {
        None => {
            return None;
        },
        Some(op) => op,
    };
    let variable = slice_of(&t, a, b);
    let actions = parse_actions_exec(&slice_of(&t, d + 1, t.len() - 1));
    let ghost acts = actions_view(actions@);
    let id = match lookup_action(&actions, "id") {
        Some(v) => match parse_decimal(&chars_of(v.as_str()), 4294967295) {
            Some(n) => n,
            None => {
                return None;
            },
        },
        None => {
            return None;
        },
    };
    if id == 0 {
        return None;
    }
    let phase: u8 = match lookup_action(&actions, "phase") {
        Some(v) => match parse_decimal(&chars_of(v.as_str()), 255) {
            Some(n) => n as u8,
            None => {
                return None;
            },
        },
        None => 1,
    };
    let status: Option<u16> = match lookup_action(&actions, "status") {
        Some(v) => match parse_decimal(&chars_of(v.as_str()), 65535) {
            Some(n) => Some(n as u16),
            None => {
                return None;
            },
        },
        None => None,
    };
    let msg = lookup_action(&actions, "msg");
    let rule = ParsedRule {
        id: id as u32,
        phase,
        variable: string_of(&variable),
        operator: string_of(&operator),
        pattern: string_of(&argument),
        actions,
        msg,
        status,
    };
    Some(rule)
}


/// The rules of a textual rules file, one per line that describes one, in order.
pub open spec fn rules_of_lines(lines: Seq<Seq<char>>) -> Seq<RuleView>
    decreases lines.len(),
{
    if lines.len() == 0 {
        Seq::empty()
    } else {
        let prev = rules_of_lines(lines.drop_last());
        match rule_of_line(lines.last()) {
            Some(r) => prev.push(r),
            None => prev,
        }
    }
}

pub open spec fn rules_of_text(text: Seq<char>) -> Seq<RuleView> {
    rules_of_lines(split_on(text, '\n'))
}

/// Parses a textual rules file; lines that describe no rule are skipped.
pub fn parse_secrules(text: &str) -> (r: Vec<ParsedRule>)
    ensures
        r@.map_values(|x: ParsedRule| x@) == rules_of_text(text@),
{
    let lines = split_exec(&chars_of(text), '\n');
    let ghost ls = seqs_view(lines@);
    let mut out: Vec<ParsedRule> = Vec::new();
    let mut i: usize = 0;
    while i < lines.len()
        invariant
            ls == seqs_view(lines@),
            i <= lines.len(),
            out@.map_values(|x: ParsedRule| x@) == rules_of_lines(ls.take(i as int)),
        decreases lines.len() - i,
    {
        proof {
            assert(ls.take(i + 1).drop_last() =~= ls.take(i as int));
            assert(ls.take(i + 1).last() == lines@[i as int]@);
        }
        let line = string_of(&lines[i]);
        match parse_secrule(line.as_str()) {
            Some(rule) => {
                let ghost prev = out@;
                let ghost rv = rule@;
                out.push(rule);
                proof {
                    assert(out@.map_values(|x: ParsedRule| x@) =~= prev.map_values(|x: ParsedRule| x@).push(rv));
                }
            },
            None => {},
        }
        i = i + 1;
    }
    proof {
        assert(ls.take(lines.len() as int) =~= ls);
    }
    out
}

/// A line that is neither blank nor a `#` comment.
pub open spec fn significant(line: Seq<char>) -> bool {
    trim(line).len() > 0 && trim(line)[0] != '#'
}

/// A rules file is in the tabular form when its first significant line is
/// the record header `[[rule]]`; otherwise, and when it has no such line, it
/// is in the textual form, whose malformed lines are skipped.
pub open spec fn is_tabular_text(text: Seq<char>) -> bool {
    let ls = split_on(text, '\n');
    exists|i: int|
        0 <= i < ls.len() && significant(#[trigger] ls[i]) && trim(ls[i]) == "[[rule]]"@ && forall|j: int|
            0 <= j < i ==> !significant(#[trigger] ls[j])
}

/// The positions of the lines that are neither blank, nor comments, nor rules.
pub open spec fn malformed_of(lines: Seq<Seq<char>>) -> Seq<int>
    decreases lines.len(),
{
    if lines.len() == 0 {
        Seq::empty()
    } else {
        let prev = malformed_of(lines.drop_last());
        if significant(lines.last()) && rule_of_line(lines.last()) is None {
            prev.push(lines.len() - 1)
        } else {
            prev
        }
    }
}

/// The 0-based numbers of the lines of a textual rules file that are
/// skipped as malformed, in order, for the caller to warn about.
pub fn malformed_lines(text: &str) -> (r: Vec<usize>)
    ensures
        r@.map_values(|i: usize| i as int) == malformed_of(split_on(text@, '\n')),
{
    let lines = split_exec(&chars_of(text), '\n');
    let ghost ls = seqs_view(lines@);
    let mut out: Vec<usize> = Vec::new();
    let mut i: usize = 0;
    while i < lines.len()
        invariant
            ls == seqs_view(lines@),
            ls == split_on(text@, '\n'),
            i <= lines.len(),
            out@.map_values(|k: usize| k as int) == malformed_of(ls.take(i as int)),
        decreases lines.len() - i,
    {
        proof {
            assert(ls.take(i + 1).drop_last() =~= ls.take(i as int));
            assert(ls.take(i + 1).last() == lines@[i as int]@);
        }
        let t = trim_exec(&lines[i]);
        let line = string_of(&lines[i]);
        if t.len() > 0 && t[0] != '#' && parse_secrule(line.as_str()).is_none() {
            let ghost prev = out@;
            out.push(i);
            proof {
                assert(out@.map_values(|k: usize| k as int) =~= prev.map_values(|k: usize| k as int).push(
                    i as int,
                ));
            }
        }
        i = i + 1;
    }
    proof {
        assert(ls.take(lines.len() as int) =~= ls);
    }
    out
}

/// The shape of a rules file.
#[derive(Debug, Clone, Copy, PartialEq, Eq, Structural)]
pub enum RulesFormat {
    /// Records with `id`, `phase`, `variables`, `operators`, `pattern`, `actions`.
    Tabular,
    /// One `SecRule` per line.
    Textual,
}

/// Tells the two rules file shapes apart.
pub fn rules_format(text: &str) -> (r: RulesFormat)
    ensures
        (r == RulesFormat::Tabular) == is_tabular_text(text@),
{
    let lines = split_exec(&chars_of(text), '\n');
    let ghost ls = seqs_view(lines@);
    let mut i: usize = 0;
    while i < lines.len()
        invariant
            ls == seqs_view(lines@),
            ls == split_on(text@, '\n'),
            i <= lines.len(),
            forall|j: int| 0 <= j < i ==> !significant(#[trigger] ls[j]),
        decreases lines.len() - i,
    {
        let t = trim_exec(&lines[i]);
        proof {
            assert(ls[i as int] == lines@[i as int]@);
        }
        if t.len() > 0 && t[0] != '#' {
            if is_word(&t, "[[rule]]") {
                proof {
                    assert(significant(ls[i as int]));
                }
                return RulesFormat::Tabular;
            } else {
                proof {
                    assert forall|k: int|
                        0 <= k < ls.len() && significant(#[trigger] ls[k]) && trim(ls[k]) == "[[rule]]"@
                            implies exists|j: int| 0 <= j < k && significant(#[trigger] ls[j]) by {
                        if k > i {
                            assert(significant(ls[i as int]));
                        }
                    }
                }
                return RulesFormat::Textual;
            }
        }
        i = i + 1;
    }
    RulesFormat::Textual
}

} // verus!
