//! Host-based selection of an upstream.

use crate::text::{
    chars_of, ends_with, ends_with_exec, eq_exec, lower, lower_chars, starts_with,
    starts_with_exec, string_of,
};
use vstd::prelude::*;

verus! {

/// The characters `str::trim` removes: Unicode `White_Space`.
pub open spec fn is_space(c: char) -> bool {
    let u = c as u32;
    (0x9 <= u && u <= 0xD) || u == 0x20 || u == 0x85 || u == 0xA0 || u == 0x1680 || (0x2000 <= u
        && u <= 0x200A) || u == 0x2028 || u == 0x2029 || u == 0x202F || u == 0x205F || u == 0x3000
}

pub fn is_space_exec(c: char) -> (r: bool)
    ensures
        r == is_space(c),
{
    let u = c as u32;
    (0x9 <= u && u <= 0xD) || u == 0x20 || u == 0x85 || u == 0xA0 || u == 0x1680 || (0x2000 <= u
        && u <= 0x200A) || u == 0x2028 || u == 0x2029 || u == 0x202F || u == 0x205F || u == 0x3000
}

/// The first index at or after `i` that does not hold a space.
pub open spec fn skip_spaces(s: Seq<char>, i: int) -> int
    decreases s.len() - i,
{
    if 0 <= i < s.len() && is_space(s[i]) {
        skip_spaces(s, i + 1)
    } else {
        i
    }
}

/// The end of `s.take(j)` once trailing spaces are dropped.
pub open spec fn trim_end(s: Seq<char>, j: int) -> int
    decreases j,
{
    if 0 < j <= s.len() && is_space(s[j - 1]) {
        trim_end(s, j - 1)
    } else {
        j
    }
}

/// `s` without leading and trailing spaces.
pub open spec fn trim(s: Seq<char>) -> Seq<char> {
    let a = skip_spaces(s, 0);
    let b = trim_end(s, s.len() as int);
    if a < b {
        s.subrange(a, b)
    } else {
        Seq::empty()
    }
}

/// `s` without leading and trailing spaces.
pub fn trim_exec(s: &Vec<char>) -> (r: Vec<char>)
    ensures
        r@ == trim(s@),
{
    let mut a: usize = 0;
    while a < s.len() && is_space_exec(s[a])
        invariant
            a <= s.len(),
            skip_spaces(s@, 0) == skip_spaces(s@, a as int),
        decreases s.len() - a,
    {
        a = a + 1;
    }
    let mut b: usize = s.len();
    while b > 0 && is_space_exec(s[b - 1])
        invariant
            b <= s.len(),
            trim_end(s@, s@.len() as int) == trim_end(s@, b as int),
        decreases b,
    {
        b = b - 1;
    }
    let mut out: Vec<char> = Vec::new();
    if a < b {
        let mut i: usize = a;
        while i < b
            invariant
                a <= i <= b <= s.len(),
                out@ == s@.subrange(a as int, i as int),
            decreases b - i,
        {
            out.push(s[i]);
            proof {
                assert(out@ =~= s@.subrange(a as int, i + 1));
            }
            i = i + 1;
        }
    }
    proof {
        if !(a < b) {
            assert(out@ =~= Seq::<char>::empty());
        }
    }
    out
}

/// A host as routing compares it: trimmed and ASCII lower-cased.
pub open spec fn normalize_host(h: Seq<char>) -> Seq<char> {
    lower(trim(h))
}

/// The host equals the upstream's `sni` or `name`, without regard to ASCII case.
pub open spec fn exact_match(h: Seq<char>, name: Seq<char>, sni: Seq<char>) -> bool {
    h == lower(sni) || h == lower(name)
}

/// The host is the domain `d` or one of its subdomains.
pub open spec fn within_domain(h: Seq<char>, d: Seq<char>) -> bool {
    h == d || ends_with(h, "."@ + d)
}

/// A wildcard `*.d` covers `d` and its subdomains; any other `sni` covers
/// itself and its subdomains.
pub open spec fn suffix_match(h: Seq<char>, sni: Seq<char>) -> bool {
    let s = lower(sni);
    if starts_with(s, "*."@) {
        within_domain(h, s.skip(2))
    } else {
        within_domain(h, s)
    }
}

pub open spec fn is_default(name: Seq<char>, sni: Seq<char>) -> bool {
    sni == "default"@ || name == "default"@
}

/// Routing table entries as (name, sni) pairs.
pub type TableView = Seq<(Seq<char>, Seq<char>)>;

pub open spec fn first_such(t: TableView, p: spec_fn(Seq<char>, Seq<char>) -> bool, i: int) -> bool {
    &&& 0 <= i < t.len()
    &&& p(t[i].0, t[i].1)
    &&& forall|j: int| 0 <= j < i ==> !p(#[trigger] t[j].0, t[j].1)
}

pub open spec fn none_such(t: TableView, p: spec_fn(Seq<char>, Seq<char>) -> bool) -> bool {
    forall|j: int| 0 <= j < t.len() ==> !p(#[trigger] t[j].0, t[j].1)
}

pub open spec fn exact_p(h: Seq<char>) -> spec_fn(Seq<char>, Seq<char>) -> bool {
    |n: Seq<char>, s: Seq<char>| exact_match(h, n, s)
}

pub open spec fn suffix_p(h: Seq<char>) -> spec_fn(Seq<char>, Seq<char>) -> bool {
    |n: Seq<char>, s: Seq<char>| suffix_match(h, s)
}

pub open spec fn default_p() -> spec_fn(Seq<char>, Seq<char>) -> bool {
    |n: Seq<char>, s: Seq<char>| is_default(n, s)
}

/// The routing policy: the first exact match; else the first wildcard or
/// suffix match; else the first `default`; else the first entry; none only
/// for an empty table.
pub open spec fn routes_to(t: TableView, host: Seq<char>, r: Option<int>) -> bool {
    let h = normalize_host(host);
    if t.len() == 0 {
        r is None
    } else if !none_such(t, exact_p(h)) {
        r is Some && first_such(t, exact_p(h), r->0)
    } else if !none_such(t, suffix_p(h)) {
        r is Some && first_such(t, suffix_p(h), r->0)
    } else if !none_such(t, default_p()) {
        r is Some && first_such(t, default_p(), r->0)
    } else {
        r == Some(0int)
    }
}

pub open spec fn table_view(t: Seq<(String, String)>) -> TableView {
    t.map_values(|p: (String, String)| (p.0@, p.1@))
}

fn exact_exec(h: &Vec<char>, name: &String, sni: &String) -> (r: bool)
    ensures
        r == exact_match(h@, name@, sni@),
{
    eq_exec(h, &lower_chars(sni.as_str())) || eq_exec(h, &lower_chars(name.as_str()))
}

fn within_domain_exec(h: &Vec<char>, d: &Vec<char>) -> (r: bool)
    ensures
        r == within_domain(h@, d@),
{
    if eq_exec(h, d) {
        return true;
    }
    let mut dotted = chars_of(".");
    let ghost dot = dotted@;
    let mut i: usize = 0;
    while i < d.len()
        invariant
            i <= d.len(),
            dotted@ == dot + d@.take(i as int),
        decreases d.len() - i,
    {
        dotted.push(d[i]);
        proof {
            assert(d@.take(i + 1) == d@.take(i as int).push(d@[i as int]));
            assert(dotted@ =~= dot + d@.take((i + 1) as int));
        }
        i = i + 1;
    }
    proof {
        assert(d@.take(d.len() as int) =~= d@);
    }
    ends_with_exec(h, &dotted)
}

fn suffix_exec(h: &Vec<char>, sni: &String) -> (r: bool)
    ensures
        r == suffix_match(h@, sni@),
{
    let s = lower_chars(sni.as_str());
    if starts_with_exec(&s, &chars_of("*.")) {
        proof {
            reveal_strlit("*.");
        }
        let mut d: Vec<char> = Vec::new();
        let mut i: usize = 2;
        while i < s.len()
            invariant
                2 <= i <= s.len(),
                d@ == s@.subrange(2, i as int),
            decreases s.len() - i,
        {
            d.push(s[i]);
            proof {
                assert(d@ =~= s@.subrange(2, i + 1));
            }
            i = i + 1;
        }
        proof {
            assert(d@ =~= s@.skip(2));
        }
        within_domain_exec(h, &d)
    } else {
        within_domain_exec(h, &s)
    }
}

fn default_exec(name: &String, sni: &String) -> (r: bool)
    ensures
        r == is_default(name@, sni@),
{
    let d = chars_of("default");
    eq_exec(&chars_of(sni.as_str()), &d) || eq_exec(&chars_of(name.as_str()), &d)
}

/// Selects an upstream for a Host header from a table of (name, sni) pairs.
pub fn route(table: &Vec<(String, String)>, host: &str) -> (r: Option<usize>)
    ensures
        routes_to(table_view(table@), host@, match r {
            Some(i) => Some(i as int),
            None => None,
        }),
{
    let ghost t = table_view(table@);
    let h = lower_vec_of(&trim_exec(&chars_of(host)));
    let ghost hv = normalize_host(host@);
    assert(h@ == hv);
    let n = table.len();
    if n == 0 {
        return None;
    }
    let mut i: usize = 0;
    while i < n
        invariant
            n == table@.len(),
            t == table_view(table@),
            h@ == hv,
            hv == normalize_host(host@),
            i <= n,
            forall|j: int| 0 <= j < i ==> !exact_match(hv, #[trigger] t[j].0, t[j].1),
        decreases n - i,
    {
        if exact_exec(&h, &table[i].0, &table[i].1) {
            proof {
                assert(t[i as int] == (table@[i as int].0@, table@[i as int].1@));
                assert(first_such(t, exact_p(hv), i as int));
                assert(!none_such(t, exact_p(hv)));
            }
            return Some(i);
        }
        i = i + 1;
    }
    proof {
        assert(none_such(t, exact_p(hv)));
    }
    let mut i: usize = 0;
    while i < n
        invariant
            n == table@.len(),
            t == table_view(table@),
            h@ == hv,
            hv == normalize_host(host@),
            i <= n,
            none_such(t, exact_p(hv)),
            forall|j: int| 0 <= j < i ==> !suffix_match(hv, #[trigger] t[j].1),
        decreases n - i,
    {
        if suffix_exec(&h, &table[i].1) {
            proof {
                assert(t[i as int] == (table@[i as int].0@, table@[i as int].1@));
                assert(first_such(t, suffix_p(hv), i as int));
                assert(!none_such(t, suffix_p(hv)));
            }
            return Some(i);
        }
        i = i + 1;
    }
    proof {
        assert(none_such(t, suffix_p(hv)));
    }
    let mut i: usize = 0;
    while i < n
        invariant
            n == table@.len(),
            t == table_view(table@),
            hv == normalize_host(host@),
            i <= n,
            none_such(t, exact_p(hv)),
            none_such(t, suffix_p(hv)),
            forall|j: int| 0 <= j < i ==> !is_default(#[trigger] t[j].0, t[j].1),
        decreases n - i,
    {
        if default_exec(&table[i].0, &table[i].1) {
            proof {
                assert(t[i as int] == (table@[i as int].0@, table@[i as int].1@));
                assert(first_such(t, default_p(), i as int));
                assert(!none_such(t, default_p()));
            }
            return Some(i);
        }
        i = i + 1;
    }
    proof {
        assert(none_such(t, default_p()));
    }
    Some(0)
}

fn lower_vec_of(v: &Vec<char>) -> (r: Vec<char>)
    ensures
        r@ == lower(v@),
{
    lower_chars(string_of(v).as_str())
}

} // verus!
