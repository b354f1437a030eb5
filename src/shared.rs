//! The replaceable engine cell and the per-upstream registry of cells.
//!
//! A cell holds its engine by value; replacing it needs `&mut`, so callers
//! that share a registry between threads hold it behind a readers-writer
//! lock: evaluations take the read side, a reload the write side for the
//! swap alone.

use crate::admin::joined;
use crate::engine::{
    request_view, summary_first_line, summary_first_line_string, summary_of, summary_string,
    summary_text, verdict, Engine, Headers, RulesSummary, VerdictView, WafCheckResult,
};
use crate::rule::RuleView;
use std::sync::Arc;
use vstd::prelude::*;

verus! {

/// A named cell holding the current engine for one rules file.
pub struct SharedWaf {
    engine: Arc<Engine>,
    path: String,
}

impl SharedWaf {
    /// The rules file this cell reloads from; fixed for the cell's lifetime.
    pub closed spec fn path_view(&self) -> Seq<char> {
        self.path@
    }

    /// The rules of the engine the cell holds.
    pub closed spec fn rules_view(&self) -> Seq<RuleView> {
        self.engine.rules_view()
    }

    pub fn new(engine: Engine, path: &str) -> (r: SharedWaf)
        ensures
            r.path_view() == path@,
            r.rules_view() == engine.rules_view(),
    {
        SharedWaf { engine: Arc::new(engine), path: path.to_owned() }
    }

    pub fn path(&self) -> (r: &str)
        ensures
            r@ == self.path_view(),
    {
        self.path.as_str()
    }

    /// The engine the cell holds.
    pub fn engine(&self) -> (r: &Engine)
        ensures
            r.rules_view() == self.rules_view(),
    {
        &self.engine
    }

    /// Replaces the engine in one step.
    pub fn replace(&mut self, engine: Engine)
        ensures
            final(self).rules_view() == engine.rules_view(),
            final(self).path_view() == old(self).path_view(),
    {
        self.engine = Arc::new(engine);
    }

    /// Evaluates against the engine the cell holds.
    pub fn check_detailed(
        &self,
        request_line: &str,
        headers: &Headers,
        uri: &str,
        body: Option<&str>,
    ) -> (v: WafCheckResult)
        ensures
            verdict(self.rules_view(), request_view(request_line, headers, uri, body), v@),
    {
        self.engine.check_detailed(request_line, headers, uri, body)
    }

    /// Whether the engine the cell holds lets the request pass its header phase.
    pub fn check(&self, request_line: &str, headers: &Headers, uri: &str) -> (r: bool)
        ensures
            exists|v: VerdictView|
                verdict(self.rules_view(), request_view(request_line, headers, uri, None), v)
                    && r == v.allowed,
            forall|v: VerdictView|
                verdict(self.rules_view(), request_view(request_line, headers, uri, None), v)
                    ==> r == v.allowed,
    {
        let v = self.engine.check_detailed(request_line, headers, uri, None);
        proof {
            crate::engine::lemma_verdict_unique(
                self.rules_view(),
                request_view(request_line, headers, uri, None),
                v@,
            );
        }
        v.allowed
    }

    /// The rule counts of the engine the cell holds.
    pub fn summary(&self) -> (r: RulesSummary)
        ensures
            r == summary_of(self.rules_view()),
    {
        self.engine.summary()
    }

    /// The summary text of the engine the cell holds.
    pub fn get_rules_info(&self) -> (r: String)
        ensures
            r@ == summary_text(summary_of(self.rules_view())),
    {
        self.engine.get_rules_info()
    }

    /// Installs the engine just loaded from `path()`; on a failed load the
    /// current engine stays in place and the error is handed back.
    pub fn reload_now(&mut self, loaded: Result<Engine, String>) -> (r: Result<(), String>)
        ensures
            loaded is Ok <==> r is Ok,
            loaded is Ok ==> final(self).rules_view() == loaded->Ok_0.rules_view(),
            loaded is Err ==> final(self).rules_view() == old(self).rules_view() && r->Err_0@
                == loaded->Err_0@,
            final(self).path_view() == old(self).path_view(),
    {
        match loaded {
            Ok(engine) => {
                self.replace(engine);
                Ok(())
            },
            Err(e) => Err(e),
        }
    }
}

/// Where the rules of a registry entry came from.
#[derive(Debug, Clone, Copy, PartialEq, Eq, Structural)]
pub enum RulesSource {
    /// The upstream's own rules file.
    Primary,
    /// The default rules file, after the upstream's own failed to load.
    Default,
    /// No rules, after both files failed to load.
    Empty,
}

/// `load` gave an engine with `rules` for `path`.
pub open spec fn loads<F: Fn(&str) -> Option<Engine>>(load: F, path: Seq<char>, rules: Seq<RuleView>) -> bool {
    exists|p: &str, e: Engine|
        #![trigger load.ensures((p,), Some(e))]
        p@ == path && load.ensures((p,), Some(e)) && e.rules_view() == rules
}

/// `load` gave nothing for `path`.
pub open spec fn fails<F: Fn(&str) -> Option<Engine>>(load: F, path: Seq<char>) -> bool {
    exists|p: &str| #![trigger load.ensures((p,), None)] p@ == path && load.ensures((p,), None)
}

/// A cell at `path` holding `rules` is what the startup fallback order
/// gives: the primary rules when they load, else the default rules when
/// they load, else no rules under the name `empty`.
pub open spec fn fallback_cell<F: Fn(&str) -> Option<Engine>>(
    load: F,
    primary: Seq<char>,
    default: Seq<char>,
    path: Seq<char>,
    rules: Seq<RuleView>,
) -> bool {
    ||| path == primary && loads(load, primary, rules)
    ||| path == default && fails(load, primary) && loads(load, default, rules)
    ||| path == "empty"@ && fails(load, primary) && fails(load, default) && rules == Seq::<
        RuleView,
    >::empty()
}

/// Builds a cell for an upstream at startup: the upstream's own rules when
/// they load, else the default rules when they load, else no rules.
pub fn load_with_fallback<F: Fn(&str) -> Option<Engine>>(
    load: &F,
    primary: &str,
    default: &str,
) -> (r: (SharedWaf, RulesSource))
    requires
        forall|p: &str| #[trigger] load.requires((p,)),
    ensures
        r.1 == RulesSource::Primary ==> r.0.path_view() == primary@ && exists|e: Engine|
            #[trigger] load.ensures((primary,), Some(e)) && r.0.rules_view() == e.rules_view(),
        r.1 == RulesSource::Default ==> r.0.path_view() == default@ && load.ensures(
            (primary,),
            None,
        ) && exists|e: Engine|
            #[trigger] load.ensures((default,), Some(e)) && r.0.rules_view() == e.rules_view(),
        r.1 == RulesSource::Empty ==> r.0.path_view() == "empty"@ && load.ensures((primary,), None)
            && load.ensures((default,), None) && r.0.rules_view() == Seq::<RuleView>::empty(),
        fallback_cell(*load, primary@, default@, r.0.path_view(), r.0.rules_view()),
{
    match load(primary) {
        Some(e) => {
            let c = SharedWaf::new(e, primary);
            proof {
                assert(load.ensures((primary,), Some(e)));
                assert(loads(*load, primary@, c.rules_view()));
            }
            (c, RulesSource::Primary)
        },
        None => {
            proof {
                assert(load.ensures((primary,), None::<Engine>));
                assert(fails(*load, primary@));
            }
            match load(default) {
                Some(e) => {
                    let c = SharedWaf::new(e, default);
                    proof {
                        assert(load.ensures((default,), Some(e)));
                        assert(loads(*load, default@, c.rules_view()));
                    }
                    (c, RulesSource::Default)
                },
                None => {
                    proof {
                        assert(load.ensures((default,), None::<Engine>));
                        assert(fails(*load, default@));
                    }
                    (SharedWaf::new(Engine::empty(), "empty"), RulesSource::Empty)
                },
            }
        },
    }
}

/// Builds the startup registry: one cell per (key, primary rules path)
/// entry, in order, each by the fallback order.
pub fn build_registry<F: Fn(&str) -> Option<Engine>>(
    load: &F,
    upstreams: &Vec<(String, String)>,
    default: &str,
) -> (r: EngineRegistry)
    requires
        forall|p: &str| #[trigger] load.requires((p,)),
        upstreams@.map_values(|u: (String, String)| u.0@).no_duplicates(),
    ensures
        r.wf(),
        r.keys() == upstreams@.map_values(|u: (String, String)| u.0@),
        forall|i: int|
            0 <= i < upstreams@.len() ==> fallback_cell(
                *load,
                #[trigger] upstreams@[i].1@,
                default@,
                r.paths()[i],
                r.rules()[i],
            ),
{
    let ghost names = upstreams@.map_values(|u: (String, String)| u.0@);
    let mut registry = EngineRegistry::new();
    let mut i: usize = 0;
    while i < upstreams.len()
        invariant
            forall|p: &str| #[trigger] load.requires((p,)),
            names == upstreams@.map_values(|u: (String, String)| u.0@),
            names.no_duplicates(),
            i <= upstreams.len(),
            registry.wf(),
            registry.keys() == names.take(i as int),
            forall|j: int|
                0 <= j < i ==> fallback_cell(
                    *load,
                    #[trigger] upstreams@[j].1@,
                    default@,
                    registry.paths()[j],
                    registry.rules()[j],
                ),
        decreases upstreams.len() - i,
    {
        let (cell, _source) = load_with_fallback(load, upstreams[i].1.as_str(), default);
        let ghost before = registry;
        proof {
            assert(names[i as int] == upstreams@[i as int].0@);
            assert(!names.take(i as int).contains(names[i as int])) by {
                if names.take(i as int).contains(names[i as int]) {
                    let j = choose|j: int| 0 <= j < i && names.take(i as int)[j] == names[i as int];
                    assert(names[j] == names[i as int]);
                }
            }
        }
        registry.insert(upstreams[i].0.as_str(), cell);
        proof {
            assert(names.take(i + 1) =~= names.take(i as int).push(names[i as int]));
            assert forall|j: int|
                0 <= j < i + 1 implies fallback_cell(
                    *load,
                    #[trigger] upstreams@[j].1@,
                    default@,
                    registry.paths()[j],
                    registry.rules()[j],
                ) by {
                if j < i {
                    assert(registry.keys()[j] == names[j]);
                    assert(names[j] != names[i as int]);
                }
            }
        }
        i = i + 1;
    }
    proof {
        assert(names.take(upstreams@.len() as int) =~= names);
    }
    registry
}

pub open spec fn keys_of(entries: Seq<(String, SharedWaf)>) -> Seq<Seq<char>> {
    entries.map_values(|p: (String, SharedWaf)| p.0@)
}

/// The errors of a bulk reload, in order: one
/// `Failed to reload rules for <key>: <error>` for each failed load.
pub open spec fn reload_errors(rs: Seq<(String, Result<Engine, String>)>) -> Seq<Seq<char>>
    decreases rs.len(),
{
    if rs.len() == 0 {
        Seq::empty()
    } else {
        let prev = reload_errors(rs.drop_last());
        match rs.last().1 {
            Ok(_) => prev,
            Err(m) => prev.push("Failed to reload rules for "@ + rs.last().0@ + ": "@ + m@),
        }
    }
}

/// The rules of the last engine that loaded for `key`, if one did.
pub open spec fn last_loaded(rs: Seq<(String, Result<Engine, String>)>, key: Seq<char>) -> Option<
    Seq<RuleView>,
>
    decreases rs.len(),
{
    if rs.len() == 0 {
        None
    } else if rs.last().0@ == key && rs.last().1 is Ok {
        Some(rs.last().1->Ok_0.rules_view())
    } else {
        last_loaded(rs.drop_last(), key)
    }
}

/// Per-upstream statistics: a headed block for each key, in order.
pub open spec fn stats_text(keys: Seq<Seq<char>>, ss: Seq<RulesSummary>) -> Seq<char>
    decreases keys.len(),
{
    if keys.len() == 0 || ss.len() == 0 {
        Seq::empty()
    } else {
        stats_text(keys.drop_last(), ss.drop_last()) + "=== "@ + keys.last() + " ===\n"@
            + summary_text(ss.last()) + "\n"@
    }
}

/// The compact summary: `<key>: <first summary line>` for each key, `, `-separated.
pub open spec fn info_text(keys: Seq<Seq<char>>, ss: Seq<RulesSummary>) -> Seq<char> {
    joined(
        Seq::new(keys.len(), |i: int| keys[i] + ": "@ + summary_first_line(ss[i])),
        ", "@,
    )
}

/// The engine cells of all upstreams, by upstream key.
pub struct EngineRegistry {
    entries: Vec<(String, SharedWaf)>,
}

impl EngineRegistry {
    /// The upstream keys, each once, in order of insertion.
    pub closed spec fn keys(&self) -> Seq<Seq<char>> {
        keys_of(self.entries@)
    }

    /// The rules path of each registered cell, by position of its key.
    pub closed spec fn paths(&self) -> Seq<Seq<char>> {
        self.entries@.map_values(|p: (String, SharedWaf)| p.1.path_view())
    }

    /// The rules each registered cell holds, by position of its key.
    pub closed spec fn rules(&self) -> Seq<Seq<RuleView>> {
        self.entries@.map_values(|p: (String, SharedWaf)| p.1.rules_view())
    }

    /// The keys are distinct.
    pub closed spec fn wf(&self) -> bool {
        self.keys().no_duplicates()
    }

    /// The position of `key` among the keys.
    pub open spec fn index_of(&self, key: Seq<char>) -> int {
        choose|i: int| 0 <= i < self.keys().len() && self.keys()[i] == key
    }

    /// The rules the cell of `key` holds.
    pub open spec fn rules_of(&self, key: Seq<char>) -> Seq<RuleView> {
        self.rules()[self.index_of(key)]
    }

    /// Per position: a well-formed registry has one entry for each key.
    pub proof fn lemma_index_of(&self, i: int)
        requires
            self.wf(),
            0 <= i < self.keys().len(),
        ensures
            self.index_of(self.keys()[i]) == i,
    {
        let k = self.keys()[i];
        let j = self.index_of(k);
        assert(0 <= j < self.keys().len() && self.keys()[j] == k);
    }

    pub fn new() -> (r: EngineRegistry)
        ensures
            r.wf(),
            r.keys() == Seq::<Seq<char>>::empty(),
    {
        let r = EngineRegistry { entries: Vec::new() };
        proof {
            assert(r.keys() =~= Seq::<Seq<char>>::empty());
        }
        r
    }

    fn position(&self, key: &str) -> (r: Option<usize>)
        ensures
            r is Some ==> r->0 < self.keys().len() && self.keys()[r->0 as int] == key@,
            r is None ==> !self.keys().contains(key@),
    {
        let k = crate::text::chars_of(key);
        let mut i: usize = 0;
        while i < self.entries.len()
            invariant
                i <= self.entries.len(),
                k@ == key@,
                forall|j: int| 0 <= j < i ==> self.keys()[j] != key@,
            decreases self.entries.len() - i,
        {
            let name = crate::text::chars_of(self.entries[i].0.as_str());
            if crate::text::eq_exec(&name, &k) {
                return Some(i);
            }
            i = i + 1;
        }
        None
    }

    /// Registers the cell of an upstream, replacing an earlier one of the same key.
    pub fn insert(&mut self, key: &str, cell: SharedWaf)
        requires
            old(self).wf(),
        ensures
            final(self).wf(),
            old(self).keys().contains(key@) ==> final(self).keys() == old(self).keys(),
            !old(self).keys().contains(key@) ==> final(self).keys() == old(self).keys().push(key@),
            forall|i: int|
                0 <= i < final(self).keys().len() ==> {
                    &&& #[trigger] final(self).paths()[i] == (if final(self).keys()[i] == key@ {
                        cell.path_view()
                    } else {
                        old(self).paths()[i]
                    })
                    &&& final(self).rules()[i] == (if final(self).keys()[i] == key@ {
                        cell.rules_view()
                    } else {
                        old(self).rules()[i]
                    })
                },
            final(self).keys().contains(key@),
    {
        let ghost path = cell.path_view();
        let ghost rules = cell.rules_view();
        let ghost before = self.keys();
        let ghost before_paths = self.paths();
        let ghost before_rules = self.rules();
        match self.position(key) {
            Some(i) => {
                let k = self.entries[i].0.clone();
                self.entries.set(i, (k, cell));
                proof {
                    assert(self.keys() =~= before);
                    assert(self.keys()[i as int] == key@);
                    assert(self.paths() =~= before_paths.update(i as int, path));
                    assert(self.rules() =~= before_rules.update(i as int, rules));
                }
            },
            None => {
                self.entries.push((key.to_owned(), cell));
                proof {
                    assert(self.keys() =~= before.push(key@));
                    assert(self.keys()[before.len() as int] == key@);
                    assert(self.paths() =~= before_paths.push(path));
                    assert(self.rules() =~= before_rules.push(rules));
                }
            },
        }
    }

    /// The cell of an upstream.
    pub fn get(&self, key: &str) -> (r: Option<&SharedWaf>)
        requires
            self.wf(),
        ensures
            r is Some <==> self.keys().contains(key@),
            r is Some ==> r->0.rules_view() == self.rules_of(key@) && r->0.path_view()
                == self.paths()[self.index_of(key@)],
    {
        match self.position(key) {
            Some(i) => {
                proof {
                    self.lemma_index_of(i as int);
                }
                Some(&self.entries[i].1)
            },
            None => None,
        }
    }

    /// The upstream keys, in order of insertion.
    pub fn get_server_list(&self) -> (r: Vec<String>)
        ensures
            r@.map_values(|s: String| s@) == self.keys(),
    {
        let mut out: Vec<String> = Vec::new();
        let mut i: usize = 0;
        while i < self.entries.len()
            invariant
                i <= self.entries.len(),
                out@.map_values(|s: String| s@) == self.keys().take(i as int),
            decreases self.entries.len() - i,
        {
            let ghost prev = out@;
            out.push(self.entries[i].0.clone());
            proof {
                assert(out@.map_values(|s: String| s@) =~= prev.map_values(|s: String| s@).push(
                    self.keys()[i as int],
                ));
                assert(self.keys().take(i + 1) =~= self.keys().take(i as int).push(
                    self.keys()[i as int],
                ));
            }
            i = i + 1;
        }
        proof {
            assert(self.keys().take(self.entries@.len() as int) =~= self.keys());
        }
        out
    }

    /// The summary text of one upstream's engine.
    pub fn get_server_info(&self, key: &str) -> (r: Option<String>)
        requires
            self.wf(),
        ensures
            r is Some <==> self.keys().contains(key@),
            r is Some ==> r->0@ == summary_text(summary_of(self.rules_of(key@))),
    {
        match self.get(key) {
            Some(cell) => Some(cell.get_rules_info()),
            None => None,
        }
    }

    /// Rule counts of every upstream's engine.
    pub fn get_all_rules_info(&self) -> (r: String)
        ensures
            r@ == stats_text(self.keys(), self.rules().map_values(|rs: Seq<RuleView>| summary_of(rs))),
    {
        let ghost ss = self.rules().map_values(|rs: Seq<RuleView>| summary_of(rs));
        let mut out = String::new();
        let mut i: usize = 0;
        while i < self.entries.len()
            invariant
                ss == self.rules().map_values(|rs: Seq<RuleView>| summary_of(rs)),
                i <= self.entries.len(),
                out@ == stats_text(self.keys().take(i as int), ss.take(i as int)),
            decreases self.entries.len() - i,
        {
            let s = self.entries[i].1.summary();
            out.append("=== ");
            out.append(self.entries[i].0.as_str());
            out.append(" ===\n");
            out.append(summary_string(s).as_str());
            out.append("\n");
            proof {
                let ks = self.keys().take(i + 1);
                assert(ks.drop_last() =~= self.keys().take(i as int));
                assert(ss.take(i + 1).drop_last() =~= ss.take(i as int));
                assert(ks.last() == self.entries@[i as int].0@);
                assert(ss.take(i + 1).last() == s);
                assert(out@ =~= stats_text(ks, ss.take(i + 1)));
            }
            i = i + 1;
        }
        proof {
            assert(self.keys().take(self.entries@.len() as int) =~= self.keys());
            assert(ss.take(self.entries@.len() as int) =~= ss);
        }
        out
    }

    /// A compact summary of every upstream's engine.
    pub fn get_waf_info(&self) -> (r: String)
        ensures
            r@ == info_text(self.keys(), self.rules().map_values(|rs: Seq<RuleView>| summary_of(rs))),
    {
        let ghost ss = self.rules().map_values(|rs: Seq<RuleView>| summary_of(rs));
        let mut parts: Vec<String> = Vec::new();
        let mut i: usize = 0;
        while i < self.entries.len()
            invariant
                ss == self.rules().map_values(|rs: Seq<RuleView>| summary_of(rs)),
                i <= self.entries.len(),
                parts@.len() == i,
                forall|j: int| 0 <= j < i ==> (#[trigger] parts@[j])@ == self.keys()[j] + ": "@ + summary_first_line(ss[j]),
            decreases self.entries.len() - i,
        {
            let s = self.entries[i].1.summary();
            let mut line = self.entries[i].0.clone();
            line.append(": ");
            line.append(summary_first_line_string(s).as_str());
            let ghost prev = parts@;
            parts.push(line);
            proof {
                assert(self.keys()[i as int] == self.entries@[i as int].0@);
                assert(ss[i as int] == s);
                assert forall|j: int| 0 <= j <= i implies (#[trigger] parts@[j])@ == self.keys()[j] + ": "@
                    + summary_first_line(ss[j]) by {
                    if j < i {
                        assert(parts@[j] == prev[j]);
                    }
                }
            }
            i = i + 1;
        }
        let r = crate::admin::join(&parts, ", ");
        proof {
            assert(parts@.map_values(|s: String| s@) =~= Seq::new(
                self.keys().len(),
                |i: int| self.keys()[i] + ": "@ + summary_first_line(ss[i]),
            ));
        }
        r
    }

    /// Installs the freshly loaded engines of a bulk reload. A key's cell
    /// ends up with the last engine that loaded for it; a failed load leaves
    /// the cell as it was and adds `Failed to reload rules for <key>: <error>`
    /// to the errors, which come back together. Loads for unknown keys are
    /// ignored; the keys and paths do not change.
    pub fn reload_all_rules(&mut self, results: Vec<(String, Result<Engine, String>)>) -> (r: Result<(), Vec<String>>)
        requires
            old(self).wf(),
        ensures
            final(self).wf(),
            final(self).keys() == old(self).keys(),
            final(self).paths() == old(self).paths(),
            forall|i: int|
                0 <= i < final(self).keys().len() ==> #[trigger] final(self).rules()[i] == match last_loaded(
                    results@,
                    final(self).keys()[i],
                ) {
                    Some(rs) => rs,
                    None => old(self).rules()[i],
                },
            r is Ok <==> reload_errors(results@).len() == 0,
            r is Err ==> r->Err_0@.map_values(|s: String| s@) == reload_errors(results@),
    {
        let ghost rs = results@;
        let ghost keys0 = self.keys();
        let ghost paths0 = self.paths();
        let ghost rules0 = self.rules();
        let mut errors: Vec<String> = Vec::new();
        let mut i: usize = 0;
        let mut results = results;
        let n = results.len();
        while results.len() > 0
            invariant
                rs.len() == n,
                i <= rs.len(),
                results@ == rs.skip(i as int),
                self.wf(),
                self.keys() == keys0,
                self.paths() == paths0,
                forall|p: int|
                    0 <= p < keys0.len() ==> #[trigger] self.rules()[p] == match last_loaded(
                        rs.take(i as int),
                        keys0[p],
                    ) {
                        Some(x) => x,
                        None => rules0[p],
                    },
                errors@.map_values(|s: String| s@) == reload_errors(rs.take(i as int)),
            decreases results.len(),
        {
            let ghost t = rs.take(i + 1);
            proof {
                assert(t.drop_last() =~= rs.take(i as int));
                assert(t.last() == rs[i as int]);
                assert(rs.skip(i as int)[0] == rs[i as int]);
            }
            let (key, loaded) = results.remove(0);
            proof {
                assert(results@ =~= rs.skip(i + 1));
            }
            match loaded {
                Ok(engine) => {
                    let ghost new_rules = engine.rules_view();
                    match self.position(key.as_str()) {
                        Some(p) => {
                            let ghost before = self.rules();
                            let k = self.entries[p].0.clone();
                            let path = self.entries[p].1.path.clone();
                            self.entries.set(p, (k, SharedWaf { engine: Arc::new(engine), path }));
                            proof {
                                assert(self.keys() =~= keys0);
                                assert(self.paths() =~= paths0);
                                assert(self.rules() =~= before.update(p as int, new_rules));
                                assert forall|q: int| 0 <= q < keys0.len() implies #[trigger] self.rules()[q]
                                    == match last_loaded(t, keys0[q]) {
                                    Some(x) => x,
                                    None => rules0[q],
                                } by {
                                    if q != p {
                                        assert(keys0[q] != keys0[p as int]);
                                    }
                                }
                            }
                        },
                        None => {
                            proof {
                                assert forall|q: int| 0 <= q < keys0.len() implies #[trigger] self.rules()[q]
                                    == match last_loaded(t, keys0[q]) {
                                    Some(x) => x,
                                    None => rules0[q],
                                } by {
                                    assert(keys0[q] != key@);
                                }
                            }
                        },
                    }
                },
                Err(m) => {
                    let ghost prev = errors@;
                    let mut line = "Failed to reload rules for ".to_owned();
                    line.append(key.as_str());
                    line.append(": ");
                    line.append(m.as_str());
                    errors.push(line);
                    proof {
                        assert(errors@.map_values(|s: String| s@) =~= prev.map_values(|s: String| s@).push(
                            line@,
                        ));
                    }
                },
            }
            i = i + 1;
        }
        proof {
            assert(rs.take(rs.len() as int) =~= rs);
        }
        if errors.len() == 0 {
            Ok(())
        } else {
            Err(errors)
        }
    }
}

} // verus!
