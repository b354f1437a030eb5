//! The proxy's configuration: an admin port, named servers, and named
//! upstreams that servers route to.

use crate::body::DEFAULT_MAX_BODY_SIZE;
use crate::text::{chars_of, eq_exec};
use vstd::prelude::*;

verus! {

/// How logs are written.
#[derive(Debug)]
pub struct TracingConfig {
    pub level: String,
    /// `console`, `json`, `both` or `file`.
    pub output: String,
    pub enable_ansi: bool,
}

/// One listening proxy server.
#[derive(Debug)]
pub struct ServerConfig {
    pub listen_addr: Option<String>,
    pub max_body_size: Option<usize>,
    /// `IP:port`.
    pub addr: String,
    /// Names of the upstreams this server routes to, in routing order.
    pub upstreams: Vec<String>,
}

/// One backend origin.
#[derive(Debug)]
pub struct UpstreamConfig {
    pub addrs: Vec<String>,
    pub use_tls: bool,
    pub sni: String,
    /// The rules directory of this upstream, under `rules/`.
    pub waf_rules: String,
}

impl UpstreamConfig {
    /// The key routing compares against: the upstream's `sni`.
    pub fn get_identifier(&self) -> (r: &str)
        ensures
            r@ == self.sni@,
    {
        self.sni.as_str()
    }
}

/// The names of named entries, in order.
pub open spec fn names_of<T>(entries: Seq<(String, T)>) -> Seq<Seq<char>> {
    entries.map_values(|p: (String, T)| p.0@)
}

fn unique_names<T>(entries: &Vec<(String, T)>) -> (r: bool)
    ensures
        r == names_of(entries@).no_duplicates(),
{
    let ghost ns = names_of(entries@);
    let mut i: usize = 0;
    while i < entries.len()
        invariant
            ns == names_of(entries@),
            i <= entries.len(),
            forall|a: int, b: int| 0 <= a < i && 0 <= b < i && a != b ==> ns[a] != ns[b],
        decreases entries.len() - i,
    {
        let ni = chars_of(entries[i].0.as_str());
        let mut j: usize = 0;
        while j < i
            invariant
                ns == names_of(entries@),
                j <= i < entries.len(),
                ni@ == ns[i as int],
                forall|b: int| 0 <= b < j ==> ns[b] != ns[i as int],
            decreases i - j,
        {
            if eq_exec(&chars_of(entries[j].0.as_str()), &ni) {
                proof {
                    assert(ns[j as int] == ns[i as int]);
                }
                return false;
            }
            j = j + 1;
        }
        i = i + 1;
    }
    true
}

/// The position of the entry named `name`.
pub open spec fn position_of<T>(entries: Seq<(String, T)>, name: Seq<char>, i: int) -> bool {
    0 <= i < entries.len() && entries[i].0@ == name
}

/// `i` is the first position of `name`.
pub open spec fn first_position<T>(entries: Seq<(String, T)>, name: Seq<char>, i: int) -> bool {
    position_of(entries, name, i) && forall|j: int| 0 <= j < i ==> entries[j].0@ != name
}

proof fn lemma_first_position_unique<T>(entries: Seq<(String, T)>, name: Seq<char>, i: int)
    requires
        first_position(entries, name, i),
    ensures
        lookup_named(entries, name) == Some(i),
{
    let k = choose|k: int| first_position(entries, name, k);
    assert(first_position(entries, name, k));
    if k < i {
        assert(entries[k].0@ != name);
    } else if k > i {
        assert(entries[i].0@ != name);
    }
}

fn find<T>(entries: &Vec<(String, T)>, name: &str) -> (r: Option<usize>)
    ensures
        r is Some ==> lookup_named(entries@, name@) == Some(r->0 as int),
        r is None ==> lookup_named(entries@, name@) is None,
{
    let n = chars_of(name);
    let mut i: usize = 0;
    while i < entries.len()
        invariant
            i <= entries.len(),
            n@ == name@,
            forall|j: int| 0 <= j < i ==> entries@[j].0@ != name@,
        decreases entries.len() - i,
    {
        if eq_exec(&chars_of(entries[i].0.as_str()), &n) {
            proof {
                lemma_first_position_unique(entries@, name@, i as int);
            }
            return Some(i);
        }
        i = i + 1;
    }
    None
}

/// The whole configuration.
#[derive(Debug)]
pub struct Config {
    pub admin_port: u16,
    pub servers: Vec<(String, ServerConfig)>,
    pub upstreams: Vec<(String, UpstreamConfig)>,
    pub tracing: Option<TracingConfig>,
}

/// The position of the first entry named `name`, where there is one.
pub open spec fn lookup_named<T>(entries: Seq<(String, T)>, name: Seq<char>) -> Option<int> {
    if exists|i: int| first_position(entries, name, i) {
        Some(choose|i: int| first_position(entries, name, i))
    } else {
        None
    }
}

/// The positions of the upstreams that `names` resolve to, in order,
/// skipping names that no upstream has.
pub open spec fn resolve<T>(entries: Seq<(String, T)>, names: Seq<String>) -> Seq<int>
    decreases names.len(),
{
    if names.len() == 0 {
        Seq::empty()
    } else {
        let prev = resolve(entries, names.drop_last());
        match lookup_named(entries, names.last()@) {
            Some(i) => prev.push(i),
            None => prev,
        }
    }
}

/// The upstream names of the server named `server_name`; none when there is no such server.
pub open spec fn server_upstream_names(servers: Seq<(String, ServerConfig)>, server_name: Seq<char>) -> Seq<String> {
    match lookup_named(servers, server_name) {
        Some(i) => servers[i].1.upstreams@,
        None => Seq::empty(),
    }
}

impl Config {
    /// Server names are distinct, and so are upstream names: each lookup
    /// by name then has one answer.
    pub open spec fn wf(&self) -> bool {
        names_of(self.servers@).no_duplicates() && names_of(self.upstreams@).no_duplicates()
    }

    /// Checks that server names, and upstream names, are distinct.
    pub fn has_unique_names(&self) -> (r: bool)
        ensures
            r == self.wf(),
    {
        unique_names(&self.servers) && unique_names(&self.upstreams)
    }

    pub fn get_admin_port(&self) -> (r: u16)
        ensures
            r == self.admin_port,
    {
        self.admin_port
    }

    /// The server named `name`.
    pub fn get_server(&self, name: &str) -> (r: Option<&ServerConfig>)
        ensures
            r is None <==> lookup_named(self.servers@, name@) is None,
            r is Some ==> r->0 == &self.servers@[lookup_named(self.servers@, name@)->0].1,
    {
        match find(&self.servers, name) {
            Some(i) => Some(&self.servers[i].1),
            None => None,
        }
    }

    /// The upstream named `name`.
    pub fn get_upstream(&self, name: &str) -> (r: Option<&UpstreamConfig>)
        ensures
            r is None <==> lookup_named(self.upstreams@, name@) is None,
            r is Some ==> r->0 == &self.upstreams@[lookup_named(self.upstreams@, name@)->0].1,
    {
        match find(&self.upstreams, name) {
            Some(i) => Some(&self.upstreams[i].1),
            None => None,
        }
    }

    /// All servers, in file order.
    pub fn get_servers(&self) -> (r: &Vec<(String, ServerConfig)>)
        ensures
            r == &self.servers,
    {
        &self.servers
    }

    /// The listen address of the server named `server_name`, where it sets one.
    pub fn get_server_listen_addr(&self, server_name: &str) -> (r: Option<String>)
        ensures
            lookup_named(self.servers@, server_name@) is None ==> r is None,
            lookup_named(self.servers@, server_name@) is Some ==> crate::rule::opt_view(r)
                == crate::rule::opt_view(self.servers@[lookup_named(self.servers@, server_name@)->0].1.listen_addr),
    {
        match find(&self.servers, server_name) {
            Some(i) => crate::rule::copy_opt(&self.servers[i].1.listen_addr),
            None => None,
        }
    }

    /// The body bound of the server named `server_name`: its own, else 10 MiB.
    pub fn get_server_max_body_size(&self, server_name: &str) -> (r: usize)
        ensures
            lookup_named(self.servers@, server_name@) is None ==> r == DEFAULT_MAX_BODY_SIZE,
            lookup_named(self.servers@, server_name@) is Some ==> r == match self.servers@[lookup_named(
                self.servers@,
                server_name@,
            )->0].1.max_body_size {
                Some(m) => m,
                None => DEFAULT_MAX_BODY_SIZE,
            },
    {
        match find(&self.servers, server_name) {
            Some(i) => match self.servers[i].1.max_body_size {
                Some(m) => m,
                None => DEFAULT_MAX_BODY_SIZE,
            },
            None => DEFAULT_MAX_BODY_SIZE,
        }
    }

    /// The upstreams of the server named `server_name`, in the server's
    /// order, skipping names that no upstream has.
    pub fn get_server_upstreams(&self, server_name: &str) -> (r: Vec<&UpstreamConfig>)
        ensures
            r@.len() == resolve(self.upstreams@, server_upstream_names(self.servers@, server_name@)).len(),
            forall|k: int|
                0 <= k < r@.len() ==> #[trigger] r@[k] == &self.upstreams@[resolve(
                    self.upstreams@,
                    server_upstream_names(self.servers@, server_name@),
                )[k]].1,
    {
        let ghost names = server_upstream_names(self.servers@, server_name@);
        let mut result: Vec<&UpstreamConfig> = Vec::new();
        match find(&self.servers, server_name) {
            Some(s) => {
                let server = &self.servers[s].1;
                let mut i: usize = 0;
                while i < server.upstreams.len()
                    invariant
                        names == server.upstreams@,
                        i <= server.upstreams.len(),
                        result@.len() == resolve(self.upstreams@, names.take(i as int)).len(),
                        forall|k: int|
                            0 <= k < result@.len() ==> #[trigger] result@[k] == &self.upstreams@[resolve(
                                self.upstreams@,
                                names.take(i as int),
                            )[k]].1,
                    decreases server.upstreams.len() - i,
                {
                    proof {
                        assert(names.take(i + 1).drop_last() =~= names.take(i as int));
                    }
                    match find(&self.upstreams, server.upstreams[i].as_str()) {
                        Some(u) => {
                            result.push(&self.upstreams[u].1);
                        },
                        None => {},
                    }
                    i = i + 1;
                }
                proof {
                    assert(names.take(names.len() as int) =~= names);
                }
            },
            None => {},
        }
        result
    }

    /// The routing table of the server named `server_name`: its upstreams'
    /// (name, sni) pairs in the server's order, skipping unknown names.
    pub fn route_table(&self, server_name: &str) -> (r: Vec<(String, String)>)
        ensures
            r@.len() == resolve(self.upstreams@, server_upstream_names(self.servers@, server_name@)).len(),
            forall|k: int|
                0 <= k < r@.len() ==> {
                    let i = resolve(self.upstreams@, server_upstream_names(self.servers@, server_name@))[k];
                    &&& (#[trigger] r@[k]).0@ == self.upstreams@[i].0@
                    &&& r@[k].1@ == self.upstreams@[i].1.sni@
                },
    {
        let ghost names = server_upstream_names(self.servers@, server_name@);
        let mut result: Vec<(String, String)> = Vec::new();
        match find(&self.servers, server_name) {
            Some(s) => {
                let server = &self.servers[s].1;
                let mut i: usize = 0;
                while i < server.upstreams.len()
                    invariant
                        names == server.upstreams@,
                        i <= server.upstreams.len(),
                        result@.len() == resolve(self.upstreams@, names.take(i as int)).len(),
                        forall|k: int|
                            0 <= k < result@.len() ==> {
                                let j = resolve(self.upstreams@, names.take(i as int))[k];
                                &&& (#[trigger] result@[k]).0@ == self.upstreams@[j].0@
                                &&& result@[k].1@ == self.upstreams@[j].1.sni@
                            },
                    decreases server.upstreams.len() - i,
                {
                    proof {
                        assert(names.take(i + 1).drop_last() =~= names.take(i as int));
                    }
                    match find(&self.upstreams, server.upstreams[i].as_str()) {
                        Some(u) => {
                            let entry = (self.upstreams[u].0.clone(), self.upstreams[u].1.sni.clone());
                            result.push(entry);
                        },
                        None => {},
                    }
                    i = i + 1;
                }
                proof {
                    assert(names.take(names.len() as int) =~= names);
                }
            },
            None => {},
        }
        result
    }
}

} // verus!
