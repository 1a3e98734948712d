//! Connection profiles of the command-line client: which server, key, host
//! and zenoh endpoint a command uses, and how profiles are added and removed.
use vstd::prelude::*;

use crate::mailbox::opt_view;
use crate::text::{chars_of, is_ascii_graphic, str_eq, string_of};

verus! {

/// A named connection to a server.
pub struct Profile {
    pub server_url: String,
    pub auth_key: Option<String>,
    pub host: Option<String>,
    pub zenoh_endpoint: String,
}

/// The mathematical value of a [`Profile`].
pub struct ProfileV {
    pub server_url: Seq<char>,
    pub auth_key: Option<Seq<char>>,
    pub host: Option<Seq<char>>,
    pub zenoh_endpoint: Seq<char>,
}

pub open spec fn profile_view(p: Profile) -> ProfileV {
    ProfileV {
        server_url: p.server_url@,
        auth_key: opt_view(p.auth_key),
        host: opt_view(p.host),
        zenoh_endpoint: p.zenoh_endpoint@,
    }
}

/// The client configuration: the default profile's name and the profiles by name.
pub struct SteleConfig {
    pub default_profile: String,
    pub profiles: Vec<(String, Profile)>,
}

pub open spec fn profiles_view(ps: Seq<(String, Profile)>) -> Seq<(Seq<char>, ProfileV)> {
    ps.map_values(|e: (String, Profile)| (e.0@, profile_view(e.1)))
}

/// Profile names occur at most once.
pub open spec fn names_unique(ps: Seq<(Seq<char>, ProfileV)>) -> bool {
    forall|i: int, j: int| 0 <= i < ps.len() && 0 <= j < ps.len() && i != j ==> ps[i].0 != ps[j].0
}

impl SteleConfig {
    /// Each profile name occurs once.
    pub open spec fn wf(&self) -> bool {
        names_unique(profiles_view(self.profiles@))
    }

    pub open spec fn profile_map(&self) -> Seq<(Seq<char>, ProfileV)> {
        profiles_view(self.profiles@)
    }
}

/// The profile named `name`, if there is one.
pub open spec fn lookup(ps: Seq<(Seq<char>, ProfileV)>, name: Seq<char>) -> Option<ProfileV>
    decreases ps.len(),
{
    if ps.len() == 0 {
        None
    } else if ps[0].0 == name {
        Some(ps[0].1)
    } else {
        lookup(ps.drop_first(), name)
    }
}

proof fn lemma_lookup_at(ps: Seq<(Seq<char>, ProfileV)>, name: Seq<char>, i: int)
    requires
        0 <= i < ps.len(),
        ps[i].0 == name,
        forall|j: int| 0 <= j < i ==> ps[j].0 != name,
    ensures
        lookup(ps, name) == Some(ps[i].1),
    decreases i,
{
    if i > 0 {
        assert forall|j: int| 0 <= j < i - 1 implies ps.drop_first()[j].0 != name by {
            assert(ps.drop_first()[j] == ps[j + 1]);
        }
        lemma_lookup_at(ps.drop_first(), name, i - 1);
    }
}

proof fn lemma_lookup_none(ps: Seq<(Seq<char>, ProfileV)>, name: Seq<char>)
    requires
        forall|j: int| 0 <= j < ps.len() ==> ps[j].0 != name,
    ensures
        lookup(ps, name) is None,
    decreases ps.len(),
{
    if ps.len() > 0 {
        assert forall|j: int| 0 <= j < ps.len() - 1 implies ps.drop_first()[j].0 != name by {
            assert(ps.drop_first()[j] == ps[j + 1]);
        }
        lemma_lookup_none(ps.drop_first(), name);
    }
}

proof fn lemma_lookup_found(ps: Seq<(Seq<char>, ProfileV)>, name: Seq<char>)
    ensures
        lookup(ps, name) is Some ==> exists|i: int| 0 <= i < ps.len() && ps[i].0 == name && ps[i].1 == lookup(ps, name)->0,
        lookup(ps, name) is None ==> forall|j: int| 0 <= j < ps.len() ==> ps[j].0 != name,
    decreases ps.len(),
{
    if ps.len() > 0 {
        lemma_lookup_found(ps.drop_first(), name);
        if ps[0].0 != name {
            if lookup(ps, name) is Some {
                let k = choose|k: int| 0 <= k < ps.drop_first().len() && ps.drop_first()[k].0 == name
                    && ps.drop_first()[k].1 == lookup(ps.drop_first(), name)->0;
                assert(ps[k + 1] == ps.drop_first()[k]);
            } else {
                assert forall|j: int| 0 <= j < ps.len() implies ps[j].0 != name by {
                    if j > 0 {
                        assert(ps[j] == ps.drop_first()[j - 1]);
                    }
                }
            }
        }
    }
}

/// The position of profile `name` in `ps`.
pub fn find_profile(ps: &Vec<(String, Profile)>, name: &str) -> (r: Option<usize>)
    ensures
        match r {
            Some(i) => i < ps@.len() && ps@[i as int].0@ == name@ && lookup(profiles_view(ps@), name@) == Some(profile_view(ps@[i as int].1)),
            None => lookup(profiles_view(ps@), name@) is None && forall|j: int| 0 <= j < ps@.len() ==> ps@[j].0@ != name@,
        },
{
    let ghost pv = profiles_view(ps@);
    let mut i: usize = 0;
    while i < ps.len()
        invariant
            i <= ps@.len(),
            pv == profiles_view(ps@),
            forall|j: int| 0 <= j < i ==> ps@[j].0@ != name@,
        decreases ps.len() - i,
    {
        if str_eq(ps[i].0.as_str(), name) {
            proof {
                assert forall|j: int| 0 <= j < i implies pv[j].0 != name@ by {
                    assert(pv[j] == (ps@[j].0@, profile_view(ps@[j].1)));
                }
                lemma_lookup_at(pv, name@, i as int);
            }
            return Some(i);
        }
        i = i + 1;
    }
    proof {
        assert forall|j: int| 0 <= j < pv.len() implies pv[j].0 != name@ by {
            assert(pv[j] == (ps@[j].0@, profile_view(ps@[j].1)));
        }
        lemma_lookup_none(pv, name@);
    }
    None
}

// ── Defaults ──

/// `tcp/127.0.0.1:31747`, the local node's zenoh endpoint.
pub open spec fn default_zenoh_endpoint_spec() -> Seq<char> {
    "tcp/127.0.0.1:31747"@
}

pub fn default_zenoh_endpoint() -> (r: String)
    ensures
        r@ == default_zenoh_endpoint_spec(),
{
    String::from_str("tcp/127.0.0.1:31747")
}

/// The server used when no profile names one.
pub open spec fn fallback_url() -> Seq<char> {
    "http://localhost:3100"@
}

impl SteleConfig {
    /// One profile, `local`, for a server on this machine; it is the default.
    pub fn default() -> (r: SteleConfig)
        ensures
            r.wf(),
            r.default_profile@ == "local"@,
            r.profile_map() == seq![("local"@, ProfileV {
                server_url: "http://127.0.0.1:3100"@,
                auth_key: None,
                host: None,
                zenoh_endpoint: default_zenoh_endpoint_spec(),
            })],
    {
        let mut profiles: Vec<(String, Profile)> = Vec::new();
        profiles.push((String::from_str("local"), Profile {
            server_url: String::from_str("http://127.0.0.1:3100"),
            auth_key: None,
            host: None,
            zenoh_endpoint: default_zenoh_endpoint(),
        }));
        let r = SteleConfig { default_profile: String::from_str("local"), profiles };
        assert(r.profile_map() =~= seq![("local"@, ProfileV {
            server_url: "http://127.0.0.1:3100"@,
            auth_key: None,
            host: None,
            zenoh_endpoint: default_zenoh_endpoint_spec(),
        })]);
        r
    }
}

/// The configuration read from a file: its profiles and default-profile name
/// (`local` when the file names none); the default configuration when the
/// file holds no profile.
pub fn config_from_parts(default_profile: Option<String>, profiles: Vec<(String, Profile)>) -> (r: SteleConfig)
    requires
        names_unique(profiles_view(profiles@)),
    ensures
        r.wf(),
        profiles@.len() == 0 ==> r.default_profile@ == "local"@ && r.profile_map().len() == 1,
        profiles@.len() > 0 ==> r.profiles@ == profiles@ && r.default_profile@ == (match default_profile {
            Some(d) => d@,
            None => "local"@,
        }),
{
    if profiles.len() == 0 {
        SteleConfig::default()
    } else {
        SteleConfig {
            default_profile: match default_profile {
                Some(d) => d,
                None => String::from_str("local"),
            },
            profiles,
        }
    }
}

// ── Lookup ──

/// The server URL and key of profile `name`; `http://localhost:3100` and no
/// key when there is no such profile.
pub open spec fn resolve_profile_spec(ps: Seq<(Seq<char>, ProfileV)>, name: Seq<char>) -> (Seq<char>, Option<Seq<char>>) {
    match lookup(ps, name) {
        Some(p) => (p.server_url, p.auth_key),
        None => (fallback_url(), None),
    }
}

pub fn resolve_profile(config: &SteleConfig, name: &str) -> (r: (String, Option<String>))
    ensures
        (r.0@, opt_view(r.1)) == resolve_profile_spec(config.profile_map(), name@),
{
    match find_profile(&config.profiles, name) {
        Some(i) => {
            let p = &config.profiles[i].1;
            (p.server_url.clone(), p.auth_key.clone())
        },
        None => (String::from_str("http://localhost:3100"), None),
    }
}

/// Connection settings given on the command line.
pub struct CliArgs {
    pub profile: Option<String>,
    pub server_url: Option<String>,
    pub auth_key: Option<String>,
    pub zenoh_endpoint: Option<String>,
}

/// Connection settings from the environment: `STELE_PROFILE`, `STELE_URL`,
/// `STELE_AUTH_KEY`, `STELE_ZENOH_ENDPOINT` (each when set).
pub struct EnvArgs {
    pub profile: Option<String>,
    pub server_url: Option<String>,
    pub auth_key: Option<String>,
    pub zenoh_endpoint: Option<String>,
}

/// The first of two optional values that is given.
pub open spec fn first_given(a: Option<Seq<char>>, b: Option<Seq<char>>) -> Option<Seq<char>> {
    match a {
        Some(x) => Some(x),
        None => b,
    }
}

/// The connection a command uses: server URL, key, host and zenoh endpoint.
/// Each comes from the command line, else the environment, else the profile
/// (the one named on the command line, else in the environment, else the
/// default one), else a built-in default; the host comes from the profile only.
pub open spec fn connection_spec(
    cli: (Option<Seq<char>>, Option<Seq<char>>, Option<Seq<char>>, Option<Seq<char>>),
    env: (Option<Seq<char>>, Option<Seq<char>>, Option<Seq<char>>, Option<Seq<char>>),
    default_profile: Seq<char>,
    ps: Seq<(Seq<char>, ProfileV)>,
) -> (Seq<char>, Option<Seq<char>>, Option<Seq<char>>, Seq<char>) {
    let name = match first_given(cli.0, env.0) {
        Some(n) => n,
        None => default_profile,
    };
    let p = lookup(ps, name);
    let url = match first_given(cli.1, env.1) {
        Some(u) => u,
        None => match p {
            Some(p) => p.server_url,
            None => fallback_url(),
        },
    };
    let key = match first_given(cli.2, env.2) {
        Some(k) => Some(k),
        None => match p {
            Some(p) => p.auth_key,
            None => None,
        },
    };
    let host = match p {
        Some(p) => p.host,
        None => None,
    };
    let zenoh = match first_given(cli.3, env.3) {
        Some(z) => z,
        None => match p {
            Some(p) => p.zenoh_endpoint,
            None => default_zenoh_endpoint_spec(),
        },
    };
    (url, key, host, zenoh)
}

fn first_of(a: Option<String>, b: Option<String>) -> (r: Option<String>)
    ensures
        opt_view(r) == first_given(opt_view(a), opt_view(b)),
{
    match a {
        Some(x) => Some(x),
        None => b,
    }
}

pub fn resolve_connection(cli: CliArgs, env: EnvArgs, config: &SteleConfig) -> (r: (String, Option<String>, Option<String>, String))
    ensures
        (r.0@, opt_view(r.1), opt_view(r.2), r.3@) == connection_spec(
            (opt_view(cli.profile), opt_view(cli.server_url), opt_view(cli.auth_key), opt_view(cli.zenoh_endpoint)),
            (opt_view(env.profile), opt_view(env.server_url), opt_view(env.auth_key), opt_view(env.zenoh_endpoint)),
            config.default_profile@,
            config.profile_map(),
        ),
{
    let name = match first_of(cli.profile, env.profile) {
        Some(n) => n,
        None => config.default_profile.clone(),
    };
    let found = find_profile(&config.profiles, name.as_str());
    let url = match first_of(cli.server_url, env.server_url) {
        Some(u) => u,
        None => match found {
            Some(i) => config.profiles[i].1.server_url.clone(),
            None => String::from_str("http://localhost:3100"),
        },
    };
    let key = match first_of(cli.auth_key, env.auth_key) {
        Some(k) => Some(k),
        None => match found {
            Some(i) => config.profiles[i].1.auth_key.clone(),
            None => None,
        },
    };
    let host = match found {
        Some(i) => config.profiles[i].1.host.clone(),
        None => None,
    };
    let zenoh = match first_of(cli.zenoh_endpoint, env.zenoh_endpoint) {
        Some(z) => z,
        None => match found {
            Some(i) => config.profiles[i].1.zenoh_endpoint.clone(),
            None => default_zenoh_endpoint(),
        },
    };
    (url, key, host, zenoh)
}

// ── Editing profiles ──

/// `ps` with profile `name` replaced by `p` in place, or appended when absent.
pub open spec fn put_profile(ps: Seq<(Seq<char>, ProfileV)>, name: Seq<char>, p: ProfileV) -> Seq<(Seq<char>, ProfileV)> {
    if exists|i: int| 0 <= i < ps.len() && ps[i].0 == name {
        ps.update(choose|i: int| 0 <= i < ps.len() && ps[i].0 == name, (name, p))
    } else {
        ps.push((name, p))
    }
}

/// Adds or updates profile `name` (`stele config set`): its server URL and key
/// become the given ones, and its host and zenoh endpoint are kept when the
/// profile already exists (the host otherwise unset, the endpoint the default);
/// with `set_default` it becomes the default profile.
pub fn set_profile(config: &mut SteleConfig, name: &str, url: &str, key: Option<String>, set_default: bool)
    requires
        old(config).wf(),
    ensures
        final(config).wf(),
        ({
            let old_p = lookup(old(config).profile_map(), name@);
            let new_p = ProfileV {
                server_url: url@,
                auth_key: opt_view(key),
                host: match old_p {
                    Some(p) => p.host,
                    None => None,
                },
                zenoh_endpoint: match old_p {
                    Some(p) => p.zenoh_endpoint,
                    None => default_zenoh_endpoint_spec(),
                },
            };
            final(config).profile_map() == put_profile(old(config).profile_map(), name@, new_p)
        }),
        final(config).default_profile@ == (if set_default { name@ } else { old(config).default_profile@ }),
{
    let ghost before = config.profile_map();
    let found = find_profile(&config.profiles, name);
    match found {
        Some(i) => {
            let host = config.profiles[i].1.host.clone();
            let zenoh = config.profiles[i].1.zenoh_endpoint.clone();
            let p = Profile { server_url: String::from_str(url), auth_key: key, host, zenoh_endpoint: zenoh };
            let ghost pv = profile_view(p);
            config.profiles.set(i, (String::from_str(name), p));
            proof {
                assert(before[i as int].0 == name@);
                let w = choose|k: int| 0 <= k < before.len() && before[k].0 == name@;
                if w != i {
                    assert(before[w].0 == before[i as int].0);
                }
                assert(config.profile_map() =~= before.update(i as int, (name@, pv)));
            }
        },
        None => {
            let p = Profile {
                server_url: String::from_str(url),
                auth_key: key,
                host: None,
                zenoh_endpoint: default_zenoh_endpoint(),
            };
            let ghost pv = profile_view(p);
            config.profiles.push((String::from_str(name), p));
            proof {
                assert(config.profile_map() =~= before.push((name@, pv)));
                assert forall|k: int| 0 <= k < before.len() implies before[k].0 != name@ by {
                    assert(before[k].0 == old(config).profiles@[k].0@);
                }
            }
        },
    }
    if set_default {
        config.default_profile = String::from_str(name);
    }
}

/// Profile `name` removed, the others kept in order.
pub open spec fn without(ps: Seq<(Seq<char>, ProfileV)>, name: Seq<char>) -> Seq<(Seq<char>, ProfileV)> {
    ps.filter(named_otherwise(name))
}

/// Holds of the entries whose name is not `name`.
pub open spec fn named_otherwise(name: Seq<char>) -> spec_fn((Seq<char>, ProfileV)) -> bool {
    |e: (Seq<char>, ProfileV)| e.0 != name
}

/// Removes profile `name` (`stele config remove`): false when there is no such
/// profile (nothing changes). When the removed profile was the default, the
/// default becomes the first remaining profile, or `local` when none remains.
pub fn remove_profile(config: &mut SteleConfig, name: &str) -> (r: bool)
    requires
        old(config).wf(),
    ensures
        final(config).wf(),
        r == (lookup(old(config).profile_map(), name@) is Some),
        !r ==> final(config).profile_map() == old(config).profile_map()
            && final(config).default_profile@ == old(config).default_profile@,
        r ==> final(config).profile_map() == without(old(config).profile_map(), name@),
        r ==> final(config).default_profile@ == (if old(config).default_profile@ == name@ {
            if final(config).profile_map().len() > 0 { final(config).profile_map()[0].0 } else { "local"@ }
        } else {
            old(config).default_profile@
        }),
{
    let ghost before = config.profile_map();
    match find_profile(&config.profiles, name) {
        None => false,
        Some(i) => {
            config.profiles.remove(i);
            proof {
                assert(before[i as int].0 == name@);
                assert forall|k: int| 0 <= k < before.len() && k != i implies before[k].0 != name@ by {}
                lemma_filter_remove_unique(before, i as int, name@);
                assert(config.profile_map() =~= before.remove(i as int));
            }
            if str_eq(config.default_profile.as_str(), name) {
                if config.profiles.len() > 0 {
                    config.default_profile = config.profiles[0].0.clone();
                } else {
                    config.default_profile = String::from_str("local");
                }
            }
            true
        },
    }
}

proof fn lemma_filter_remove_unique(ps: Seq<(Seq<char>, ProfileV)>, i: int, name: Seq<char>)
    requires
        0 <= i < ps.len(),
        ps[i].0 == name,
        forall|k: int| 0 <= k < ps.len() && k != i ==> ps[k].0 != name,
    ensures
        without(ps, name) == ps.remove(i),
    decreases ps.len(),
{
    reveal(Seq::filter);
    if i == ps.len() - 1 {
        assert(ps.remove(i) =~= ps.drop_last());
        lemma_filter_all(ps.drop_last(), name);
    } else {
        lemma_filter_remove_unique(ps.drop_last(), i, name);
        assert(ps.remove(i) =~= ps.drop_last().remove(i).push(ps.last()));
    }
}

proof fn lemma_filter_all(ps: Seq<(Seq<char>, ProfileV)>, name: Seq<char>)
    requires
        forall|k: int| 0 <= k < ps.len() ==> ps[k].0 != name,
    ensures
        without(ps, name) == ps,
    decreases ps.len(),
{
    reveal(Seq::filter);
    if ps.len() > 0 {
        lemma_filter_all(ps.drop_last(), name);
        assert(ps.drop_last().push(ps.last()) =~= ps);
    }
}

/// After setting a profile, looking it up gives the server URL and key that were set.
pub proof fn lemma_set_then_resolve(ps: Seq<(Seq<char>, ProfileV)>, name: Seq<char>, p: ProfileV)
    requires
        names_unique(ps),
    ensures
        names_unique(put_profile(ps, name, p)),
        lookup(put_profile(ps, name, p), name) == Some(p),
        resolve_profile_spec(put_profile(ps, name, p), name) == (p.server_url, p.auth_key),
{
    let q = put_profile(ps, name, p);
    if exists|i: int| 0 <= i < ps.len() && ps[i].0 == name {
        let i = choose|i: int| 0 <= i < ps.len() && ps[i].0 == name;
        assert forall|j: int| 0 <= j < i implies q[j].0 != name by {
            assert(q[j] == ps[j]);
        }
        lemma_lookup_at(q, name, i);
    } else {
        assert forall|j: int| 0 <= j < ps.len() implies q[j].0 != name by {
            assert(q[j] == ps[j]);
        }
        lemma_lookup_at(q, name, ps.len() as int);
    }
}

/// After removing a profile, it is gone: looking it up falls back to the built-in server.
pub proof fn lemma_remove_then_resolve(ps: Seq<(Seq<char>, ProfileV)>, name: Seq<char>)
    ensures
        lookup(without(ps, name), name) is None,
        resolve_profile_spec(without(ps, name), name) == (fallback_url(), None::<Seq<char>>),
{
    let w = without(ps, name);
    assert forall|j: int| 0 <= j < w.len() implies w[j].0 != name by {
        ps.lemma_filter_pred(named_otherwise(name), j);
    }
    lemma_lookup_none(w, name);
}

// ── Hosts ──

/// A hostname reduced to its graphic ASCII characters; `unknown` when none is left.
pub open spec fn clean_hostname_spec(raw: Seq<char>) -> Seq<char> {
    let kept = raw.filter(|c: char| is_ascii_graphic(c));
    if kept.len() == 0 { "unknown"@ } else { kept }
}

pub fn clean_hostname(raw: &str) -> (r: String)
    ensures
        r@ == clean_hostname_spec(raw@),
{
    let cs = chars_of(raw);
    let mut out: Vec<char> = Vec::new();
    let mut i: usize = 0;
    let ghost f = |c: char| is_ascii_graphic(c);
    while i < cs.len()
        invariant
            i <= cs@.len(),
            cs@ == raw@,
            f == (|c: char| is_ascii_graphic(c)),
            out@ == cs@.take(i as int).filter(f),
        decreases cs.len() - i,
    {
        let c = cs[i];
        proof {
            assert(cs@.take(i + 1) =~= cs@.take(i as int).push(c));
            cs@.take(i as int).lemma_filter_push(c, f);
        }
        if '!' <= c && c <= '~' {
            out.push(c);
        }
        i = i + 1;
    }
    assert(cs@.take(cs@.len() as int) =~= raw@);
    if out.len() == 0 {
        String::from_str("unknown")
    } else {
        string_of(out.as_slice())
    }
}

/// The host name of this machine, as `gethostname::gethostname` reports it
/// (decoded lossily to UTF-8). Nothing is stated of it: it depends on the machine.
#[verifier::external_body]
fn machine_hostname() -> (r: String) {
    gethostname::gethostname().to_string_lossy().to_string()
}

/// Gives every profile without a host the given host; true when one was given.
pub fn backfill_hosts(config: &mut SteleConfig, host: &String) -> (r: bool)
    requires
        old(config).wf(),
    ensures
        final(config).wf(),
        final(config).default_profile == old(config).default_profile,
        final(config).profile_map().len() == old(config).profile_map().len(),
        forall|i: int| 0 <= i < old(config).profile_map().len() ==> {
            let o = #[trigger] old(config).profile_map()[i];
            let n = final(config).profile_map()[i];
            &&& n.0 == o.0
            &&& n.1.server_url == o.1.server_url
            &&& n.1.auth_key == o.1.auth_key
            &&& n.1.zenoh_endpoint == o.1.zenoh_endpoint
            &&& n.1.host == (match o.1.host {
                Some(h) => Some(h),
                None => Some(host@),
            })
        },
        r == exists|i: int| 0 <= i < old(config).profile_map().len() && (#[trigger] old(config).profile_map()[i]).1.host is None,
{
    let ghost before = config.profile_map();
    let mut mutated = false;
    let mut i: usize = 0;
    let n = config.profiles.len();
    while i < n
        invariant
            i <= n,
            n == config.profiles@.len(),
            before.len() == n,
            before == old(config).profile_map(),
            config.default_profile == old(config).default_profile,
            forall|k: int| 0 <= k < n ==> {
                let o = #[trigger] before[k];
                let c = config.profile_map()[k];
                &&& c.0 == o.0
                &&& c.1.server_url == o.1.server_url
                &&& c.1.auth_key == o.1.auth_key
                &&& c.1.zenoh_endpoint == o.1.zenoh_endpoint
                &&& c.1.host == (if k < i {
                    match o.1.host {
                        Some(h) => Some(h),
                        None => Some(host@),
                    }
                } else {
                    o.1.host
                })
            },
            mutated == exists|k: int| 0 <= k < i && (#[trigger] before[k]).1.host is None,
        decreases n - i,
    {
        proof {
            assert(config.profile_map()[i as int] == (config.profiles@[i as int].0@, profile_view(config.profiles@[i as int].1)));
            assert(before[i as int].1.host is None <==> config.profiles@[i as int].1.host is None);
        }
        if config.profiles[i].1.host.is_none() {
            let ghost prev = config.profiles@;
            let (nm, p) = config.profiles.remove(i);
            let p2 = Profile { host: Some(host.clone()), ..p };
            config.profiles.insert(i, (nm, p2));
            proof {
                assert(config.profiles@ =~= prev.update(i as int, (nm, p2)));
            }
            mutated = true;
        }
        i = i + 1;
    }
    proof {
        assert forall|a: int, b: int| 0 <= a < n && 0 <= b < n && a != b implies
            config.profile_map()[a].0 != config.profile_map()[b].0 by {
            assert(before[a].0 != before[b].0);
        }
    }
    mutated
}

/// Gives every profile without a host this machine's host name, reduced to its
/// graphic ASCII characters (`unknown` when none is left). Returns whether a
/// profile changed, and the host name that was used.
pub fn backfill_machine_host(config: &mut SteleConfig) -> (r: (bool, String))
    requires
        old(config).wf(),
    ensures
        final(config).wf(),
        r.1@.len() > 0,
        forall|i: int| 0 <= i < r.1@.len() ==> is_ascii_graphic(#[trigger] r.1@[i]),
        final(config).default_profile == old(config).default_profile,
        final(config).profile_map().len() == old(config).profile_map().len(),
        forall|i: int| 0 <= i < old(config).profile_map().len() ==> {
            let o = #[trigger] old(config).profile_map()[i];
            let n = final(config).profile_map()[i];
            &&& n.0 == o.0
            &&& n.1.server_url == o.1.server_url
            &&& n.1.auth_key == o.1.auth_key
            &&& n.1.zenoh_endpoint == o.1.zenoh_endpoint
            &&& n.1.host == (match o.1.host {
                Some(h) => Some(h),
                None => Some(r.1@),
            })
        },
        r.0 == exists|i: int| 0 <= i < old(config).profile_map().len() && (#[trigger] old(config).profile_map()[i]).1.host is None,
{
    let raw = machine_hostname();
    let host = clean_hostname(raw.as_str());
    proof {
        reveal_strlit("unknown");
        let kept = raw@.filter(|c: char| is_ascii_graphic(c));
        assert forall|i: int| 0 <= i < kept.len() implies is_ascii_graphic(#[trigger] kept[i]) by {
            raw@.lemma_filter_pred(|c: char| is_ascii_graphic(c), i);
        }
    }
    let changed = backfill_hosts(config, &host);
    (changed, host)
}

/// Command-line flags win over the environment, which wins over the profile,
/// which wins over the built-in defaults: a server URL, key or endpoint given
/// on the command line is the one used, whatever the environment and the
/// configuration hold; given only in the environment, it is used whatever the
/// configuration holds.
pub proof fn lemma_connection_precedence(
    cli: (Option<Seq<char>>, Option<Seq<char>>, Option<Seq<char>>, Option<Seq<char>>),
    env: (Option<Seq<char>>, Option<Seq<char>>, Option<Seq<char>>, Option<Seq<char>>),
    default_profile: Seq<char>,
    ps: Seq<(Seq<char>, ProfileV)>,
)
    ensures
        cli.1 matches Some(u) ==> connection_spec(cli, env, default_profile, ps).0 == u,
        cli.2 matches Some(k) ==> connection_spec(cli, env, default_profile, ps).1 == Some(k),
        cli.3 matches Some(z) ==> connection_spec(cli, env, default_profile, ps).3 == z,
        cli.1 is None ==> (env.1 matches Some(u) ==> connection_spec(cli, env, default_profile, ps).0 == u),
        cli.2 is None ==> (env.2 matches Some(k) ==> connection_spec(cli, env, default_profile, ps).1 == Some(k)),
        cli.3 is None ==> (env.3 matches Some(z) ==> connection_spec(cli, env, default_profile, ps).3 == z),
        cli.1 is None && env.1 is None && lookup(ps, default_profile) is None && cli.0 is None && env.0 is None
            ==> connection_spec(cli, env, default_profile, ps).0 == fallback_url(),
{
}

/// A profile named on the command line is the one used, whatever
/// `STELE_PROFILE` holds: the host always comes from it, and the URL, key
/// and endpoint do when no flag or variable gives them; a profile named only
/// in the environment is used likewise. Changing the environment's profile
/// changes nothing once the command line names one.
pub proof fn lemma_cli_profile_wins(
    cli: (Option<Seq<char>>, Option<Seq<char>>, Option<Seq<char>>, Option<Seq<char>>),
    env: (Option<Seq<char>>, Option<Seq<char>>, Option<Seq<char>>, Option<Seq<char>>),
    other_env_profile: Option<Seq<char>>,
    default_profile: Seq<char>,
    ps: Seq<(Seq<char>, ProfileV)>,
)
    ensures
        ({
            let r = connection_spec(cli, env, default_profile, ps);
            let chosen = match cli.0 {
                Some(n) => Some(n),
                None => env.0,
            };
            &&& cli.0 is Some ==> r == connection_spec(
                cli, (other_env_profile, env.1, env.2, env.3), default_profile, ps)
            &&& chosen matches Some(n) ==> (lookup(ps, n) matches Some(p) ==> {
                &&& r.2 == p.host
                &&& (cli.1 is None && env.1 is None ==> r.0 == p.server_url)
                &&& (cli.2 is None && env.2 is None ==> r.1 == p.auth_key)
                &&& (cli.3 is None && env.3 is None ==> r.3 == p.zenoh_endpoint)
            })
        }),
{
}

} // verus!
