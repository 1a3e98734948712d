//! The server's configuration: command-line settings, the settings file's
//! `[server]` section, the stylos settings and how they are merged, the
//! address the server binds, and the key clients must present.
use vstd::prelude::*;

use crate::mailbox::opt_view;
use crate::sql::strings_view;
use crate::text::{chars_of, push_all, push_str, string_of, trim, trim_chars};

verus! {

// ── Stylos settings ──

/// The stylos (zenoh) settings of a server.
pub struct StyloSettings {
    pub enabled: bool,
    /// `peer`, `router` or `client`.
    pub mode: String,
    /// The first addressing segment.
    pub realm: String,
    /// The instance name; derived from the hostname when absent.
    pub instance: Option<String>,
    /// Endpoints to connect to.
    pub connect: Vec<String>,
}

/// The mathematical value of [`StyloSettings`].
pub struct StyloSettingsV {
    pub enabled: bool,
    pub mode: Seq<char>,
    pub realm: Seq<char>,
    pub instance: Option<Seq<char>>,
    pub connect: Seq<Seq<char>>,
}

impl View for StyloSettings {
    type V = StyloSettingsV;

    open spec fn view(&self) -> StyloSettingsV {
        StyloSettingsV {
            enabled: self.enabled,
            mode: self.mode@,
            realm: self.realm@,
            instance: opt_view(self.instance),
            connect: strings_view(self.connect@),
        }
    }
}

/// The server's command-line settings (each also read from its environment variable).
pub struct Config {
    /// Address to bind (`STELE_BIND`, default `127.0.0.1:3100`).
    pub bind: String,
    /// Path of the SQLite database (`STELE_DB`, default `./stele.db`).
    pub db: String,
    /// Path of the MCP endpoint (`STELE_MCP_PATH`, default `/mcp`).
    pub mcp_path: String,
    /// Open the settings dialog and exit.
    pub settings: bool,
    /// Pre-shared key clients send as `X-Stele-Key` (`STELE_AUTH_KEY`).
    pub auth_key: Option<String>,
    /// Enable the stylos session (`STELE_STYLOS_ENABLED`).
    pub stylos_enabled: Option<bool>,
    /// Disable the stylos session; wins over `stylos_enabled`.
    pub no_stylos: bool,
    pub stylos_mode: Option<String>,
    pub stylos_realm: Option<String>,
    pub stylos_instance: Option<String>,
    pub stylos_connect: Vec<String>,
}

/// The stylos settings after the command line: `--no-stylos` disables, else
/// `--stylos` decides, else the file does; mode, realm, instance and connect
/// endpoints are replaced when given (the endpoints when any is given).
pub open spec fn merge_stylos_spec(
    no_stylos: bool,
    enabled: Option<bool>,
    mode: Option<Seq<char>>,
    realm: Option<Seq<char>>,
    instance: Option<Seq<char>>,
    connect: Seq<Seq<char>>,
    base: StyloSettingsV,
) -> StyloSettingsV {
    StyloSettingsV {
        enabled: if no_stylos {
            false
        } else {
            match enabled {
                Some(v) => v,
                None => base.enabled,
            }
        },
        mode: match mode {
            Some(m) => m,
            None => base.mode,
        },
        realm: match realm {
            Some(r) => r,
            None => base.realm,
        },
        instance: match instance {
            Some(i) => Some(i),
            None => base.instance,
        },
        connect: if connect.len() > 0 { connect } else { base.connect },
    }
}

fn clone_strings(v: &Vec<String>) -> (r: Vec<String>)
    ensures
        strings_view(r@) == strings_view(v@),
{
    let mut out: Vec<String> = Vec::new();
    let mut i: usize = 0;
    while i < v.len()
        invariant
            i <= v@.len(),
            strings_view(out@) == strings_view(v@.take(i as int)),
        decreases v@.len() - i,
    {
        let ghost before = out@;
        out.push(v[i].clone());
        proof {
            assert(strings_view(out@) =~= strings_view(before).push(v@[i as int]@));
            assert(strings_view(v@.take(i + 1)) =~= strings_view(v@.take(i as int)).push(v@[i as int]@));
        }
        i = i + 1;
    }
    assert(v@.take(i as int) =~= v@);
    out
}

fn clone_opt(o: &Option<String>) -> (r: Option<String>)
    ensures
        opt_view(r) == opt_view(*o),
{
    match o {
        Some(s) => Some(s.clone()),
        None => None,
    }
}

impl Config {
    /// Merges the command-line stylos settings into those read from the file.
    pub fn merge_stylos(&self, base: StyloSettings) -> (r: StyloSettings)
        ensures
            r@ == merge_stylos_spec(
                self.no_stylos,
                self.stylos_enabled,
                opt_view(self.stylos_mode),
                opt_view(self.stylos_realm),
                opt_view(self.stylos_instance),
                strings_view(self.stylos_connect@),
                base@,
            ),
    {
        let mut base = base;
        if self.no_stylos {
            base.enabled = false;
        } else if let Some(v) = self.stylos_enabled {
            base.enabled = v;
        }
        if let Some(m) = &self.stylos_mode {
            base.mode = m.clone();
        }
        if let Some(r) = &self.stylos_realm {
            base.realm = r.clone();
        }
        if let Some(i) = &self.stylos_instance {
            base.instance = Some(i.clone());
        }
        if self.stylos_connect.len() > 0 {
            base.connect = clone_strings(&self.stylos_connect);
        }
        base
    }
}

// ── The settings file ──

/// The `[server]` section of the settings file.
pub struct ServerSettings {
    /// The IP address the server binds (default `127.0.0.1`).
    pub bind_ip: String,
    pub auth_key: Option<String>,
}

/// The server's part of the settings file.
pub struct Settings {
    pub server: ServerSettings,
}

/// `127.0.0.1`.
pub open spec fn default_bind_ip_spec() -> Seq<char> {
    "127.0.0.1"@
}

pub fn default_bind_ip() -> (r: String)
    ensures
        r@ == default_bind_ip_spec(),
{
    String::from_str("127.0.0.1")
}

impl Default for ServerSettings {
    fn default() -> (r: ServerSettings)
        ensures
            r.bind_ip@ == default_bind_ip_spec(),
            r.auth_key is None,
    {
        ServerSettings { bind_ip: default_bind_ip(), auth_key: None }
    }
}

impl Default for Settings {
    fn default() -> (r: Settings)
        ensures
            r.server.bind_ip@ == default_bind_ip_spec(),
            r.server.auth_key is None,
    {
        Settings { server: ServerSettings::default() }
    }
}

/// What `std::path::Path::parent` gives for a path's text (as text).
pub uninterp spec fn path_parent_of(p: Seq<char>) -> Option<Seq<char>>;

/// The parent directory of a path, as `std::path::Path::parent` gives it.
/// What its documentation gives on every platform is stated: the parent is a
/// leading part of the path's text, and the empty path has none. How
/// components are split is left to the name [`path_parent_of`].
#[verifier::external_body]
fn path_parent(p: &str) -> (r: Option<String>)
    ensures
        opt_view(r) == path_parent_of(p@),
        match r {
            Some(q) => q@.len() <= p@.len() && q@ == p@.take(q@.len() as int),
            None => true,
        },
        p@.len() == 0 ==> r is None,
{
    std::path::Path::new(p).parent().map(|q| q.to_string_lossy().into_owned())
}

/// A file name that `Path::join` appends rather than substitutes: not empty,
/// and with no separator, drive or root in it.
pub open spec fn is_plain_file_name(name: Seq<char>) -> bool {
    name.len() > 0 && forall|i: int| 0 <= i < name.len() ==> {
        let c = #[trigger] name[i];
        c != '/' && c != '\\' && c != ':'
    }
}

/// What `std::path::Path::join` gives for a directory and a plain file name.
pub uninterp spec fn path_joined(dir: Seq<char>, name: Seq<char>) -> Seq<char>;

/// `std::path::Path::join` of a directory and a plain file name (one that
/// cannot replace the directory): the directory, a separator where one is
/// needed, then the name. The separator (it differs between platforms) is
/// left to the name [`path_joined`].
#[verifier::external_body]
fn path_join(dir: &str, name: &str) -> (r: String)
    requires
        is_plain_file_name(name@),
    ensures
        r@ == path_joined(dir@, name@),
        r@.len() == dir@.len() + name@.len() || r@.len() == dir@.len() + 1 + name@.len(),
        r@.take(dir@.len() as int) == dir@,
        r@.skip(r@.len() - name@.len()) == name@,
{
    std::path::Path::new(dir).join(name).to_string_lossy().into_owned()
}

/// The settings file beside a database: `config.toml` joined to the
/// database path's parent, or to `.` when it has none.
pub open spec fn settings_path_spec(db_path: Seq<char>) -> Seq<char> {
    path_joined(
        match path_parent_of(db_path) {
            Some(d) => d,
            None => "."@,
        },
        "config.toml"@,
    )
}

/// The settings file of a server: `config.toml` beside its database (in `.`
/// when the database path has no parent).
pub fn settings_path(db_path: &str) -> (r: String)
    ensures
        r@ == settings_path_spec(db_path@),
        r@.len() >= "config.toml"@.len(),
        r@.skip(r@.len() - "config.toml"@.len()) == "config.toml"@,
{
    let dir = match path_parent(db_path) {
        Some(d) => d,
        None => String::from_str("."),
    };
    proof {
        reveal_strlit("config.toml");
        reveal_strlit(".");
    }
    path_join(dir.as_str(), "config.toml")
}

/// Two databases in the same directory share one settings file.
pub proof fn lemma_settings_beside_db(a: Seq<char>, b: Seq<char>)
    requires
        path_parent_of(a) == path_parent_of(b),
    ensures
        settings_path_spec(a) == settings_path_spec(b),
{
}

/// The key clients must present: the one given on the command line or in
/// the environment, else the one in the settings file, else none.
pub fn resolve_auth_key(config: &Config, file_settings: &Settings) -> (r: Option<String>)
    ensures
        opt_view(r) == (match config.auth_key {
            Some(k) => Some(k@),
            None => opt_view(file_settings.server.auth_key),
        }),
{
    match &config.auth_key {
        Some(k) => Some(k.clone()),
        None => clone_opt(&file_settings.server.auth_key),
    }
}

// ── Addresses ──

/// `s` with every occurrence of `pat` (taken from the left, without overlap)
/// replaced by `rep`.
pub open spec fn replace_all(s: Seq<char>, pat: Seq<char>, rep: Seq<char>) -> Seq<char>
    recommends
        pat.len() > 0,
    decreases s.len(),
{
    if pat.len() == 0 || s.len() < pat.len() {
        s
    } else if s.take(pat.len() as int) == pat {
        rep + replace_all(s.skip(pat.len() as int), pat, rep)
    } else {
        seq![s[0]] + replace_all(s.skip(1), pat, rep)
    }
}

/// Whether `pat` occurs in `s` at position `i`.
fn occurs_at(s: &Vec<char>, pat: &Vec<char>, i: usize) -> (r: bool)
    requires
        i <= s@.len(),
    ensures
        r == (s@.len() - i >= pat@.len() && s@.skip(i as int).take(pat@.len() as int) == pat@),
{
    if s.len() - i < pat.len() {
        return false;
    }
    let n: usize = s.len();
    let mut k: usize = 0;
    while k < pat.len()
        invariant
            k <= pat@.len(),
            n == s@.len(),
            i <= s@.len(),
            s@.len() - i >= pat@.len(),
            forall|j: int| 0 <= j < k ==> s@[i + j] == pat@[j],
        decreases pat@.len() - k,
    {
        if s[i + k] != pat[k] {
            assert(s@.skip(i as int).take(pat@.len() as int)[k as int] == s@[i + k]);
            return false;
        }
        k = k + 1;
    }
    assert(s@.skip(i as int).take(pat@.len() as int) =~= pat@);
    true
}

/// Replaces every occurrence of `pat` (from the left, without overlap) in `s` by `rep`.
pub fn replace_str(s: &str, pat: &str, rep: &str) -> (r: String)
    requires
        pat@.len() > 0,
    ensures
        r@ == replace_all(s@, pat@, rep@),
{
    let cs = chars_of(s);
    let ps = chars_of(pat);
    let rs = chars_of(rep);
    let mut out: Vec<char> = Vec::new();
    let mut i: usize = 0;
    assert(cs@.skip(0) =~= cs@);
    assert(out@ + cs@ =~= cs@);
    while i < cs.len()
        invariant
            i <= cs@.len(),
            cs@ == s@,
            ps@ == pat@,
            rs@ == rep@,
            ps@.len() > 0,
            out@ + replace_all(cs@.skip(i as int), ps@, rs@) == replace_all(cs@, ps@, rs@),
        decreases cs@.len() - i,
    {
        let ghost rest = cs@.skip(i as int);
        if occurs_at(&cs, &ps, i) {
            proof {
                assert(rest.skip(ps@.len() as int) =~= cs@.skip(i + ps@.len()));
                assert(out@ + replace_all(rest, ps@, rs@) == out@ + (rs@ + replace_all(cs@.skip(i + ps@.len()), ps@, rs@)));
                assert(out@ + (rs@ + replace_all(cs@.skip(i + ps@.len()), ps@, rs@)) =~= (out@ + rs@) + replace_all(cs@.skip(i + ps@.len()), ps@, rs@));
            }
            push_all(&mut out, rs.as_slice());
            i = i + ps.len();
        } else {
            let c = cs[i];
            proof {
                if rest.len() >= ps@.len() {
                    assert(rest[0] == c);
                    assert(rest.skip(1) =~= cs@.skip(i + 1));
                    assert(out@ + (seq![c] + replace_all(cs@.skip(i + 1), ps@, rs@)) =~= out@.push(c) + replace_all(cs@.skip(i + 1), ps@, rs@));
                } else {
                    assert(replace_all(rest, ps@, rs@) == rest);
                    assert(cs@.skip(i + 1).len() < ps@.len());
                    assert(replace_all(cs@.skip(i + 1), ps@, rs@) == cs@.skip(i + 1));
                    assert(rest =~= seq![c] + cs@.skip(i + 1));
                    assert(out@ + rest =~= out@.push(c) + cs@.skip(i + 1));
                }
            }
            out.push(c);
            i = i + 1;
        }
    }
    proof {
        assert(cs@.skip(i as int) =~= Seq::<char>::empty());
        assert(out@ + Seq::<char>::empty() =~= out@);
    }
    string_of(out.as_slice())
}

/// The dashboard of a server bound to `bind_addr`: `http://{addr}/api/v1/stats`,
/// with `0.0.0.0` replaced by `127.0.0.1` so that a browser can open it.
pub open spec fn dashboard_url_spec(bind_addr: Seq<char>) -> Seq<char> {
    "http://"@ + replace_all(bind_addr, "0.0.0.0"@, "127.0.0.1"@) + "/api/v1/stats"@
}

pub fn dashboard_url(bind_addr: &str) -> (r: String)
    ensures
        r@ == dashboard_url_spec(bind_addr@),
{
    proof {
        reveal_strlit("0.0.0.0");
    }
    let host = replace_str(bind_addr, "0.0.0.0", "127.0.0.1");
    let mut out = chars_of("http://");
    push_str(&mut out, host.as_str());
    push_str(&mut out, "/api/v1/stats");
    string_of(out.as_slice())
}

/// The address a desktop server binds: when the command line left the
/// default `127.0.0.1:3100`, the saved IP with the default's port; otherwise
/// what the command line gave.
pub open spec fn desktop_bind_addr_spec(bind: Seq<char>, saved_ip: Seq<char>) -> Seq<char> {
    if bind == "127.0.0.1:3100"@ {
        saved_ip + ":3100"@
    } else {
        bind
    }
}

pub fn desktop_bind_addr(bind: &str, saved_ip: &str) -> (r: String)
    ensures
        r@ == desktop_bind_addr_spec(bind@, saved_ip@),
{
    let b = chars_of(bind);
    let d = chars_of("127.0.0.1:3100");
    if crate::text::chars_eq(b.as_slice(), d.as_slice()) {
        // The default address's port.
        let mut out = chars_of(saved_ip);
        push_str(&mut out, ":3100");
        string_of(out.as_slice())
    } else {
        String::from_str(bind)
    }
}

// ── The settings dialog ──

/// Where the settings dialog binds the server.
#[derive(PartialEq, Eq, Structural)]
pub enum BindMode {
    Localhost,
    AllInterfaces,
    Custom,
}

/// The dialog's initial state for a saved bind IP: the mode, and the custom
/// address (empty unless the mode is `Custom`).
pub open spec fn bind_mode_spec(bind_ip: Seq<char>) -> (BindMode, Seq<char>) {
    if bind_ip == "127.0.0.1"@ {
        (BindMode::Localhost, Seq::empty())
    } else if bind_ip == "0.0.0.0"@ {
        (BindMode::AllInterfaces, Seq::empty())
    } else {
        (BindMode::Custom, bind_ip)
    }
}

pub fn bind_mode_of(bind_ip: &str) -> (r: (BindMode, String))
    ensures
        (r.0, r.1@) == bind_mode_spec(bind_ip@),
{
    let b = chars_of(bind_ip);
    if crate::text::chars_eq(b.as_slice(), chars_of("127.0.0.1").as_slice()) {
        (BindMode::Localhost, String::new())
    } else if crate::text::chars_eq(b.as_slice(), chars_of("0.0.0.0").as_slice()) {
        (BindMode::AllInterfaces, String::new())
    } else {
        (BindMode::Custom, String::from_str(bind_ip))
    }
}

/// The IP address the dialog applies: the mode's address, or the custom one trimmed.
pub open spec fn chosen_ip_spec(mode: BindMode, custom: Seq<char>) -> Seq<char> {
    match mode {
        BindMode::Localhost => "127.0.0.1"@,
        BindMode::AllInterfaces => "0.0.0.0"@,
        BindMode::Custom => trim(custom),
    }
}

pub fn chosen_ip(mode: &BindMode, custom: &str) -> (r: String)
    ensures
        r@ == chosen_ip_spec(*mode, custom@),
{
    match mode {
        BindMode::Localhost => String::from_str("127.0.0.1"),
        BindMode::AllInterfaces => String::from_str("0.0.0.0"),
        BindMode::Custom => {
            let c = chars_of(custom);
            let t = trim_chars(c.as_slice());
            string_of(t.as_slice())
        },
    }
}

/// The settings the dialog saves: the chosen IP, and the key already in the file.
pub fn applied_settings(ip: String, existing: Settings) -> (r: Settings)
    ensures
        r.server.bind_ip@ == ip@,
        opt_view(r.server.auth_key) == opt_view(existing.server.auth_key),
{
    Settings { server: ServerSettings { bind_ip: ip, auth_key: existing.server.auth_key } }
}

/// `--no-stylos` wins over everything; otherwise a given `--stylos` wins over
/// the file; a setting given on the command line replaces the file's.
pub proof fn lemma_stylos_precedence(
    no_stylos: bool,
    enabled: Option<bool>,
    mode: Option<Seq<char>>,
    realm: Option<Seq<char>>,
    instance: Option<Seq<char>>,
    connect: Seq<Seq<char>>,
    base: StyloSettingsV,
)
    ensures
        no_stylos ==> !merge_stylos_spec(no_stylos, enabled, mode, realm, instance, connect, base).enabled,
        !no_stylos ==> (enabled matches Some(v) ==> merge_stylos_spec(no_stylos, enabled, mode, realm, instance, connect, base).enabled == v),
        !no_stylos && enabled is None ==> merge_stylos_spec(no_stylos, enabled, mode, realm, instance, connect, base).enabled == base.enabled,
        mode matches Some(m) ==> merge_stylos_spec(no_stylos, enabled, mode, realm, instance, connect, base).mode == m,
        mode is None && realm is None && instance is None && connect.len() == 0 ==> ({
            let r = merge_stylos_spec(no_stylos, enabled, mode, realm, instance, connect, base);
            r.mode == base.mode && r.realm == base.realm && r.instance == base.instance && r.connect == base.connect
        }),
{
}

/// Replacing a text that does not occur changes nothing (so an address
/// without `0.0.0.0` appears in the dashboard's URL as it is).
pub proof fn lemma_replace_absent(s: Seq<char>, pat: Seq<char>, rep: Seq<char>)
    requires
        pat.len() > 0,
        forall|i: int| 0 <= i <= s.len() - pat.len() ==> #[trigger] s.subrange(i, i + pat.len()) != pat,
    ensures
        replace_all(s, pat, rep) == s,
    decreases s.len(),
{
    if s.len() >= pat.len() {
        assert(s.subrange(0, 0 + pat.len() as int) != pat);
        assert(s.take(pat.len() as int) =~= s.subrange(0, 0 + pat.len() as int));
        let t = s.skip(1);
        assert forall|i: int| 0 <= i <= t.len() - pat.len() implies #[trigger] t.subrange(i, i + pat.len()) != pat by {
            assert(t.subrange(i, i + pat.len()) =~= s.subrange(i + 1, i + 1 + pat.len()));
        }
        lemma_replace_absent(t, pat, rep);
        assert(seq![s[0]] + t =~= s);
    }
}

/// What the desktop app does when the saved bind IP changed: bind to the new
/// address, show it, and point the dashboard at it.
pub struct Rebind {
    pub bind_addr: String,
    pub status_text: String,
    pub dashboard_url: String,
}

/// `{ip}:{port}`.
pub open spec fn bind_addr_of(ip: Seq<char>, port: Seq<char>) -> Seq<char> {
    ip + ":"@ + port
}

/// The reaction to the settings file read anew: nothing when the saved IP is
/// the one in use; otherwise a rebind to `{saved}:{port}`, the status
/// `Stele — Running on {addr}` and the dashboard of that address.
pub fn config_change(last_known_ip: &str, port: &str, saved_ip: &str) -> (r: Option<Rebind>)
    ensures
        match r {
            None => saved_ip@ == last_known_ip@,
            Some(rb) => saved_ip@ != last_known_ip@
                && rb.bind_addr@ == bind_addr_of(saved_ip@, port@)
                && rb.status_text@ == "Stele — Running on "@ + bind_addr_of(saved_ip@, port@)
                && rb.dashboard_url@ == dashboard_url_spec(bind_addr_of(saved_ip@, port@)),
        },
{
    if crate::text::str_eq(saved_ip, last_known_ip) {
        return None;
    }
    let mut a = chars_of(saved_ip);
    push_str(&mut a, ":");
    push_str(&mut a, port);
    let addr = string_of(a.as_slice());
    let mut st = chars_of("Stele — Running on ");
    push_str(&mut st, addr.as_str());
    let status_text = string_of(st.as_slice());
    let dashboard = dashboard_url(addr.as_str());
    Some(Rebind { bind_addr: addr, status_text, dashboard_url: dashboard })
}

} // verus!
