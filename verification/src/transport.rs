//! The stylos transport: the ports a node tries, the TLS files it is given,
//! and the health it reports.
use vstd::prelude::*;

use crate::mailbox::opt_view;
use crate::text::{chars_of, decimal, decimal_chars, push_all, push_str, string_of};

verus! {

/// `start + cap`, or `u16::MAX` when that does not fit.
pub open spec fn port_end(start: u16, cap: u16) -> u16 {
    if start + cap > u16::MAX { u16::MAX } else { (start + cap) as u16 }
}

/// The ports tried for a listener, in order: from `start` up to (not
/// including) `start + cap`, capped at the largest port.
pub fn port_candidates(start: u16, cap: u16) -> (r: Vec<u16>)
    ensures
        r@.len() == port_end(start, cap) - start,
        forall|i: int| 0 <= i < r@.len() ==> #[trigger] r@[i] == start + i,
{
    let end: u16 = start.saturating_add(cap);
    let mut out: Vec<u16> = Vec::new();
    let mut p: u16 = start;
    while p < end
        invariant
            start <= p <= end,
            end == port_end(start, cap),
            out@.len() == p - start,
            forall|i: int| 0 <= i < out@.len() ==> #[trigger] out@[i] == start + i,
        decreases end - p,
    {
        out.push(p);
        p = p + 1;
    }
    out
}

/// `no free port in [{start}, {end}) for TCP+UDP dual bind`.
pub open spec fn no_free_port_text(start: u16, cap: u16) -> Seq<char> {
    "no free port in ["@ + decimal(start as nat) + ", "@ + decimal(port_end(start, cap) as nat) + ") for TCP+UDP dual bind"@
}

/// The error when no port of the range could be bound for both TCP and UDP.
pub fn no_free_port(start: u16, cap: u16) -> (r: String)
    ensures
        r@ == no_free_port_text(start, cap),
{
    let end: u16 = start.saturating_add(cap);
    let mut out = chars_of("no free port in [");
    let a = decimal_chars(start as u64);
    push_all(&mut out, a.as_slice());
    push_str(&mut out, ", ");
    let b = decimal_chars(end as u64);
    push_all(&mut out, b.as_slice());
    push_str(&mut out, ") for TCP+UDP dual bind");
    string_of(out.as_slice())
}

/// The port a node listens on: the first candidate of `start..start + cap`
/// (see [`port_candidates`]) that could be bound for both TCP and UDP, where
/// `free[i]` says whether candidate `i` could; the range's error when none
/// could.
pub fn first_free_port(start: u16, cap: u16, free: &Vec<bool>) -> (r: Result<u16, String>)
    requires
        free@.len() == port_end(start, cap) - start,
    ensures
        match r {
            Ok(p) => start <= p < port_end(start, cap) && free@[p - start]
                && forall|i: int| 0 <= i < p - start ==> !#[trigger] free@[i],
            Err(e) => e@ == no_free_port_text(start, cap)
                && forall|i: int| 0 <= i < free@.len() ==> !#[trigger] free@[i],
        },
{
    let mut i: usize = 0;
    while i < free.len()
        invariant
            i <= free@.len(),
            free@.len() == port_end(start, cap) - start,
            forall|j: int| 0 <= j < i ==> !#[trigger] free@[j],
        decreases free@.len() - i,
    {
        if free[i] {
            let p: u16 = start + (i as u16);
            return Ok(p);
        }
        i = i + 1;
    }
    Err(no_free_port(start, cap))
}

/// The TLS files named in a node's zenoh settings.
pub struct TlsSettings {
    pub root_ca_certificate: Option<String>,
    pub listen_certificate: Option<String>,
    pub listen_private_key: Option<String>,
}

/// The TLS files a node uses: its root CA, certificate and private key.
pub struct TlsPaths {
    pub root_ca: Option<String>,
    pub cert: Option<String>,
    pub key: Option<String>,
}

impl TlsPaths {
    /// The TLS files of the settings' `transport.link.tls` section, when it
    /// exists and names at least one file.
    pub fn from_config(tls: Option<TlsSettings>) -> (r: Option<TlsPaths>)
        ensures
            match tls {
                Some(t) => if t.root_ca_certificate is None && t.listen_certificate is None && t.listen_private_key is None {
                    r is None
                } else {
                    r matches Some(p) && opt_view(p.root_ca) == opt_view(t.root_ca_certificate)
                        && opt_view(p.cert) == opt_view(t.listen_certificate)
                        && opt_view(p.key) == opt_view(t.listen_private_key)
                },
                None => r is None,
            },
    {
        match tls {
            None => None,
            Some(t) => {
                if t.root_ca_certificate.is_none() && t.listen_certificate.is_none() && t.listen_private_key.is_none() {
                    None
                } else {
                    Some(TlsPaths { root_ca: t.root_ca_certificate, cert: t.listen_certificate, key: t.listen_private_key })
                }
            },
        }
    }
}

/// What a running stylos session reports about itself.
pub struct StylosHealth {
    pub enabled: bool,
    pub mode: String,
    pub zid: String,
    pub realm: String,
    pub instance: String,
    pub listen_endpoints: Vec<String>,
    pub peers: usize,
    pub routers: usize,
}

/// The health of a running session: enabled, with its mode, realm and
/// instance, the session id and the numbers of peers and routers it sees.
pub fn running_health(mode: &str, realm: &str, instance: &str, zid: String, peers: usize, routers: usize) -> (r: StylosHealth)
    ensures
        r.enabled,
        r.mode@ == mode@,
        r.zid@ == zid@,
        r.realm@ == realm@,
        r.instance@ == instance@,
        r.listen_endpoints@.len() == 0,
        r.peers == peers,
        r.routers == routers,
{
    StylosHealth {
        enabled: true,
        mode: String::from_str(mode),
        zid,
        realm: String::from_str(realm),
        instance: String::from_str(instance),
        listen_endpoints: Vec::new(),
        peers,
        routers,
    }
}

} // verus!
