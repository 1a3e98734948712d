//! The stylos node of a stele server: its instance name, key expressions,
//! listen endpoints, and the retry schedule of its delivery worker.
use vstd::prelude::*;

use crate::text::{
    chars_of, copy_range, decimal, decimal_chars, is_ascii_digit, is_ascii_lower, push_all, push_str,
    string_of, trim, trim_chars,
};

verus! {

// ── Instance names ──

/// The instance grammar `[a-z0-9][a-z0-9-]*`.
pub open spec fn is_valid_instance_spec(s: Seq<char>) -> bool {
    &&& s.len() > 0
    &&& (is_ascii_lower(s[0]) || is_ascii_digit(s[0]))
    &&& forall|i: int| 1 <= i < s.len() ==> is_ascii_lower(#[trigger] s[i]) || is_ascii_digit(s[i]) || s[i] == '-'
}

/// Whether `s` is a valid instance name: `[a-z0-9][a-z0-9-]*`.
pub fn is_valid_instance(s: &str) -> (r: bool)
    ensures
        r == is_valid_instance_spec(s@),
{
    let c = chars_of(s);
    if c.len() == 0 {
        return false;
    }
    let c0 = c[0];
    if !(('a' <= c0 && c0 <= 'z') || ('0' <= c0 && c0 <= '9')) {
        return false;
    }
    let mut i: usize = 1;
    while i < c.len()
        invariant
            1 <= i <= c@.len(),
            c@ == s@,
            forall|k: int| 1 <= k < i ==> is_ascii_lower(#[trigger] c@[k]) || is_ascii_digit(c@[k]) || c@[k] == '-',
        decreases c.len() - i,
    {
        let ch = c[i];
        if !(('a' <= ch && ch <= 'z') || ('0' <= ch && ch <= '9') || ch == '-') {
            return false;
        }
        i = i + 1;
    }
    true
}

/// A hostname character kept in an instance name; any other becomes `-`.
pub open spec fn instance_char(c: char) -> char {
    if is_ascii_lower(c) || is_ascii_digit(c) || c == '-' { c } else { '-' }
}

pub open spec fn strip_dashes_start(s: Seq<char>) -> Seq<char>
    decreases s.len(),
{
    if s.len() > 0 && s[0] == '-' { strip_dashes_start(s.drop_first()) } else { s }
}

pub open spec fn strip_dashes_end(s: Seq<char>) -> Seq<char>
    decreases s.len(),
{
    if s.len() > 0 && s.last() == '-' { strip_dashes_end(s.drop_last()) } else { s }
}

/// The instance name a (lower-cased) hostname gives: characters outside
/// `[a-z0-9-]` become `-`, leading and trailing `-` are removed, and at most
/// 32 characters are kept; none when nothing is left.
pub open spec fn instance_from_hostname(lowered: Seq<char>) -> Option<Seq<char>> {
    let mapped = lowered.map_values(|c: char| instance_char(c));
    let t = strip_dashes_end(strip_dashes_start(mapped));
    let capped = if t.len() <= 32 { t } else { t.take(32) };
    if capped.len() == 0 { None } else { Some(capped) }
}

proof fn lemma_strip_start(s: Seq<char>, i: int)
    requires
        0 <= i <= s.len(),
        forall|k: int| 0 <= k < i ==> s[k] == '-',
        i == s.len() || s[i] != '-',
    ensures
        strip_dashes_start(s) == s.skip(i),
    decreases i,
{
    if i > 0 {
        lemma_strip_start(s.drop_first(), i - 1);
        assert(s.drop_first().skip(i - 1) =~= s.skip(i));
    } else {
        assert(s.skip(0) =~= s);
    }
}

proof fn lemma_strip_end(s: Seq<char>, j: int)
    requires
        0 <= j <= s.len(),
        forall|k: int| j <= k < s.len() ==> s[k] == '-',
        j == 0 || s[j - 1] != '-',
    ensures
        strip_dashes_end(s) == s.take(j),
    decreases s.len() - j,
{
    if j < s.len() {
        lemma_strip_end(s.drop_last(), j);
        assert(s.drop_last().take(j) =~= s.take(j));
    } else {
        assert(s.take(j) =~= s);
    }
}

/// The instance name for a lower-cased hostname (see [`instance_from_hostname`]).
pub fn normalize_hostname(lowered: &str) -> (r: Option<String>)
    ensures
        match r {
            Some(s) => instance_from_hostname(lowered@) == Some(s@),
            None => instance_from_hostname(lowered@) is None,
        },
{
    let c = chars_of(lowered);
    let mut mapped: Vec<char> = Vec::new();
    let mut i: usize = 0;
    while i < c.len()
        invariant
            i <= c@.len(),
            mapped@ == c@.take(i as int).map_values(|ch: char| instance_char(ch)),
        decreases c.len() - i,
    {
        let ch = c[i];
        if ('a' <= ch && ch <= 'z') || ('0' <= ch && ch <= '9') || ch == '-' {
            mapped.push(ch);
        } else {
            mapped.push('-');
        }
        assert(mapped@ =~= c@.take(i + 1).map_values(|ch: char| instance_char(ch)));
        i = i + 1;
    }
    assert(c@.take(c@.len() as int) =~= c@);
    let ghost m = mapped@;
    let n = mapped.len();
    let mut a: usize = 0;
    while a < n && mapped[a] == '-'
        invariant
            n == m.len(),
            mapped@ == m,
            a <= n,
            forall|k: int| 0 <= k < a ==> m[k] == '-',
        decreases n - a,
    {
        a = a + 1;
    }
    proof {
        lemma_strip_start(m, a as int);
    }
    let ghost st = m.skip(a as int);
    let mut b: usize = n;
    while b > a && mapped[b - 1] == '-'
        invariant
            n == m.len(),
            mapped@ == m,
            a <= b <= n,
            forall|k: int| b <= k < n ==> m[k] == '-',
        decreases b,
    {
        b = b - 1;
    }
    proof {
        assert forall|k: int| (b - a) <= k < st.len() implies st[k] == '-' by {
            assert(st[k] == m[k + a]);
        }
        if b > a {
            assert(st[b - a - 1] == m[b - 1]);
        }
        lemma_strip_end(st, (b - a) as int);
        assert(st.take((b - a) as int) =~= m.subrange(a as int, b as int));
    }
    let hi = if b - a <= 32 { b } else { a + 32 };
    let capped = copy_range(mapped.as_slice(), a, hi);
    assert(capped@ =~= (if (b - a) <= 32 { m.subrange(a as int, b as int) } else { m.subrange(a as int, b as int).take(32) }));
    if capped.len() == 0 {
        None
    } else {
        Some(string_of(capped.as_slice()))
    }
}

proof fn lemma_strip_start_shape(s: Seq<char>)
    ensures
        strip_dashes_start(s).len() <= s.len(),
        strip_dashes_start(s) == s.skip(s.len() - strip_dashes_start(s).len()),
        strip_dashes_start(s).len() > 0 ==> strip_dashes_start(s)[0] != '-',
    decreases s.len(),
{
    if s.len() > 0 && s[0] == '-' {
        lemma_strip_start_shape(s.drop_first());
        let r = strip_dashes_start(s.drop_first());
        assert(s.drop_first().skip(s.drop_first().len() - r.len()) =~= s.skip(s.len() - r.len()));
    } else {
        assert(s.skip(0) =~= s);
    }
}

proof fn lemma_strip_end_shape(s: Seq<char>)
    ensures
        strip_dashes_end(s).len() <= s.len(),
        strip_dashes_end(s) == s.take(strip_dashes_end(s).len() as int),
        strip_dashes_end(s).len() > 0 ==> strip_dashes_end(s).last() != '-',
    decreases s.len(),
{
    if s.len() > 0 && s.last() == '-' {
        lemma_strip_end_shape(s.drop_last());
        let r = strip_dashes_end(s.drop_last());
        assert(s.drop_last().take(r.len() as int) =~= s.take(r.len() as int));
    } else {
        assert(s.take(s.len() as int) =~= s);
    }
}

/// Every instance name a hostname gives satisfies the instance grammar and has at most 32 characters.
pub proof fn lemma_hostname_instance_valid(lowered: Seq<char>)
    ensures
        instance_from_hostname(lowered) matches Some(s) ==> is_valid_instance_spec(s) && s.len() <= 32,
{
    let mapped = lowered.map_values(|c: char| instance_char(c));
    let st = strip_dashes_start(mapped);
    let t = strip_dashes_end(st);
    lemma_strip_start_shape(mapped);
    lemma_strip_end_shape(st);
    let off = mapped.len() - st.len();
    assert forall|k: int| 0 <= k < t.len() implies is_ascii_lower(#[trigger] t[k]) || is_ascii_digit(t[k]) || t[k] == '-' by {
        assert(t[k] == st[k]);
        assert(st[k] == mapped[k + off]);
        assert(mapped[k + off] == instance_char(lowered[k + off]));
    }
    if t.len() > 0 {
        assert(t[0] == st[0]);
    }
    let capped = if t.len() <= 32 { t } else { t.take(32) };
    assert forall|k: int| 0 <= k < capped.len() implies capped[k] == t[k] by {}
}

/// The host name of this machine (`hostname::get`), when it can be read.
#[verifier::external_body]
fn system_hostname() -> (r: Option<String>) {
    hostname::get().ok().map(|h| h.to_string_lossy().into_owned())
}

/// The Unicode lower-case mapping of a string, as `str::to_lowercase` computes it.
pub uninterp spec fn str_lowercase(s: Seq<char>) -> Seq<char>;

/// `str::to_lowercase`.
#[verifier::external_body]
fn to_lowercase(s: &str) -> (r: String)
    ensures
        r@ == str_lowercase(s@),
{
    s.to_lowercase()
}

/// The instance name this machine's hostname `h` gives: `h` lower-cased
/// (`str::to_lowercase`), then normalized as [`normalize_hostname`] does.
pub fn hostname_instance(h: &str) -> (r: Option<String>)
    ensures
        match r {
            Some(s) => instance_from_hostname(str_lowercase(h@)) == Some(s@),
            None => instance_from_hostname(str_lowercase(h@)) is None,
        },
        r matches Some(s) ==> is_valid_instance_spec(s@) && s@.len() <= 32,
{
    let lower = to_lowercase(h);
    proof {
        lemma_hostname_instance_valid(lower@);
    }
    normalize_hostname(lower.as_str())
}

/// The node's instance name: the override, trimmed, when it is not blank and
/// satisfies the grammar; otherwise the name this machine's hostname gives
/// (see [`hostname_instance`]), or none when the hostname cannot be read.
pub fn derive_instance(override_id: Option<&str>) -> (r: Option<String>)
    ensures
        match override_id {
            Some(o) if trim(o@).len() > 0 && is_valid_instance_spec(trim(o@)) => r matches Some(s) && s@ == trim(o@),
            _ => r matches Some(s) ==> (exists|h: Seq<char>| instance_from_hostname(str_lowercase(h)) == Some(s@))
                && is_valid_instance_spec(s@) && s@.len() <= 32,
        },
{
    if let Some(o) = override_id {
        let oc = chars_of(o);
        let t = trim_chars(oc.as_slice());
        if t.len() > 0 {
            let ts = string_of(t.as_slice());
            if is_valid_instance(ts.as_str()) {
                return Some(ts);
            }
        }
    }
    let hn = match system_hostname() {
        Some(h) => h,
        None => return None,
    };
    hostname_instance(hn.as_str())
}

/// The instance name a node uses once its session is open: the derived name,
/// or `stele-` and the first eight characters of its zenoh id.
pub open spec fn instance_or_zid(derived: Option<Seq<char>>, zid: Seq<char>) -> Seq<char> {
    match derived {
        Some(d) => d,
        None => "stele-"@ + (if zid.len() <= 8 { zid } else { zid.take(8) }),
    }
}

pub fn instance_with_fallback(derived: Option<String>, zid: &str) -> (r: String)
    ensures
        r@ == instance_or_zid(
            match derived {
                Some(d) => Some(d@),
                None => None::<Seq<char>>,
            },
            zid@,
        ),
{
    match derived {
        Some(d) => d,
        None => {
            let z = chars_of(zid);
            let hi = if z.len() <= 8 { z.len() } else { 8 };
            let short = copy_range(z.as_slice(), 0, hi);
            let mut out = chars_of("stele-");
            push_all(&mut out, short.as_slice());
            assert(out@ =~= "stele-"@ + (if zid@.len() <= 8 { zid@ } else { zid@.take(8) }));
            string_of(out.as_slice())
        },
    }
}

// ── Key expressions ──

/// `stylos/<realm>/stele/<instance>/<leaf>`.
pub open spec fn node_key(realm: Seq<char>, instance: Seq<char>, leaf: Seq<char>) -> Seq<char> {
    "stylos/"@ + realm + "/stele/"@ + instance + "/"@ + leaf
}

pub fn node_key_expr(realm: &str, instance: &str, leaf: &str) -> (r: String)
    ensures
        r@ == node_key(realm@, instance@, leaf@),
{
    let mut out = chars_of("stylos/");
    push_str(&mut out, realm);
    push_str(&mut out, "/stele/");
    push_str(&mut out, instance);
    push_str(&mut out, "/");
    push_str(&mut out, leaf);
    assert(out@ =~= node_key(realm@, instance@, leaf@));
    string_of(out.as_slice())
}

/// The segments of `s` between `/` separators.
pub open spec fn segments(s: Seq<char>) -> Seq<Seq<char>> {
    crate::text::split_on(s, '/')
}

/// The instance segment of a heartbeat key `stylos/<realm>/stele/<instance>/heartbeat`
/// (the fourth segment, when the key has at least five).
pub fn heartbeat_instance(key: &str) -> (r: Option<String>)
    ensures
        match r {
            Some(i) => segments(key@).len() >= 5 && i@ == segments(key@)[3],
            None => segments(key@).len() < 5,
        },
{
    let parts = split_segments(key);
    if parts.len() >= 5 {
        Some(string_of(parts[3].as_slice()))
    } else {
        None
    }
}

/// The last segment of a key (what follows its last `/`).
pub fn last_segment(key: &str) -> (r: String)
    ensures
        r@ == segments(key@).last(),
{
    let parts = split_segments(key);
    proof {
        lemma_segments_nonempty(key@);
    }
    string_of(parts[parts.len() - 1].as_slice())
}

proof fn lemma_segments_nonempty(s: Seq<char>)
    ensures
        segments(s).len() >= 1,
    decreases s.len(),
{
    if s.len() > 0 {
        lemma_segments_nonempty(s.drop_last());
    }
}

fn split_segments(s: &str) -> (r: Vec<Vec<char>>)
    ensures
        r@.len() == segments(s@).len(),
        forall|k: int| 0 <= k < r@.len() ==> (#[trigger] r@[k])@ == segments(s@)[k],
{
    let cs = chars_of(s);
    let mut out: Vec<Vec<char>> = Vec::new();
    let mut cur: Vec<char> = Vec::new();
    let mut i: usize = 0;
    while i < cs.len()
        invariant
            i <= cs@.len(),
            cs@ == s@,
            segments(cs@.take(i as int)).len() == out@.len() + 1,
            cur@ == segments(cs@.take(i as int)).last(),
            forall|k: int| 0 <= k < out@.len() ==> (#[trigger] out@[k])@ == segments(cs@.take(i as int))[k],
        decreases cs.len() - i,
    {
        let c = cs[i];
        proof {
            lemma_segments_nonempty(cs@.take(i as int));
            assert(cs@.take(i + 1).drop_last() =~= cs@.take(i as int));
            assert(cs@.take(i + 1).last() == c);
        }
        if c == '/' {
            let done = cur;
            out.push(done);
            cur = Vec::new();
            assert(cur@ =~= Seq::<char>::empty());
        } else {
            cur.push(c);
        }
        i = i + 1;
    }
    let last = cur;
    out.push(last);
    assert(cs@.take(cs@.len() as int) =~= s@);
    out
}

// ── Listen endpoints ──

/// The zenoh listen endpoints for a port: QUIC and TCP when QUIC is enabled, TCP alone otherwise.
pub open spec fn listen_endpoints_spec(port: u16, quic: bool) -> Seq<Seq<char>> {
    if quic {
        seq!["quic/0.0.0.0:"@ + decimal(port as nat), "tcp/0.0.0.0:"@ + decimal(port as nat)]
    } else {
        seq!["tcp/0.0.0.0:"@ + decimal(port as nat)]
    }
}

fn endpoint(scheme: &str, port: u16) -> (r: String)
    ensures
        r@ == scheme@ + decimal(port as nat),
{
    let mut out = chars_of(scheme);
    let d = decimal_chars(port as u64);
    push_all(&mut out, d.as_slice());
    string_of(out.as_slice())
}

pub fn listen_endpoints(port: u16, quic_enabled: bool) -> (r: Vec<String>)
    ensures
        r@.len() == listen_endpoints_spec(port, quic_enabled).len(),
        forall|k: int| 0 <= k < r@.len() ==> (#[trigger] r@[k])@ == listen_endpoints_spec(port, quic_enabled)[k],
{
    let mut v: Vec<String> = Vec::new();
    if quic_enabled {
        v.push(endpoint("quic/0.0.0.0:", port));
    }
    v.push(endpoint("tcp/0.0.0.0:", port));
    v
}

// ── Delivery retry schedule ──

pub open spec fn pow2(e: nat) -> nat
    decreases e,
{
    if e == 0 { 1 } else { 2 * pow2((e - 1) as nat) }
}

/// Seconds to wait before retry number `attempts`: `min(300, 5 * 2^(attempts - 1))`
/// in exact arithmetic, and 5 for the first attempt (or fewer).
pub open spec fn backoff_secs(attempts: i64) -> nat {
    if attempts <= 1 {
        5
    } else if 5 * pow2((attempts - 1) as nat) < 300 {
        5 * pow2((attempts - 1) as nat)
    } else {
        300
    }
}

proof fn lemma_pow2_pos(e: nat)
    ensures
        pow2(e) >= 1,
    decreases e,
{
    if e > 0 {
        lemma_pow2_pos((e - 1) as nat);
    }
}

/// `backoff(attempts)` of the delivery worker, in seconds.
pub fn backoff(attempts: i64) -> (r: u64)
    ensures
        r == backoff_secs(attempts),
        5 <= r <= 300,
{
    if attempts <= 1 {
        return 5;
    }
    if attempts >= 7 {
        proof {
            lemma_pow2_mono(6, (attempts - 1) as nat);
            reveal_with_fuel(pow2, 7);
            assert(pow2(6) == 64);
        }
        return 300;
    }
    let e: u64 = (attempts - 1) as u64;
    let mut f: u64 = 1;
    let mut k: u64 = 0;
    while k < e
        invariant
            k <= e < 6,
            e == attempts - 1,
            f == pow2(k as nat),
            f <= 32,
        decreases e - k,
    {
        proof {
            assert(pow2((k + 1) as nat) == 2 * pow2(k as nat));
            lemma_pow2_mono((k + 1) as nat, 5);
            reveal_with_fuel(pow2, 6);
            assert(pow2(5) == 32);
        }
        f = f * 2;
        k = k + 1;
    }
    proof {
        lemma_pow2_pos(e as nat);
    }
    if 5 * f < 300 { 5 * f } else { 300 }
}

/// The delay before a retry never shrinks as attempts grow, and stays
/// between 5 and 300 seconds.
pub proof fn lemma_backoff_monotone(a: i64, b: i64)
    requires
        a <= b,
    ensures
        5 <= backoff_secs(a) <= backoff_secs(b) <= 300,
{
    if a > 1 {
        lemma_pow2_mono((a - 1) as nat, (b - 1) as nat);
        lemma_pow2_pos((a - 1) as nat);
    }
    if b > 1 {
        lemma_pow2_pos((b - 1) as nat);
    }
}

proof fn lemma_pow2_mono(i: nat, j: nat)
    requires
        i <= j,
    ensures
        pow2(i) <= pow2(j),
    decreases j,
{
    if i < j {
        lemma_pow2_mono(i, (j - 1) as nat);
        lemma_pow2_pos((j - 1) as nat);
    }
}

/// The most delivery attempts before a queued message is given up.
pub const MAX_ATTEMPTS: i64 = 50;

/// What becomes of a queued message after a failed delivery attempt.
pub enum RetryDecision {
    /// Given up: too many attempts, or too old.
    Dead { attempts: i64 },
    /// Queued again, to be tried after `delay_secs`.
    Retry { attempts: i64, delay_secs: u64 },
}

/// After a failed attempt (the `attempts`-th so far, counting this one): dead
/// once 50 attempts are reached or the message has aged out, otherwise retried
/// after `backoff(attempts)`.
pub fn after_failed_delivery(previous_attempts: i64, aged_out: bool) -> (r: RetryDecision)
    requires
        previous_attempts < i64::MAX,
    ensures
        match r {
            RetryDecision::Dead { attempts } => attempts == previous_attempts + 1
                && (attempts >= MAX_ATTEMPTS || aged_out),
            RetryDecision::Retry { attempts, delay_secs } => attempts == previous_attempts + 1
                && attempts < MAX_ATTEMPTS && !aged_out && delay_secs == backoff_secs(attempts),
        },
{
    let attempts = previous_attempts + 1;
    if attempts >= MAX_ATTEMPTS || aged_out {
        RetryDecision::Dead { attempts }
    } else {
        RetryDecision::Retry { attempts, delay_secs: backoff(attempts) }
    }
}

/// How long a queued message keeps being tried: seven days, in nanoseconds.
pub const OUTBOX_TTL_NANOS: i64 = 604_800_000_000_000;

// ── Outbox rows, with their times as RFC 3339 text ──

/// The instant an RFC 3339 text denotes, as whole seconds since the Unix
/// epoch and nanoseconds within the second, or none when the text is not
/// RFC 3339.
pub uninterp spec fn rfc3339_instant(s: Seq<char>) -> Option<(i64, u32)>;

/// `chrono::DateTime::parse_from_rfc3339`, read as `timestamp()` and
/// `timestamp_subsec_nanos()`; none when parsing fails.
#[verifier::external_body]
fn parse_rfc3339(s: &str) -> (r: Option<(i64, u32)>)
    ensures
        r == rfc3339_instant(s@),
{
    chrono::DateTime::parse_from_rfc3339(s).ok().map(|d| (d.timestamp(), d.timestamp_subsec_nanos()))
}

/// The RFC 3339 text (UTC, `+00:00`) of an instant given as seconds since the
/// Unix epoch and nanoseconds, or none when chrono cannot represent it.
pub uninterp spec fn rfc3339_text(secs: i64, nanos: u32) -> Option<Seq<char>>;

/// `chrono::DateTime::<Utc>::from_timestamp(secs, nanos)` written with
/// `to_rfc3339`. Its source gives a value for every instant within years
/// -262 143 to 262 142; stated here is the part of that range within
/// 8 000 000 000 000 seconds of the epoch, with fewer than 10^9 nanoseconds.
#[verifier::external_body]
fn format_rfc3339(secs: i64, nanos: u32) -> (r: Option<String>)
    ensures
        match r {
            Some(t) => rfc3339_text(secs, nanos) == Some(t@),
            None => rfc3339_text(secs, nanos) is None,
        },
        -8_000_000_000_000 <= secs <= 8_000_000_000_000 && nanos < 1_000_000_000 ==> r is Some,
{
    chrono::DateTime::from_timestamp(secs, nanos).map(|d| d.to_rfc3339())
}

/// An instant as nanoseconds since the Unix epoch.
pub open spec fn instant_nanos(t: (i64, u32)) -> int {
    t.0 * 1_000_000_000 + t.1
}

/// A message whose creation time reads as an instant more than seven days
/// before `now` has aged out; one whose creation time does not read never
/// ages out.
pub open spec fn row_aged_out(created_at: Seq<char>, now: (i64, u32)) -> bool {
    match rfc3339_instant(created_at) {
        Some(c) => instant_nanos(now) - instant_nanos(c) > OUTBOX_TTL_NANOS,
        None => false,
    }
}

/// What the delivery worker reads of a due outbox row.
pub struct OutboxRow {
    pub mail_uid: String,
    pub attempts: i64,
    pub next_attempt_at: String,
    pub created_at: String,
}

/// How the delivery worker marks an outbox row (a `DELIVERED` row is also
/// stamped with the time of marking).
pub struct OutboxMark {
    pub mail_uid: String,
    pub status: String,
    pub attempts: i64,
    pub next_attempt_at: String,
    pub last_error: Option<String>,
    pub remote_message_id: Option<i64>,
}

/// One sweep of the delivery worker over a due row, at `now` (seconds since
/// the epoch and nanoseconds). `delivery` is `None` when no fresh instance
/// claims the row's host (the row is left alone: no mark), else the outcome
/// of the attempt. A success marks it `DELIVERED`; a failure counts an
/// attempt and marks it `DEAD` (too many attempts, or aged out) or `QUEUED`
/// again, `backoff(attempts)` seconds after `now`.
pub fn sweep_row(
    row: &OutboxRow,
    now_secs: i64,
    now_nanos: u32,
    delivery: Option<Result<Option<i64>, String>>,
) -> (r: Option<OutboxMark>)
    requires
        row.attempts < i64::MAX,
        -8_000_000_000_000 <= now_secs <= 8_000_000_000_000 - 300,
        now_nanos < 1_000_000_000,
    ensures
        match delivery {
            None => r is None,
            Some(Ok(mid)) => r matches Some(m) && m.mail_uid@ == row.mail_uid@ && m.status@ == "DELIVERED"@
                && m.attempts == row.attempts && m.next_attempt_at@ == row.next_attempt_at@
                && m.last_error is None && m.remote_message_id == mid,
            Some(Err(e)) => r matches Some(m) && m.mail_uid@ == row.mail_uid@ && m.attempts == row.attempts + 1
                && (m.last_error matches Some(le) && le@ == e@) && m.remote_message_id is None
                && if row.attempts + 1 >= MAX_ATTEMPTS || row_aged_out(row.created_at@, (now_secs, now_nanos)) {
                    m.status@ == "DEAD"@ && m.next_attempt_at@ == row.next_attempt_at@
                } else {
                    m.status@ == "QUEUED"@ && rfc3339_text(
                        (now_secs + backoff_secs((row.attempts + 1) as i64)) as i64,
                        now_nanos,
                    ) == Some(m.next_attempt_at@)
                },
        },
{
    match delivery {
        None => None,
        Some(Ok(mid)) => Some(OutboxMark {
            mail_uid: row.mail_uid.clone(),
            status: String::from_str("DELIVERED"),
            attempts: row.attempts,
            next_attempt_at: row.next_attempt_at.clone(),
            last_error: None,
            remote_message_id: mid,
        }),
        Some(Err(reason)) => {
            let old = match parse_rfc3339(row.created_at.as_str()) {
                None => false,
                Some((cs, cn)) => {
                    let now_t: i128 = (now_secs as i128) * 1_000_000_000 + (now_nanos as i128);
                    let c_t: i128 = (cs as i128) * 1_000_000_000 + (cn as i128);
                    now_t - c_t > (OUTBOX_TTL_NANOS as i128)
                },
            };
            match after_failed_delivery(row.attempts, old) {
                RetryDecision::Dead { attempts } => Some(OutboxMark {
                    mail_uid: row.mail_uid.clone(),
                    status: String::from_str("DEAD"),
                    attempts,
                    next_attempt_at: row.next_attempt_at.clone(),
                    last_error: Some(reason),
                    remote_message_id: None,
                }),
                RetryDecision::Retry { attempts, delay_secs } => {
                    let next = format_rfc3339(now_secs + (delay_secs as i64), now_nanos);
                    Some(OutboxMark {
                        mail_uid: row.mail_uid.clone(),
                        status: String::from_str("QUEUED"),
                        attempts,
                        next_attempt_at: next.unwrap(),
                        last_error: Some(reason),
                        remote_message_id: None,
                    })
                },
            }
        },
    }
}

} // verus!
