//! Mailbox addresses: `host:project_dir`, `host:project_dir:<session uuid>`
//! and `host:project_dir:USER`.
use vstd::prelude::*;

use crate::text::{chars_of, chars_eq, copy_range, push_all, string_of};

verus! {

/// `^[0-9a-f]{8}-[0-9a-f]{4}-[0-9a-f]{4}-[0-9a-f]{4}-[0-9a-f]{12}$`: a
/// lower-case hyphenated UUID.
pub open spec fn is_session_uuid(s: Seq<char>) -> bool {
    &&& s.len() == 36
    &&& forall|i: int| 0 <= i < 36 ==> if i == 8 || i == 13 || i == 18 || i == 23 {
        #[trigger] s[i] == '-'
    } else {
        ('0' <= s[i] && s[i] <= '9') || ('a' <= s[i] && s[i] <= 'f')
    }
}

/// Whether `s` is a lower-case hyphenated UUID: 36 characters, hyphens at
/// positions 8, 13, 18 and 23, lower-case hexadecimal digits elsewhere.
fn is_uuid(s: &str) -> (r: bool)
    ensures
        r == is_session_uuid(s@),
{
    let cs = chars_of(s);
    if cs.len() != 36 {
        return false;
    }
    let mut i: usize = 0;
    while i < 36
        invariant
            i <= 36,
            cs@ == s@,
            cs@.len() == 36,
            forall|j: int| 0 <= j < i ==> if j == 8 || j == 13 || j == 18 || j == 23 {
                #[trigger] cs@[j] == '-'
            } else {
                ('0' <= cs@[j] && cs@[j] <= '9') || ('a' <= cs@[j] && cs@[j] <= 'f')
            },
        decreases 36 - i,
    {
        let c = cs[i];
        let ok = if i == 8 || i == 13 || i == 18 || i == 23 {
            c == '-'
        } else {
            ('0' <= c && c <= '9') || ('a' <= c && c <= 'f')
        };
        if !ok {
            return false;
        }
        i = i + 1;
    }
    true
}

/// Who an address designates within a project.
pub enum Principal {
    Project,
    Session(String),
    User,
}

/// A parsed mailbox address.
pub struct ParsedId {
    pub host: String,
    pub project_dir: String,
    pub principal: Principal,
}

/// The mathematical value of a [`Principal`].
pub enum PrincipalV {
    Project,
    Session(Seq<char>),
    User,
}

pub open spec fn principal_view(p: Principal) -> PrincipalV {
    match p {
        Principal::Project => PrincipalV::Project,
        Principal::Session(s) => PrincipalV::Session(s@),
        Principal::User => PrincipalV::User,
    }
}

pub open spec fn parsed_view(p: ParsedId) -> (Seq<char>, Seq<char>, PrincipalV) {
    (p.host@, p.project_dir@, principal_view(p.principal))
}

/// The position of the first `c` in `s`.
pub open spec fn first_index(s: Seq<char>, c: char) -> Option<nat>
    decreases s.len(),
{
    if s.len() == 0 {
        None
    } else if s[0] == c {
        Some(0)
    } else {
        match first_index(s.drop_first(), c) {
            Some(p) => Some(p + 1),
            None => None,
        }
    }
}

/// The position of the last `c` in `s`.
pub open spec fn last_index(s: Seq<char>, c: char) -> Option<nat>
    decreases s.len(),
{
    if s.len() == 0 {
        None
    } else if s.last() == c {
        Some((s.len() - 1) as nat)
    } else {
        last_index(s.drop_last(), c)
    }
}

proof fn lemma_first_index(s: Seq<char>, c: char)
    ensures
        match first_index(s, c) {
            Some(p) => p < s.len() && s[p as int] == c && forall|j: int| 0 <= j < p ==> s[j] != c,
            None => forall|j: int| 0 <= j < s.len() ==> s[j] != c,
        },
    decreases s.len(),
{
    if s.len() > 0 {
        lemma_first_index(s.drop_first(), c);
        if s[0] != c {
            assert forall|j: int| 1 <= j < s.len() implies s[j] == s.drop_first()[j - 1] by {}
        }
    }
}

proof fn lemma_first_index_at(s: Seq<char>, c: char, p: int)
    requires
        0 <= p < s.len(),
        s[p] == c,
        forall|j: int| 0 <= j < p ==> s[j] != c,
    ensures
        first_index(s, c) == Some(p as nat),
    decreases p,
{
    if p > 0 {
        assert forall|j: int| 0 <= j < p - 1 implies s.drop_first()[j] != c by {
            assert(s.drop_first()[j] == s[j + 1]);
        }
        lemma_first_index_at(s.drop_first(), c, p - 1);
    }
}

proof fn lemma_first_index_none(s: Seq<char>, c: char)
    requires
        forall|j: int| 0 <= j < s.len() ==> s[j] != c,
    ensures
        first_index(s, c) is None,
    decreases s.len(),
{
    if s.len() > 0 {
        assert forall|j: int| 0 <= j < s.len() - 1 implies s.drop_first()[j] != c by {
            assert(s.drop_first()[j] == s[j + 1]);
        }
        lemma_first_index_none(s.drop_first(), c);
    }
}

proof fn lemma_last_index(s: Seq<char>, c: char)
    ensures
        match last_index(s, c) {
            Some(p) => p < s.len() && s[p as int] == c && forall|j: int| p < j < s.len() ==> s[j] != c,
            None => forall|j: int| 0 <= j < s.len() ==> s[j] != c,
        },
    decreases s.len(),
{
    if s.len() > 0 {
        lemma_last_index(s.drop_last(), c);
        assert forall|j: int| 0 <= j < s.len() - 1 implies s.drop_last()[j] == s[j] by {}
    }
}

proof fn lemma_last_index_at(s: Seq<char>, c: char, p: int)
    requires
        0 <= p < s.len(),
        s[p] == c,
        forall|j: int| p < j < s.len() ==> s[j] != c,
    ensures
        last_index(s, c) == Some(p as nat),
    decreases s.len(),
{
    if p < s.len() - 1 {
        lemma_last_index_at(s.drop_last(), c, p);
    }
}

proof fn lemma_last_index_none(s: Seq<char>, c: char)
    requires
        forall|j: int| 0 <= j < s.len() ==> s[j] != c,
    ensures
        last_index(s, c) is None,
    decreases s.len(),
{
    if s.len() > 0 {
        lemma_last_index_none(s.drop_last(), c);
    }
}

fn find_first(s: &[char], c: char) -> (r: Option<usize>)
    ensures
        match r {
            Some(p) => p < s@.len() && first_index(s@, c) == Some(p as nat),
            None => first_index(s@, c) is None,
        },
{
    let mut i: usize = 0;
    while i < s.len()
        invariant
            i <= s@.len(),
            forall|j: int| 0 <= j < i ==> s@[j] != c,
        decreases s.len() - i,
    {
        if s[i] == c {
            proof {
                lemma_first_index_at(s@, c, i as int);
            }
            return Some(i);
        }
        i = i + 1;
    }
    proof {
        lemma_first_index_none(s@, c);
    }
    None
}

fn find_last(s: &[char], c: char) -> (r: Option<usize>)
    ensures
        match r {
            Some(p) => p < s@.len() && last_index(s@, c) == Some(p as nat),
            None => last_index(s@, c) is None,
        },
{
    let mut i: usize = s.len();
    while i > 0
        invariant
            i <= s@.len(),
            forall|j: int| i <= j < s@.len() ==> s@[j] != c,
        decreases i,
    {
        if s[i - 1] == c {
            proof {
                lemma_last_index_at(s@, c, i - 1);
            }
            return Some(i - 1);
        }
        i = i - 1;
    }
    proof {
        lemma_last_index_none(s@, c);
    }
    None
}

/// What an address denotes: its host, project directory and principal, or
/// why it is not an address.
pub open spec fn parse_id_spec(id: Seq<char>) -> Result<(Seq<char>, Seq<char>, PrincipalV), Seq<char>> {
    match first_index(id, ':') {
        None => Err("id missing ':' separator"@),
        Some(c) => {
            let host = id.take(c as int);
            let rest = id.skip(c as int + 1);
            if host.len() == 0 {
                Err("id host segment is empty"@)
            } else if rest.len() == 0 {
                Err("id project_dir segment is empty"@)
            } else {
                match last_index(rest, ':') {
                    None => Ok((host, rest, PrincipalV::Project)),
                    Some(k) => {
                        let pd = rest.take(k as int);
                        let tail = rest.skip(k as int + 1);
                        if pd.len() == 0 {
                            Err("id project_dir segment is empty"@)
                        } else if tail.len() == 0 {
                            Err("id 3rd segment is empty"@)
                        } else if is_session_uuid(tail) {
                            Ok((host, pd, PrincipalV::Session(tail)))
                        } else if tail == "USER"@ {
                            Ok((host, pd, PrincipalV::User))
                        } else {
                            Err("id 3rd segment must be a session UUID or the literal 'USER'"@)
                        }
                    },
                }
            }
        },
    }
}

fn err_string(s: &str) -> (r: Result<ParsedId, String>)
    ensures
        r matches Err(e) && e@ == s@,
{
    Err(String::from_str(s))
}

/// Parses a mailbox address: `host:project_dir` designates the project;
/// a third segment after the last `:` designates a session (a lower-case
/// UUID) or the user (`USER`).
pub fn parse_id(id: &str) -> (r: Result<ParsedId, String>)
    ensures
        match r {
            Ok(p) => parse_id_spec(id@) == Ok::<(Seq<char>, Seq<char>, PrincipalV), Seq<char>>(parsed_view(p)),
            Err(e) => parse_id_spec(id@) == Err::<(Seq<char>, Seq<char>, PrincipalV), Seq<char>>(e@),
        },
{
    let s = chars_of(id);
    let c = match find_first(s.as_slice(), ':') {
        None => {
            return err_string("id missing ':' separator");
        },
        Some(c) => c,
    };
    let n = s.len();
    assert(c < n);
    let host = copy_range(s.as_slice(), 0, c);
    let rest = copy_range(s.as_slice(), c + 1, n);
    assert(host@ =~= s@.take(c as int));
    assert(rest@ =~= s@.skip(c as int + 1));
    if host.len() == 0 {
        return err_string("id host segment is empty");
    }
    if rest.len() == 0 {
        return err_string("id project_dir segment is empty");
    }
    match find_last(rest.as_slice(), ':') {
        None => Ok(ParsedId {
            host: string_of(host.as_slice()),
            project_dir: string_of(rest.as_slice()),
            principal: Principal::Project,
        }),
        Some(k) => {
            let rn = rest.len();
            assert(k < rn);
            let pd = copy_range(rest.as_slice(), 0, k);
            let tail = copy_range(rest.as_slice(), k + 1, rn);
            assert(pd@ =~= rest@.take(k as int));
            assert(tail@ =~= rest@.skip(k as int + 1));
            if pd.len() == 0 {
                return err_string("id project_dir segment is empty");
            }
            if tail.len() == 0 {
                return err_string("id 3rd segment is empty");
            }
            let tail_s = string_of(tail.as_slice());
            if is_uuid(tail_s.as_str()) {
                return Ok(ParsedId {
                    host: string_of(host.as_slice()),
                    project_dir: string_of(pd.as_slice()),
                    principal: Principal::Session(tail_s),
                });
            }
            let user = chars_of("USER");
            if chars_eq(tail.as_slice(), user.as_slice()) {
                return Ok(ParsedId {
                    host: string_of(host.as_slice()),
                    project_dir: string_of(pd.as_slice()),
                    principal: Principal::User,
                });
            }
            err_string("id 3rd segment must be a session UUID or the literal 'USER'")
        },
    }
}

/// The address text of a parsed address.
pub open spec fn compose_spec(host: Seq<char>, pd: Seq<char>, p: PrincipalV) -> Seq<char> {
    match p {
        PrincipalV::Project => host + ":"@ + pd,
        PrincipalV::Session(sid) => host + ":"@ + pd + ":"@ + sid,
        PrincipalV::User => host + ":"@ + pd + ":"@ + "USER"@,
    }
}

/// Writes an address back as text: `host:project_dir[:session|:USER]`.
pub fn compose_id(p: &ParsedId) -> (r: String)
    ensures
        r@ == compose_spec(p.host@, p.project_dir@, principal_view(p.principal)),
{
    let mut out = chars_of(p.host.as_str());
    out.push(':');
    let pd = chars_of(p.project_dir.as_str());
    push_all(&mut out, pd.as_slice());
    match &p.principal {
        Principal::Project => {},
        Principal::Session(sid) => {
            out.push(':');
            let sc = chars_of(sid.as_str());
            push_all(&mut out, sc.as_slice());
        },
        Principal::User => {
            out.push(':');
            let u = chars_of("USER");
            push_all(&mut out, u.as_slice());
        },
    }
    proof {
        reveal_strlit(":");
    }
    assert(out@ =~= compose_spec(p.host@, p.project_dir@, principal_view(p.principal)));
    string_of(out.as_slice())
}

/// An address that parsing accepts: a host without `:`, a project directory
/// (without `:` when the project itself is designated), and a session UUID.
pub open spec fn well_formed_address(host: Seq<char>, pd: Seq<char>, p: PrincipalV) -> bool {
    &&& host.len() > 0
    &&& forall|i: int| 0 <= i < host.len() ==> host[i] != ':'
    &&& pd.len() > 0
    &&& (p is Project ==> forall|i: int| 0 <= i < pd.len() ==> pd[i] != ':')
    &&& (p matches PrincipalV::Session(sid) ==> is_session_uuid(sid))
}

/// Writing an address and parsing it back gives the same address.
pub proof fn lemma_parse_compose(host: Seq<char>, pd: Seq<char>, p: PrincipalV)
    requires
        well_formed_address(host, pd, p),
    ensures
        parse_id_spec(compose_spec(host, pd, p)) == Ok::<(Seq<char>, Seq<char>, PrincipalV), Seq<char>>((host, pd, p)),
{
    reveal_strlit(":");
    reveal_strlit("USER");
    let id = compose_spec(host, pd, p);
    assert(id[host.len() as int] == ':');
    assert forall|j: int| 0 <= j < host.len() implies id[j] != ':' by {
        assert(id[j] == host[j]);
    }
    lemma_first_index_at(id, ':', host.len() as int);
    assert(id.take(host.len() as int) =~= host);
    let rest = id.skip(host.len() as int + 1);
    match p {
        PrincipalV::Project => {
            assert(rest =~= pd);
            lemma_last_index_none(rest, ':');
        },
        PrincipalV::Session(sid) => {
            assert(rest =~= pd + ":"@ + sid);
            assert(rest[pd.len() as int] == ':');
            assert forall|j: int| pd.len() < j < rest.len() implies rest[j] != ':' by {
                assert(rest[j] == sid[j - pd.len() - 1]);
                assert(sid[j - pd.len() - 1] == '-' || ('0' <= sid[j - pd.len() - 1] <= '9') || ('a' <= sid[j - pd.len() - 1] <= 'f'));
            }
            lemma_last_index_at(rest, ':', pd.len() as int);
            assert(rest.take(pd.len() as int) =~= pd);
            assert(rest.skip(pd.len() as int + 1) =~= sid);
        },
        PrincipalV::User => {
            assert(rest =~= pd + ":"@ + "USER"@);
            assert(rest[pd.len() as int] == ':');
            assert forall|j: int| pd.len() < j < rest.len() implies rest[j] != ':' by {
                assert(rest[j] == "USER"@[j - pd.len() - 1]);
            }
            lemma_last_index_at(rest, ':', pd.len() as int);
            assert(rest.take(pd.len() as int) =~= pd);
            assert(rest.skip(pd.len() as int + 1) =~= "USER"@);
            assert(!is_session_uuid("USER"@));
        },
    }
}

/// Parsing an address and writing it back gives the original text.
pub proof fn lemma_compose_parse(id: Seq<char>)
    requires
        parse_id_spec(id) is Ok,
    ensures
        ({
            let (h, pd, p) = parse_id_spec(id)->Ok_0;
            compose_spec(h, pd, p) == id
        }),
{
    reveal_strlit(":");
    lemma_first_index(id, ':');
    let c = first_index(id, ':')->0;
    let host = id.take(c as int);
    let rest = id.skip(c as int + 1);
    lemma_last_index(rest, ':');
    match last_index(rest, ':') {
        None => {
            assert(host + ":"@ + rest =~= id);
        },
        Some(k) => {
            let pd = rest.take(k as int);
            let tail = rest.skip(k as int + 1);
            assert(pd + ":"@ + tail =~= rest);
            assert(host + ":"@ + pd + ":"@ + tail =~= id);
        },
    }
}

} // verus!
