use vstd::prelude::*;

verus! {

// ── Conversions between std strings and character vectors ──

/// `str::chars` collected into a vector: the characters of `s`, in order.
#[verifier::external_body]
pub(crate) fn chars_of(s: &str) -> (r: Vec<char>)
    ensures
        r@ == s@,
{
    s.chars().collect()
}

/// A `String` made of the given characters, in order (`FromIterator<char>`).
#[verifier::external_body]
pub(crate) fn string_of(v: &[char]) -> (r: String)
    ensures
        r@ == v@,
{
    v.iter().collect()
}

/// `str` equality (`PartialEq for str`): equal exactly when the characters are.
#[verifier::external_body]
pub(crate) fn str_eq(a: &str, b: &str) -> (r: bool)
    ensures
        r == (a@ == b@),
{
    a == b
}

/// The characters `v[lo..hi]`, copied.
pub fn copy_range(v: &[char], lo: usize, hi: usize) -> (r: Vec<char>)
    requires
        lo <= hi <= v@.len(),
    ensures
        r@ == v@.subrange(lo as int, hi as int),
{
    let mut r: Vec<char> = Vec::new();
    let mut i: usize = lo;
    while i < hi
        invariant
            lo <= i <= hi,
            hi <= v@.len(),
            r@ == v@.subrange(lo as int, i as int),
        decreases hi - i,
    {
        r.push(v[i]);
        i = i + 1;
        assert(r@ =~= v@.subrange(lo as int, i as int));
    }
    r
}

/// Appends all characters of `src` to `dst`.
pub fn push_all(dst: &mut Vec<char>, src: &[char])
    ensures
        final(dst)@ == old(dst)@ + src@,
{
    let mut i: usize = 0;
    while i < src.len()
        invariant
            i <= src@.len(),
            dst@ == old(dst)@ + src@.subrange(0, i as int),
        decreases src.len() - i,
    {
        dst.push(src[i]);
        i = i + 1;
        assert(dst@ =~= old(dst)@ + src@.subrange(0, i as int));
    }
    assert(src@.subrange(0, src@.len() as int) =~= src@);
}

/// Appends all characters of the string `src` to `dst`.
pub fn push_str(dst: &mut Vec<char>, src: &str)
    ensures
        final(dst)@ == old(dst)@ + src@,
{
    let cs = chars_of(src);
    push_all(dst, cs.as_slice());
}

/// Character-wise equality of two vectors.
pub fn chars_eq(a: &[char], b: &[char]) -> (r: bool)
    ensures
        r == (a@ == b@),
{
    if a.len() != b.len() {
        return false;
    }
    let mut i: usize = 0;
    while i < a.len()
        invariant
            a@.len() == b@.len(),
            i <= a@.len(),
            forall|k: int| 0 <= k < i ==> a@[k] == b@[k],
        decreases a.len() - i,
    {
        if a[i] != b[i] {
            return false;
        }
        i = i + 1;
    }
    assert(a@ =~= b@);
    true
}

// ── Decimal rendering of unsigned integers ──

pub open spec fn digit_char(d: nat) -> char
    recommends
        d < 10,
{
    if d == 0 { '0' }
    else if d == 1 { '1' }
    else if d == 2 { '2' }
    else if d == 3 { '3' }
    else if d == 4 { '4' }
    else if d == 5 { '5' }
    else if d == 6 { '6' }
    else if d == 7 { '7' }
    else if d == 8 { '8' }
    else { '9' }
}

/// The decimal digits of `n`, most significant first, without leading zeros.
pub open spec fn decimal(n: nat) -> Seq<char>
    decreases n,
{
    if n < 10 {
        seq![digit_char(n)]
    } else {
        decimal(n / 10).push(digit_char(n % 10))
    }
}

fn digit_of(d: u64) -> (c: char)
    requires
        d < 10,
    ensures
        c == digit_char(d as nat),
{
    if d == 0 { '0' }
    else if d == 1 { '1' }
    else if d == 2 { '2' }
    else if d == 3 { '3' }
    else if d == 4 { '4' }
    else if d == 5 { '5' }
    else if d == 6 { '6' }
    else if d == 7 { '7' }
    else if d == 8 { '8' }
    else { '9' }
}

/// The decimal rendering of `n` (as `Display` for unsigned integers prints it).
pub fn decimal_chars(n: u64) -> (r: Vec<char>)
    ensures
        r@ == decimal(n as nat),
    decreases n,
{
    if n < 10 {
        let mut v: Vec<char> = Vec::new();
        v.push(digit_of(n));
        assert(v@ =~= seq![digit_char(n as nat)]);
        v
    } else {
        let mut v = decimal_chars(n / 10);
        v.push(digit_of(n % 10));
        v
    }
}

// ── ASCII classes ──

/// `char::is_ascii_graphic`: `'!'..='~'`.
pub open spec fn is_ascii_graphic(c: char) -> bool {
    '!' <= c && c <= '~'
}

pub open spec fn is_ascii_lower(c: char) -> bool {
    'a' <= c && c <= 'z'
}

pub open spec fn is_ascii_upper(c: char) -> bool {
    'A' <= c && c <= 'Z'
}

pub open spec fn is_ascii_digit(c: char) -> bool {
    '0' <= c && c <= '9'
}

/// `char::to_ascii_lowercase`.
pub open spec fn ascii_lower(c: char) -> char {
    if is_ascii_upper(c) {
        ((c as u32) + 32) as char
    } else {
        c
    }
}

pub fn ascii_lower_exec(c: char) -> (r: char)
    ensures
        r == ascii_lower(c),
{
    if 'A' <= c && c <= 'Z' {
        let u: u32 = (c as u32) + 32;
        assert('a' as u32 <= u <= 'z' as u32);
        let r = char_from_ascii(u);
        r
    } else {
        c
    }
}

/// The character with code point `u`, for `u` in the ASCII range.
fn char_from_ascii(u: u32) -> (c: char)
    requires
        u < 128,
    ensures
        c == u as char,
{
    (u as u8) as char
}

/// `str::eq_ignore_ascii_case`: same length, and equal after ASCII lower-casing.
pub open spec fn eq_ignore_ascii_case(a: Seq<char>, b: Seq<char>) -> bool {
    a.len() == b.len() && forall|i: int| 0 <= i < a.len() ==> ascii_lower(#[trigger] a[i]) == ascii_lower(b[i])
}

pub fn eq_ignore_ascii_case_exec(a: &[char], b: &[char]) -> (r: bool)
    ensures
        r == eq_ignore_ascii_case(a@, b@),
{
    if a.len() != b.len() {
        return false;
    }
    let mut i: usize = 0;
    while i < a.len()
        invariant
            a@.len() == b@.len(),
            i <= a@.len(),
            forall|k: int| 0 <= k < i ==> ascii_lower(#[trigger] a@[k]) == ascii_lower(b@[k]),
        decreases a.len() - i,
    {
        if ascii_lower_exec(a[i]) != ascii_lower_exec(b[i]) {
            return false;
        }
        i = i + 1;
    }
    true
}

// ── Unicode whitespace and trimming ──

/// The Unicode `White_Space` property, which `char::is_whitespace` and `str::trim` use.
pub open spec fn is_white_space(c: char) -> bool {
    ('\u{9}' <= c && c <= '\u{d}') || c == ' ' || c == '\u{85}' || c == '\u{a0}' || c == '\u{1680}'
        || ('\u{2000}' <= c && c <= '\u{200a}') || c == '\u{2028}' || c == '\u{2029}'
        || c == '\u{202f}' || c == '\u{205f}' || c == '\u{3000}'
}

pub fn is_white_space_exec(c: char) -> (r: bool)
    ensures
        r == is_white_space(c),
{
    ('\u{9}' <= c && c <= '\u{d}') || c == ' ' || c == '\u{85}' || c == '\u{a0}' || c == '\u{1680}'
        || ('\u{2000}' <= c && c <= '\u{200a}') || c == '\u{2028}' || c == '\u{2029}'
        || c == '\u{202f}' || c == '\u{205f}' || c == '\u{3000}'
}

pub open spec fn trim_start(s: Seq<char>) -> Seq<char>
    decreases s.len(),
{
    if s.len() > 0 && is_white_space(s[0]) {
        trim_start(s.drop_first())
    } else {
        s
    }
}

pub open spec fn trim_end(s: Seq<char>) -> Seq<char>
    decreases s.len(),
{
    if s.len() > 0 && is_white_space(s.last()) {
        trim_end(s.drop_last())
    } else {
        s
    }
}

/// `str::trim`: leading and trailing white space removed.
pub open spec fn trim(s: Seq<char>) -> Seq<char> {
    trim_end(trim_start(s))
}

proof fn lemma_trim_start_skip(s: Seq<char>, i: int)
    requires
        0 <= i <= s.len(),
        forall|k: int| 0 <= k < i ==> is_white_space(#[trigger] s[k]),
    ensures
        trim_start(s) == trim_start(s.subrange(i, s.len() as int)),
    decreases i,
{
    if i > 0 {
        lemma_trim_start_skip(s.drop_first(), i - 1);
        assert(s.drop_first().subrange(i - 1, s.drop_first().len() as int) =~= s.subrange(i, s.len() as int));
    } else {
        assert(s.subrange(0, s.len() as int) =~= s);
    }
}

proof fn lemma_trim_end_take(s: Seq<char>, j: int)
    requires
        0 <= j <= s.len(),
        forall|k: int| j <= k < s.len() ==> is_white_space(#[trigger] s[k]),
    ensures
        trim_end(s) == trim_end(s.subrange(0, j)),
    decreases s.len() - j,
{
    if j < s.len() {
        lemma_trim_end_take(s.drop_last(), j);
        assert(s.drop_last().subrange(0, j) =~= s.subrange(0, j));
    } else {
        assert(s.subrange(0, j) =~= s);
    }
}

/// The characters of `s` with leading and trailing white space removed.
pub fn trim_chars(s: &[char]) -> (r: Vec<char>)
    ensures
        r@ == trim(s@),
{
    let n = s.len();
    let mut i: usize = 0;
    while i < n && is_white_space_exec(s[i])
        invariant
            n == s@.len(),
            i <= n,
            forall|k: int| 0 <= k < i ==> is_white_space(#[trigger] s@[k]),
        decreases n - i,
    {
        i = i + 1;
    }
    proof {
        lemma_trim_start_skip(s@, i as int);
    }
    let ghost t = s@.subrange(i as int, n as int);
    assert(trim_start(s@) == t) by {
        if i < n {
            assert(t[0] == s@[i as int]);
        }
    }
    let mut j: usize = n;
    while j > i && is_white_space_exec(s[j - 1])
        invariant
            n == s@.len(),
            i <= j <= n,
            forall|k: int| j <= k < n ==> is_white_space(#[trigger] s@[k]),
        decreases j,
    {
        j = j - 1;
    }
    proof {
        let tl = t.len();
        assert forall|k: int| (j - i) <= k < tl implies is_white_space(#[trigger] t[k]) by {
            assert(t[k] == s@[k + i]);
        }
        lemma_trim_end_take(t, (j - i) as int);
        let u = t.subrange(0, (j - i) as int);
        assert(u =~= s@.subrange(i as int, j as int));
        if j > i {
            assert(u.last() == s@[j - 1]);
        }
    }
    copy_range(s, i, j)
}

// ── Comma-separated lists ──

/// The pieces of `s` between occurrences of `sep` (as `str::split` yields them).
pub open spec fn split_on(s: Seq<char>, sep: char) -> Seq<Seq<char>>
    decreases s.len(),
{
    if s.len() == 0 {
        seq![Seq::<char>::empty()]
    } else {
        let prev = split_on(s.drop_last(), sep);
        if s.last() == sep {
            prev.push(Seq::<char>::empty())
        } else {
            prev.update(prev.len() - 1, prev.last().push(s.last()))
        }
    }
}

proof fn lemma_split_on_nonempty(s: Seq<char>, sep: char)
    ensures
        split_on(s, sep).len() >= 1,
    decreases s.len(),
{
    if s.len() > 0 {
        lemma_split_on_nonempty(s.drop_last(), sep);
    }
}

/// The trimmed pieces that are not empty, in order.
pub open spec fn nonempty_trimmed(pieces: Seq<Seq<char>>) -> Seq<Seq<char>>
    decreases pieces.len(),
{
    if pieces.len() == 0 {
        Seq::empty()
    } else {
        let prev = nonempty_trimmed(pieces.drop_last());
        let t = trim(pieces.last());
        if t.len() == 0 {
            prev
        } else {
            prev.push(t)
        }
    }
}

/// `s.split(',').map(|p| p.trim()).filter(|p| !p.is_empty())`: the items of a
/// comma-separated list, trimmed, with empty items dropped.
pub open spec fn csv_items(s: Seq<char>) -> Seq<Seq<char>> {
    nonempty_trimmed(split_on(s, ','))
}

proof fn lemma_csv_step(s: Seq<char>, i: int)
    requires
        0 <= i < s.len(),
    ensures
        ({
            let p = split_on(s.take(i), ',');
            let q = split_on(s.take(i + 1), ',');
            &&& p.len() >= 1
            &&& (s[i] == ',' ==> q == p.push(Seq::<char>::empty()))
            &&& (s[i] != ',' ==> q == p.update(p.len() - 1, p.last().push(s[i])))
        }),
{
    lemma_split_on_nonempty(s.take(i), ',');
    assert(s.take(i + 1).drop_last() =~= s.take(i));
    assert(s.take(i + 1).last() == s[i]);
}

/// The items of a comma-separated list, each trimmed, empty ones dropped.
pub fn split_csv(s: &str) -> (r: Vec<String>)
    ensures
        r@.len() == csv_items(s@).len(),
        forall|k: int| 0 <= k < r@.len() ==> (#[trigger] r@[k])@ == csv_items(s@)[k],
{
    let cs = chars_of(s);
    let n = cs.len();
    let mut out: Vec<String> = Vec::new();
    let mut cur: Vec<char> = Vec::new();
    let mut i: usize = 0;
    while i < n
        invariant
            n == cs@.len(),
            cs@ == s@,
            i <= n,
            split_on(cs@.take(i as int), ',').len() >= 1,
            cur@ == split_on(cs@.take(i as int), ',').last(),
            out@.len() == nonempty_trimmed(split_on(cs@.take(i as int), ',').drop_last()).len(),
            forall|k: int| 0 <= k < out@.len() ==> (#[trigger] out@[k])@
                == nonempty_trimmed(split_on(cs@.take(i as int), ',').drop_last())[k],
        decreases n - i,
    {
        let ghost p = split_on(cs@.take(i as int), ',');
        proof {
            lemma_csv_step(cs@, i as int);
        }
        let c = cs[i];
        if c == ',' {
            let t = trim_chars(cur.as_slice());
            let ghost old_out = out@;
            if t.len() > 0 {
                out.push(string_of(t.as_slice()));
            }
            cur = Vec::new();
            proof {
                let q = split_on(cs@.take(i + 1), ',');
                assert(q.drop_last() =~= p);
                assert(p =~= p.drop_last().push(p.last()));
                assert(nonempty_trimmed(p) == nonempty_trimmed(p.drop_last().push(p.last())));
                assert(p.drop_last().push(p.last()).drop_last() =~= p.drop_last());
                assert(cur@ =~= q.last());
            }
        } else {
            cur.push(c);
            proof {
                let q = split_on(cs@.take(i + 1), ',');
                assert(q.drop_last() =~= p.drop_last());
            }
        }
        i = i + 1;
    }
    let t = trim_chars(cur.as_slice());
    if t.len() > 0 {
        out.push(string_of(t.as_slice()));
    }
    proof {
        assert(cs@.take(n as int) =~= s@);
        let p = split_on(s@, ',');
        assert(p =~= p.drop_last().push(p.last()));
        assert(p.drop_last().push(p.last()).drop_last() =~= p.drop_last());
    }
    out
}

} // verus!
