//! Character-level text helpers shared by the formatters and parsers:
//! decimal and hexadecimal rendering, substring search, splitting and
//! comparison, all stated over `Seq<char>`.
use vstd::prelude::*;
use vstd::string::StringExecFns;
use vstd::utf8::{decode_utf8, valid_utf8};

verus! {

// ---------------------------------------------------------------------------
// Conversions between `str`/`String` and character vectors
// ---------------------------------------------------------------------------

/// The characters of `s`, in order.
pub(crate) fn chars_of(s: &str) -> (v: Vec<char>)
    ensures
        v@ == s@,
{
    broadcast use vstd::string::axiom_spec_iter;
    let mut v: Vec<char> = Vec::new();
    for c in it: s.chars()
        invariant
            v@.len() == it.index(),
            forall|i: int| 0 <= i < v@.len() ==> v@[i] == it.seq()[i],
    {
        v.push(c);
    }
    assert(v@ =~= s@);
    v
}

/// A string made of the characters of `v`, in order (std's `String: FromIterator<char>`).
#[verifier::external_body]
pub(crate) fn string_from_chars(v: Vec<char>) -> (s: String)
    ensures
        s@ == v@,
{
    v.into_iter().collect()
}

/// Concatenation is associative (stated for rewriting left-nested sums).
pub broadcast proof fn lemma_add_assoc<A>(a: Seq<A>, b: Seq<A>, c: Seq<A>)
    ensures
        #[trigger] ((a + b) + c) == a + (b + c),
{
    assert(((a + b) + c) =~= a + (b + c));
}

/// Appends the characters of `s` to `out`.
pub fn push_str(out: &mut Vec<char>, s: &str)
    ensures
        final(out)@ == old(out)@ + s@,
{
    let mut cs = chars_of(s);
    out.append(&mut cs);
}

/// A fresh `String` holding the characters of `s`.
pub fn owned(s: &str) -> (r: String)
    ensures
        r@ == s@,
{
    String::from_str(s)
}

// ---------------------------------------------------------------------------
// Unicode case mapping and `Debug` quoting, as std computes them
// ---------------------------------------------------------------------------

/// What std's `str::to_lowercase` returns for a string with these characters.
pub uninterp spec fn lowercase(s: Seq<char>) -> Seq<char>;

/// The lowercase form of `s`: std's `str::to_lowercase` (full Unicode case mapping,
/// including the context-dependent final sigma). The result is named by `lowercase`.
#[verifier::external_body]
pub(crate) fn to_lower(s: &str) -> (r: String)
    ensures
        r@ == lowercase(s@),
{
    s.to_lowercase()
}

/// What std's `Debug` implementation for `str` writes for a string with these characters.
pub uninterp spec fn debug_quoted(s: Seq<char>) -> Seq<char>;

/// The `Debug` rendering of `s`: std's `<str as Debug>::fmt`, which wraps the text in
/// double quotes and escapes quotes, backslashes and non-printable characters.
#[verifier::external_body]
pub(crate) fn debug_str(s: &str) -> (r: String)
    ensures
        r@ == debug_quoted(s@),
{
    format!("{:?}", s)
}

/// A character with the Unicode `White_Space` property (what `char::is_whitespace`
/// answers).
pub open spec fn is_white_space(c: char) -> bool {
    ||| ('\u{9}' <= c && c <= '\u{d}')
    ||| c == ' '
    ||| c == '\u{85}'
    ||| c == '\u{a0}'
    ||| c == '\u{1680}'
    ||| ('\u{2000}' <= c && c <= '\u{200a}')
    ||| c == '\u{2028}'
    ||| c == '\u{2029}'
    ||| c == '\u{202f}'
    ||| c == '\u{205f}'
    ||| c == '\u{3000}'
}

/// `s` without its leading white space.
pub open spec fn trim_front(s: Seq<char>) -> Seq<char>
    decreases s.len(),
{
    if s.len() > 0 && is_white_space(s[0]) {
        trim_front(s.drop_first())
    } else {
        s
    }
}

/// `s` without its trailing white space.
pub open spec fn trim_back(s: Seq<char>) -> Seq<char>
    decreases s.len(),
{
    if s.len() > 0 && is_white_space(s.last()) {
        trim_back(s.drop_last())
    } else {
        s
    }
}

/// `s` without leading and trailing white space (what `str::trim` returns).
pub open spec fn trimmed(s: Seq<char>) -> Seq<char> {
    trim_back(trim_front(s))
}

fn white_space(c: char) -> (r: bool)
    ensures
        r == is_white_space(c),
{
    ('\u{9}' <= c && c <= '\u{d}') || c == ' ' || c == '\u{85}' || c == '\u{a0}' || c == '\u{1680}'
        || ('\u{2000}' <= c && c <= '\u{200a}') || c == '\u{2028}' || c == '\u{2029}' || c == '\u{202f}'
        || c == '\u{205f}' || c == '\u{3000}'
}

/// `s` without leading and trailing Unicode white space.
pub(crate) fn trim(s: &str) -> (r: String)
    ensures
        r@ == trimmed(s@),
{
    let cs = chars_of(s);
    let n = cs.len();
    let mut i: usize = 0;
    assert(cs@.skip(0) =~= cs@);
    while i < n && white_space(cs[i])
        invariant
            i <= n,
            n == cs@.len(),
            trim_front(cs@) == trim_front(cs@.skip(i as int)),
        decreases n - i,
    {
        assert(cs@.skip(i as int).drop_first() =~= cs@.skip(i + 1));
        i = i + 1;
    }
    let ghost t = cs@.skip(i as int);
    assert(trim_front(t) == t);
    let mut j: usize = n;
    assert(t.take((j - i) as int) =~= t);
    while j > i && white_space(cs[j - 1])
        invariant
            i <= j <= n,
            n == cs@.len(),
            t == cs@.skip(i as int),
            trim_back(t) == trim_back(t.take((j - i) as int)),
        decreases j,
    {
        assert(t.take((j - i) as int).drop_last() =~= t.take((j - 1 - i) as int));
        assert(t.take((j - i) as int).last() == cs@[j - 1]);
        j = j - 1;
    }
    let mut out: Vec<char> = Vec::new();
    let mut k: usize = i;
    while k < j
        invariant
            i <= k <= j <= n,
            n == cs@.len(),
            out@ == cs@.subrange(i as int, k as int),
        decreases j - k,
    {
        out.push(cs[k]);
        assert(out@ =~= cs@.subrange(i as int, k + 1));
        k = k + 1;
    }
    assert(out@ =~= t.take((j - i) as int));
    proof {
        if j > i {
            assert(t.take((j - i) as int).last() == cs@[j - 1]);
        }
    }
    assert(trim_back(out@) == out@);
    string_from_chars(out)
}

// ---------------------------------------------------------------------------
// Decimal and hexadecimal rendering
// ---------------------------------------------------------------------------

/// The ASCII digit for `d` (0 to 15; lowercase letters above 9).
pub open spec fn hex_digit(d: nat) -> char {
    if d == 0 { '0' } else if d == 1 { '1' } else if d == 2 { '2' } else if d == 3 { '3' }
    else if d == 4 { '4' } else if d == 5 { '5' } else if d == 6 { '6' } else if d == 7 { '7' }
    else if d == 8 { '8' } else if d == 9 { '9' } else if d == 10 { 'a' } else if d == 11 { 'b' }
    else if d == 12 { 'c' } else if d == 13 { 'd' } else if d == 14 { 'e' } else { 'f' }
}

/// The decimal digits of `n`, most significant first, without leading zeros
/// (what `Display` writes for an unsigned integer).
pub open spec fn decimal(n: nat) -> Seq<char>
    decreases n,
{
    if n < 10 {
        seq![hex_digit(n)]
    } else {
        decimal(n / 10) + seq![hex_digit(n % 10)]
    }
}

/// What `Display` writes for a signed integer.
pub open spec fn signed_decimal(v: int) -> Seq<char> {
    if v < 0 {
        seq!['-'] + decimal((-v) as nat)
    } else {
        decimal(v as nat)
    }
}

/// Two lowercase hexadecimal digits for a byte (what `{:02x}` writes).
pub open spec fn hex2(b: u8) -> Seq<char> {
    seq![hex_digit((b / 16) as nat), hex_digit((b % 16) as nat)]
}

/// The character for a digit below 16.
pub fn digit_char(d: u64) -> (c: char)
    requires
        d < 16,
    ensures
        c == hex_digit(d as nat),
{
    match d {
        0 => '0',
        1 => '1',
        2 => '2',
        3 => '3',
        4 => '4',
        5 => '5',
        6 => '6',
        7 => '7',
        8 => '8',
        9 => '9',
        10 => 'a',
        11 => 'b',
        12 => 'c',
        13 => 'd',
        14 => 'e',
        _ => 'f',
    }
}

/// Appends the decimal digits of `n` to `out`.
pub fn push_decimal(out: &mut Vec<char>, n: u64)
    ensures
        final(out)@ == old(out)@ + decimal(n as nat),
    decreases n,
{
    if n >= 10 {
        push_decimal(out, n / 10);
    }
    out.push(digit_char(n % 10));
    proof {
        if n >= 10 {
            assert(decimal(n as nat) == decimal((n / 10) as nat) + seq![hex_digit((n % 10) as nat)]);
        }
    }
}

/// Appends what `Display` writes for the signed integer `v`.
pub fn push_signed(out: &mut Vec<char>, v: i64)
    ensures
        final(out)@ == old(out)@ + signed_decimal(v as int),
{
    if v < 0 {
        out.push('-');
        let magnitude: u64 = (0i128 - (v as i128)) as u64;
        push_decimal(out, magnitude);
        assert(final(out)@ == old(out)@ + signed_decimal(v as int)) by {
            assert(old(out)@.push('-') + decimal(magnitude as nat) =~= old(out)@ + (seq!['-'] + decimal((-(v as int)) as nat)));
        }
    } else {
        push_decimal(out, v as u64);
    }
}

/// Appends two lowercase hexadecimal digits for `b`.
pub fn push_hex2(out: &mut Vec<char>, b: u8)
    ensures
        final(out)@ == old(out)@ + hex2(b),
{
    out.push(digit_char((b / 16) as u64));
    out.push(digit_char((b % 16) as u64));
    assert(final(out)@ =~= old(out)@ + hex2(b));
}

// ---------------------------------------------------------------------------
// Substring search, splitting and comparison
// ---------------------------------------------------------------------------

/// `pat` occurs in `s` starting at index `i`.
pub open spec fn match_at(s: Seq<char>, pat: Seq<char>, i: int) -> bool {
    0 <= i && i + pat.len() <= s.len() && s.subrange(i, i + pat.len()) == pat
}

/// The first index at or after `i` where `pat` occurs in `s`.
pub open spec fn find_from(s: Seq<char>, pat: Seq<char>, i: int) -> Option<int>
    decreases s.len() + 1 - i,
{
    if i < 0 || i + pat.len() > s.len() {
        None
    } else if match_at(s, pat, i) {
        Some(i)
    } else {
        find_from(s, pat, i + 1)
    }
}

/// `pat` occurs somewhere in `s` (what `str::contains` answers).
pub open spec fn contains(s: Seq<char>, pat: Seq<char>) -> bool {
    find_from(s, pat, 0) is Some
}

/// The text before the first occurrence of `pat`, or all of `s` when `pat`
/// does not occur (the first item of `str::split`).
pub open spec fn before_first(s: Seq<char>, pat: Seq<char>) -> Seq<char> {
    match find_from(s, pat, 0) {
        Some(i) => s.subrange(0, i),
        None => s,
    }
}

/// The last item of `str::split(pat)`: occurrences are taken from the left,
/// without overlap, and the text after the last one taken is returned.
pub open spec fn split_last(s: Seq<char>, pat: Seq<char>) -> Seq<char>
    decreases s.len(),
{
    if pat.len() == 0 {
        s
    } else {
        match find_from(s, pat, 0) {
            Some(i) => if i + pat.len() <= s.len() && i >= 0 { split_last(s.skip(i + pat.len()), pat) } else { s },
            None => s,
        }
    }
}

/// Whether `pat` occurs in `s` at index `i`.
pub fn matches_at(s: &Vec<char>, pat: &Vec<char>, i: usize) -> (r: bool)
    requires
        i + pat.len() <= s.len(),
    ensures
        r == match_at(s@, pat@, i as int),
{
    let mut j: usize = 0;
    while j < pat.len()
        invariant
            j <= pat.len(),
            i + pat.len() <= s.len(),
            forall|k: int| 0 <= k < j ==> s@[i + k] == pat@[k],
        decreases pat.len() - j,
    {
        if s[i + j] != pat[j] {
            assert(s@.subrange(i as int, i + pat.len())[j as int] != pat@[j as int]);
            return false;
        }
        j = j + 1;
    }
    assert(s@.subrange(i as int, i + pat.len()) =~= pat@);
    true
}

/// A match found by `find_from` lies at or after the starting index and is a match.
pub proof fn lemma_find_from_match(s: Seq<char>, pat: Seq<char>, i: int)
    ensures
        find_from(s, pat, i) matches Some(j) ==> match_at(s, pat, j) && i <= j,
    decreases s.len() + 1 - i,
{
    if i < 0 || i + pat.len() > s.len() {
    } else if match_at(s, pat, i) {
    } else {
        lemma_find_from_match(s, pat, i + 1);
    }
}

/// The first index at or after `start` where `pat` occurs in `s`.
pub fn find_in(s: &Vec<char>, pat: &Vec<char>, start: usize) -> (r: Option<usize>)
    ensures
        match r {
            Some(i) => find_from(s@, pat@, start as int) == Some(i as int),
            None => find_from(s@, pat@, start as int) is None,
        },
{
    if pat.len() > s.len() {
        return None;
    }
    let last = s.len() - pat.len();
    if start > last {
        return None;
    }
    let mut i = start;
    loop
        invariant
            pat.len() <= s.len(),
            last == s.len() - pat.len(),
            start <= i <= last,
            find_from(s@, pat@, start as int) == find_from(s@, pat@, i as int),
        decreases last - i,
    {
        if matches_at(s, pat, i) {
            return Some(i);
        }
        if i == last {
            assert(find_from(s@, pat@, i as int + 1) is None);
            return None;
        }
        i = i + 1;
    }
}

/// Whether `pat` occurs in `hay` (what `str::contains` answers).
pub fn contains_str(hay: &str, pat: &str) -> (r: bool)
    ensures
        r == contains(hay@, pat@),
{
    let h = chars_of(hay);
    let p = chars_of(pat);
    find_in(&h, &p, 0).is_some()
}

/// Whether two character sequences are equal.
pub fn chars_eq(a: &Vec<char>, b: &Vec<char>) -> (r: bool)
    ensures
        r == (a@ == b@),
{
    if a.len() != b.len() {
        return false;
    }
    let mut i: usize = 0;
    while i < a.len()
        invariant
            a.len() == b.len(),
            i <= a.len(),
            forall|k: int| 0 <= k < i ==> a@[k] == b@[k],
        decreases a.len() - i,
    {
        if a[i] != b[i] {
            return false;
        }
        i = i + 1;
    }
    assert(a@ =~= b@);
    true
}

/// Whether two strings hold the same characters (what `==` on `str` answers).
pub fn str_eq(a: &str, b: &str) -> (r: bool)
    ensures
        r == (a@ == b@),
{
    chars_eq(&chars_of(a), &chars_of(b))
}

/// The text before the first occurrence of `pat` in `s`.
pub fn prefix_before(s: &str, pat: &str) -> (r: String)
    ensures
        r@ == before_first(s@, pat@),
{
    let cs = chars_of(s);
    let p = chars_of(pat);
    match find_in(&cs, &p, 0) {
        Some(i) => {
            proof {
                lemma_find_from_match(cs@, p@, 0);
            }
            let mut out: Vec<char> = Vec::new();
            let mut k: usize = 0;
            while k < i
                invariant
                    k <= i,
                    i <= cs.len(),
                    out@ =~= cs@.subrange(0, k as int),
                decreases i - k,
            {
                out.push(cs[k]);
                k = k + 1;
            }
            string_from_chars(out)
        },
        None => owned(s),
    }
}

/// The characters of `v` from index `from` on.
pub fn tail_from(v: &Vec<char>, from: usize) -> (r: Vec<char>)
    requires
        from <= v.len(),
    ensures
        r@ == v@.skip(from as int),
{
    let mut out: Vec<char> = Vec::new();
    let mut k = from;
    while k < v.len()
        invariant
            from <= k <= v.len(),
            out@ =~= v@.subrange(from as int, k as int),
        decreases v.len() - k,
    {
        out.push(v[k]);
        k = k + 1;
    }
    out
}

/// The last item of `s.split(pat)` for a non-empty `pat`.
pub fn last_split_item(s: &str, pat: &str) -> (r: String)
    ensures
        r@ == split_last(s@, pat@),
{
    let p = chars_of(pat);
    let mut cur = chars_of(s);
    if p.len() == 0 {
        return owned(s);
    }
    loop
        invariant_except_break
            p@ == pat@,
            p.len() > 0,
            split_last(cur@, p@) == split_last(s@, pat@),
        ensures
            split_last(cur@, p@) == split_last(s@, pat@),
            find_from(cur@, p@, 0) is None,
            p@ == pat@,
            p.len() > 0,
        decreases cur.len(),
    {
        match find_in(&cur, &p, 0) {
            Some(i) => {
                proof {
                    lemma_find_from_match(cur@, p@, 0);
                }
                let next = tail_from(&cur, i + p.len());
                cur = next;
            },
            None => {
                break;
            },
        }
    }
    string_from_chars(cur)
}

/// `n` copies of `s`, one after the other (what `str::repeat` returns).
pub open spec fn repeat(s: Seq<char>, n: nat) -> Seq<char>
    decreases n,
{
    if n == 0 {
        Seq::empty()
    } else {
        repeat(s, (n - 1) as nat) + s
    }
}

/// Appends `n` copies of `s` to `out`.
pub fn push_repeat(out: &mut Vec<char>, s: &str, n: usize)
    ensures
        final(out)@ == old(out)@ + repeat(s@, n as nat),
{
    let mut k: usize = 0;
    while k < n
        invariant
            k <= n,
            out@ == old(out)@ + repeat(s@, k as nat),
        decreases n - k,
    {
        push_str(out, s);
        k = k + 1;
        assert(out@ =~= old(out)@ + repeat(s@, k as nat));
    }
}

// ---------------------------------------------------------------------------
// UTF-8 decoding and path joining, as std does them
// ---------------------------------------------------------------------------

/// std's `FromUtf8Error`, carried as an opaque value.
#[verifier::external_type_specification]
#[verifier::external_body]
pub struct ExFromUtf8Error(std::string::FromUtf8Error);

/// std's `io::Error`, carried as an opaque value.
#[verifier::external_type_specification]
#[verifier::external_body]
pub struct ExIoError(std::io::Error);

/// `serde_json::Error`, carried as an opaque value.
#[verifier::external_type_specification]
#[verifier::external_body]
pub struct ExJsonError(serde_json::Error);

/// `toml::de::Error`, carried as an opaque value.
#[verifier::external_type_specification]
#[verifier::external_body]
pub struct ExTomlError(toml::de::Error);

/// The bytes as text when they are valid UTF-8: std's `String::from_utf8`, which
/// accepts exactly the well-formed UTF-8 encodings of Unicode scalar values.
#[verifier::external_body]
pub(crate) fn utf8_text(bytes: Vec<u8>) -> (r: Result<String, std::string::FromUtf8Error>)
    ensures
        r is Ok <==> valid_utf8(bytes@),
        r matches Ok(s) ==> s@ == decode_utf8(bytes@),
{
    String::from_utf8(bytes)
}

/// A single path component that std's `Path::join` appends rather than
/// substitutes: not empty, not `.` or `..`, and free of separators, drive
/// colons and question marks.
pub open spec fn plain_component(name: Seq<char>) -> bool {
    &&& name.len() > 0
    &&& !(name.len() == 1 && name[0] == '.')
    &&& !(name.len() == 2 && name[0] == '.' && name[1] == '.')
    &&& forall|i: int| 0 <= i < name.len() ==> name[i] != '/' && name[i] != '\\' && name[i] != ':' && name[i] != '?'
}

/// A path that may carry a Windows verbatim prefix (`\\?\`): std rebuilds such
/// a path from its components when it joins onto it.
pub open spec fn verbatim_like(base: Seq<char>) -> bool {
    base.len() >= 3 && base[0] == '\\' && base[1] == '\\' && base[2] == '?'
}

/// `r` is `base` with the component `name` appended, joined by one separator
/// (`/` or `\`, as the platform writes it) or by none where `base` already ends
/// in one or is empty or a bare drive.
pub open spec fn joined(base: Seq<char>, name: Seq<char>, r: Seq<char>) -> bool {
    r == base + name || r == base + seq!['/'] + name || r == base + seq!['\\'] + name
}

/// `base` joined with the component `name`: std's `Path::join`, as text. What
/// separator is used, if any, is left to the platform; of a base that may be a
/// verbatim path (which std normalises while joining) nothing is stated.
#[verifier::external_body]
pub(crate) fn join_path(base: &str, name: &str) -> (r: String)
    requires
        plain_component(name@),
    ensures
        !verbatim_like(base@) ==> joined(base@, name@, r@),
{
    std::path::Path::new(base).join(name).to_string_lossy().into_owned()
}

/// Joining a plain component onto a path that is not verbatim gives a path
/// that is not verbatim either.
pub proof fn lemma_join_keeps_plain(base: Seq<char>, name: Seq<char>, r: Seq<char>)
    requires
        !verbatim_like(base),
        plain_component(name),
        joined(base, name, r),
    ensures
        !verbatim_like(r),
{
    assert(name[0] != '\\' && name[0] != '?');
    if base.len() >= 3 {
        assert(r[0] == base[0] && r[1] == base[1] && r[2] == base[2]);
    } else if base.len() == 2 {
        assert(r[0] == base[0] && r[1] == base[1]);
        if r == base + name {
            assert(r[2] == name[0]);
        } else {
            assert(r[2] == '/' || r[2] == '\\');
        }
    } else if base.len() == 1 {
        assert(r[0] == base[0]);
        if r == base + name {
            assert(r[1] == name[0]);
        } else if r.len() >= 3 {
            assert(r[2] == name[0]);
        }
    } else {
        if r == base + name {
            assert(r[0] == name[0]);
        } else {
            assert(r[1] == name[0]);
        }
    }
}

} // verus!
