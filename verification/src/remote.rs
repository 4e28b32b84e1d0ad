//! Pure helpers behind the remote review-session client: category-code and
//! base-URL normalization, port parsing, configuration precedence, dotenv
//! lines, and map-id chunking.  The HTTP calls themselves live outside the
//! engine; these functions do everything that can be computed from plain
//! values.

use vstd::prelude::*;
use vstd::string::*;

use crate::text::{trim_range, trim_spec, trimmed};

verus! {

/// An ASCII decimal digit.
pub open spec fn is_digit_char(c: char) -> bool {
    '0' <= c && c <= '9'
}

/// A string of ASCII digits only.
pub open spec fn all_digits(s: Seq<char>) -> bool {
    forall|i: int| 0 <= i < s.len() ==> is_digit_char(#[trigger] s[i])
}

/// The canonical category code of a raw user entry: trimmed, an optional
/// leading `P` (either case) dropped, the rest required to be one or more
/// ASCII digits, and the result written `P` + digits.  Anything else is
/// rejected.
pub open spec fn category_code_spec(raw: Seq<char>) -> Option<Seq<char>> {
    let t = trim_spec(raw);
    if t.len() == 0 {
        None
    } else {
        let body = if t[0] == 'P' || t[0] == 'p' {
            t.drop_first()
        } else {
            t
        };
        if body.len() > 0 && all_digits(body) {
            Some(seq!['P'] + body)
        } else {
            None
        }
    }
}

/// Normalizes a category entry such as `3`, `p3` or ` P12 ` to its
/// canonical `P…` form, rejecting anything that is not digits behind an
/// optional `P`.
pub fn normalize_category_code(raw: &str) -> (r: Option<String>)
    ensures
        ({
            match (r, category_code_spec(raw@)) {
                (Some(s), Some(m)) => s@ == m,
                (None, None) => true,
                _ => false,
            }
        }),
{
    let n = raw.unicode_len();
    let (a, b) = trim_range(raw, 0, n);
    proof {
        assert(raw@.subrange(0, n as int) =~= raw@);
    }
    if a == b {
        return None;
    }
    let ghost t = trim_spec(raw@);
    let first = raw.get_char(a);
    proof {
        assert(t[0] == raw@[a as int]);
    }
    let body_start = if first == 'P' || first == 'p' {
        a + 1
    } else {
        a
    };
    proof {
        if first == 'P' || first == 'p' {
            assert(t.drop_first() =~= raw@.subrange(a + 1 as int, b as int));
        }
    }
    if body_start == b {
        proof {
            assert(trim_spec(raw@).drop_first().len() == 0);
        }
        return None;
    }
    let ghost body = raw@.subrange(body_start as int, b as int);
    proof {
        assert(body == (if t[0] == 'P' || t[0] == 'p' {
            t.drop_first()
        } else {
            t
        }));
    }
    let mut i = body_start;
    while i < b
        invariant
            body_start <= i <= b,
            b <= raw@.len(),
            body == raw@.subrange(body_start as int, b as int),
            trim_spec(raw@).len() > 0,
            body == (if trim_spec(raw@)[0] == 'P' || trim_spec(raw@)[0] == 'p' {
                trim_spec(raw@).drop_first()
            } else {
                trim_spec(raw@)
            }),
            body.len() > 0,
            forall|k: int|
                0 <= k < i - body_start ==> is_digit_char(#[trigger] body[k]),
        decreases b - i,
    {
        let c = raw.get_char(i);
        proof {
            assert(body[i - body_start] == raw@[i as int]);
        }
        if !('0' <= c && c <= '9') {
            proof {
                assert(!is_digit_char(body[i - body_start]));
                assert(!all_digits(body));
                assert(category_code_spec(raw@) is None);
            }
            return None;
        }
        i = i + 1;
    }
    let mut out = "P".to_owned();
    out.append(raw.substring_char(body_start, b));
    proof {
        reveal_strlit("P");
        assert(out@ =~= seq!['P'] + body);
    }
    Some(out)
}

/// Whether `p` is a prefix of `s`.
pub open spec fn starts_with_spec(s: Seq<char>, p: Seq<char>) -> bool {
    s.len() >= p.len() && s.subrange(0, p.len() as int) == p
}

/// Decides `starts_with_spec` for a range of `s` against a literal prefix.
fn range_starts_with(s: &str, a: usize, b: usize, p: &str) -> (r: bool)
    requires
        a <= b && b <= s@.len(),
    ensures
        r == starts_with_spec(s@.subrange(a as int, b as int), p@),
{
    let ghost t = s@.subrange(a as int, b as int);
    let pl = p.unicode_len();
    if b - a < pl {
        return false;
    }
    let mut i: usize = 0;
    while i < pl
        invariant
            0 <= i <= pl,
            pl == p@.len(),
            a <= b <= s@.len(),
            pl <= b - a,
            t == s@.subrange(a as int, b as int),
            forall|k: int| 0 <= k < i ==> t[k] == p@[k],
        decreases pl - i,
    {
        let c = s.get_char(a + i);
        proof {
            assert(t[i as int] == s@[a + i as int]);
        }
        if c != p.get_char(i) {
            return false;
        }
        i = i + 1;
    }
    proof {
        assert(t.subrange(0, pl as int) =~= p@);
    }
    true
}

/// The normalized base URL of a raw entry: trimmed; empty stays empty; a
/// missing scheme gets `http://` prepended; and a missing trailing slash is
/// added.
pub open spec fn base_url_spec(raw: Seq<char>) -> Seq<char> {
    let t = trim_spec(raw);
    if t.len() == 0 {
        Seq::<char>::empty()
    } else {
        let s = if starts_with_spec(t, "http://"@) || starts_with_spec(t, "https://"@) {
            t
        } else {
            "http://"@ + t
        };
        if s.len() > 0 && s.last() == '/' {
            s
        } else {
            s + seq!['/']
        }
    }
}

/// Normalizes a base URL entry: prepends `http://` when no scheme is given
/// and guarantees one trailing slash.  An empty entry stays empty.
pub fn normalize_base_url(raw: &str) -> (r: String)
    ensures
        r@ == base_url_spec(raw@),
{
    let n = raw.unicode_len();
    let (a, b) = trim_range(raw, 0, n);
    proof {
        assert(raw@.subrange(0, n as int) =~= raw@);
    }
    if a == b {
        return String::new();
    }
    let ghost t = trim_spec(raw@);
    let mut out: String = if range_starts_with(raw, a, b, "http://") || range_starts_with(
        raw,
        a,
        b,
        "https://",
    ) {
        raw.substring_char(a, b).to_owned()
    } else {
        let mut o = "http://".to_owned();
        o.append(raw.substring_char(a, b));
        o
    };
    let last = raw.get_char(b - 1);
    proof {
        assert(t.last() == raw@[b - 1 as int]);
        assert(out@.last() == t.last());
    }
    if last != '/' {
        out.append("/");
        proof {
            reveal_strlit("/");
        }
    }
    proof {
        assert(out@ =~= base_url_spec(raw@));
    }
    out
}

/// What `u16` parsing accepts: an optional leading `+`, then one or more
/// ASCII digits whose value fits.
pub open spec fn port_digits(s: Seq<char>) -> Seq<char> {
    if s.len() > 0 && s[0] == '+' {
        s.drop_first()
    } else {
        s
    }
}

/// The numeric value of a digit string, most significant first.
pub open spec fn digits_value(s: Seq<char>) -> int
    decreases s.len(),
{
    if s.len() == 0 {
        0
    } else {
        digits_value(s.drop_last()) * 10 + (s.last() as int - '0' as int)
    }
}

/// Whether a string is a valid `u16` port: optional `+`, digits only, at
/// least one, value at most 65535.
pub open spec fn port_ok(s: Seq<char>) -> bool {
    let d = port_digits(s);
    d.len() > 0 && all_digits(d) && digits_value(d) <= 65535
}

/// Parses a port entry, falling back to the default on anything `u16`
/// parsing would reject.
pub fn parse_port_or(s: &str, default: u16) -> (r: u16)
    ensures
        port_ok(s@) ==> r == digits_value(port_digits(s@)),
        !port_ok(s@) ==> r == default,
{
    let n = s.unicode_len();
    let start: usize = if n > 0 && s.get_char(0) == '+' {
        1
    } else {
        0
    };
    let ghost d = port_digits(s@);
    proof {
        if n > 0 && s@[0] == '+' {
            assert(d =~= s@.subrange(1, n as int));
        } else {
            assert(d =~= s@.subrange(0, n as int));
        }
    }
    if start == n {
        return default;
    }
    let mut value: u32 = 0;
    let mut i = start;
    while i < n
        invariant
            start <= i <= n,
            n == s@.len(),
            start <= 1,
            d == port_digits(s@),
            d =~= s@.subrange(start as int, n as int),
            forall|k: int| 0 <= k < i - start ==> is_digit_char(#[trigger] d[k]),
            value == digits_value(d.take(i - start)),
            value <= 65535,
        decreases n - i,
    {
        let c = s.get_char(i);
        proof {
            assert(d[i - start] == s@[i as int]);
        }
        if !('0' <= c && c <= '9') {
            return default;
        }
        let digit = (c as u32) - ('0' as u32);
        proof {
            assert(d.take(i - start + 1).drop_last() =~= d.take(i - start));
            assert(d.take(i - start + 1).last() == d[i - start]);
        }
        let next = value * 10 + digit;
        if next > 65535 {
            // The value no longer fits in a port number, and trailing
            // digits only grow it further.
            proof {
                assert(digits_value(d.take(i - start + 1)) == value * 10 + digit);
                if port_ok(s@) {
                    lemma_digits_value_grows(d, i - start + 1);
                    assert(false);
                }
            }
            return default;
        }
        value = next;
        i = i + 1;
    }
    proof {
        assert(d.take(n - start) =~= d);
    }
    value as u16
}

/// A digit string's value only grows as more digits are taken.
proof fn lemma_digits_value_grows(d: Seq<char>, k: int)
    requires
        0 <= k <= d.len(),
        forall|i: int| 0 <= i < d.len() ==> is_digit_char(#[trigger] d[i]),
    ensures
        digits_value(d) >= digits_value(d.take(k)),
    decreases d.len() - k,
{
    if k < d.len() {
        lemma_digits_value_grows(d, k + 1);
        assert(d.take(k + 1).drop_last() =~= d.take(k));
        assert(d.take(k + 1).last() == d[k]);
        assert(digits_value(d.take(k + 1)) == digits_value(d.take(k)) * 10 + (d[k] as int
            - '0' as int));
        assert(digits_value(d.take(k)) >= 0) by {
            lemma_digits_value_nonneg(d.take(k));
        }
    } else {
        assert(d.take(k) =~= d);
    }
}

proof fn lemma_digits_value_nonneg(d: Seq<char>)
    requires
        forall|i: int| 0 <= i < d.len() ==> is_digit_char(#[trigger] d[i]),
    ensures
        digits_value(d) >= 0,
    decreases d.len(),
{
    if d.len() > 0 {
        assert(forall|i: int|
            0 <= i < d.drop_last().len() ==> is_digit_char(#[trigger] d.drop_last()[i]));
        lemma_digits_value_nonneg(d.drop_last());
    }
}

/// Decimal rendering of a port number, most significant digit first.
pub open spec fn dec_of(n: int) -> Seq<char>
    recommends
        n >= 0,
    decreases n,
{
    if n <= 9 {
        seq![crate::commands::digit_char(n)]
    } else {
        dec_of(n / 10) + seq![crate::commands::digit_char(n % 10)]
    }
}

fn push_decimal(out: &mut String, n: u16)
    ensures
        final(out)@ == old(out)@ + dec_of(n as int),
    decreases n,
{
    if n <= 9 {
        out.append(digit_str_u16(n));
    } else {
        push_decimal(out, n / 10);
        out.append(digit_str_u16(n % 10));
        proof {
            assert(old(out)@ + dec_of((n / 10) as int) + seq![
                crate::commands::digit_char((n % 10) as int),
            ] =~= old(out)@ + dec_of(n as int));
        }
    }
}

fn digit_str_u16(d: u16) -> (r: &'static str)
    requires
        d <= 9,
    ensures
        r@ == seq![crate::commands::digit_char(d as int)],
{
    proof {
        reveal_strlit("0");
        reveal_strlit("1");
        reveal_strlit("2");
        reveal_strlit("3");
        reveal_strlit("4");
        reveal_strlit("5");
        reveal_strlit("6");
        reveal_strlit("7");
        reveal_strlit("8");
        reveal_strlit("9");
    }
    if d == 0 {
        "0"
    } else if d == 1 {
        "1"
    } else if d == 2 {
        "2"
    } else if d == 3 {
        "3"
    } else if d == 4 {
        "4"
    } else if d == 5 {
        "5"
    } else if d == 6 {
        "6"
    } else if d == 7 {
        "7"
    } else if d == 8 {
        "8"
    } else {
        "9"
    }
}

/// The `http://host:port` form handed to base-URL normalization when only
/// host and port are configured.
pub open spec fn host_port_url_spec(host: Seq<char>, port: int) -> Seq<char> {
    "http://"@ + host + seq![':'] + dec_of(port)
}

/// Builds `http://{host}:{port}` and normalizes it as a base URL.
pub fn host_port_base_url(host: &str, port: u16) -> (r: String)
    ensures
        r@ == base_url_spec(host_port_url_spec(host@, port as int)),
{
    let mut url = "http://".to_owned();
    url.append(host);
    url.append(":");
    proof {
        reveal_strlit(":");
    }
    push_decimal(&mut url, port);
    proof {
        assert(url@ =~= host_port_url_spec(host@, port as int));
    }
    normalize_base_url(url.as_str())
}

/// One configuration entry as seen from its three places: the runtime
/// environment, the dotenv file (absent when the file has no such key),
/// and the value baked in at build time.
pub struct ConfigSource {
    pub env: String,
    pub file: Option<String>,
    pub build: String,
}

/// The view of an optional string.
pub open spec fn oview(o: Option<String>) -> Option<Seq<char>> {
    match o {
        Some(s) => Some(s@),
        None => None,
    }
}

/// The value a source effectively supplies: the first of environment, file
/// and build-time whose trimmed form is non-empty, else the default.
pub open spec fn source_pick_spec(
    env: Seq<char>,
    file: Option<Seq<char>>,
    build: Seq<char>,
    default: Seq<char>,
) -> Seq<char> {
    if trim_spec(env).len() > 0 {
        env
    } else {
        let f = match file {
            Some(x) => x,
            None => Seq::<char>::empty(),
        };
        if trim_spec(f).len() > 0 {
            f
        } else if trim_spec(build).len() > 0 {
            build
        } else {
            default
        }
    }
}

/// Whether the trimmed string is non-empty.
fn trim_nonempty(s: &str) -> (r: bool)
    ensures
        r == (trim_spec(s@).len() > 0),
{
    let n = s.unicode_len();
    let (a, b) = trim_range(s, 0, n);
    proof {
        assert(s@.subrange(0, n as int) =~= s@);
    }
    a < b
}

impl ConfigSource {
    /// Picks this source's effective value, falling back to the default.
    pub fn pick(&self, default: &str) -> (r: String)
        ensures
            r@ == source_pick_spec(self.env@, oview(self.file), self.build@, default@),
    {
        proof {
            assert(trim_spec(Seq::<char>::empty()).len() == 0);
        }
        if trim_nonempty(self.env.as_str()) {
            return self.env.clone();
        }
        match &self.file {
            Some(f) => {
                if trim_nonempty(f.as_str()) {
                    return f.clone();
                }
            },
            None => {},
        }
        if trim_nonempty(self.build.as_str()) {
            self.build.clone()
        } else {
            default.to_owned()
        }
    }
}

/// Whether a host or port is configured anywhere: a non-blank environment
/// or build-time entry, or the mere presence of the key in the dotenv file.
pub open spec fn hostport_configured_spec(host: &ConfigSource, port: &ConfigSource) -> bool {
    ||| trim_spec(host.env@).len() > 0
    ||| trim_spec(port.env@).len() > 0
    ||| host.file is Some
    ||| port.file is Some
    ||| trim_spec(host.build@).len() > 0
    ||| trim_spec(port.build@).len() > 0
}

/// The resolved base URL: a configured base URL wins; otherwise a
/// configured host and port pair, each defaulted on its own; otherwise the
/// caller's fallback.
pub open spec fn resolve_base_url_spec(
    base: &ConfigSource,
    host: &ConfigSource,
    port: &ConfigSource,
    fallback: Seq<char>,
) -> Seq<char> {
    let braw = source_pick_spec(base.env@, oview(base.file), base.build@, Seq::<char>::empty());
    if trim_spec(braw).len() > 0 {
        base_url_spec(braw)
    } else if hostport_configured_spec(host, port) {
        let h = trim_spec(source_pick_spec(host.env@, oview(host.file), host.build@, "127.0.0.1"@));
        let praw = trim_spec(source_pick_spec(port.env@, oview(port.file), port.build@, "8765"@));
        let pnum = if port_ok(praw) {
            digits_value(port_digits(praw))
        } else {
            8765
        };
        base_url_spec(host_port_url_spec(h, pnum))
    } else {
        base_url_spec(fallback)
    }
}

/// The resolved bearer token: environment over file over build-time,
/// trimmed.
pub open spec fn resolve_token_spec(token: &ConfigSource) -> Seq<char> {
    trim_spec(source_pick_spec(token.env@, oview(token.file), token.build@, Seq::<char>::empty()))
}

/// The remote session API endpoint and credential, resolved.
pub struct SessionApiConfig {
    pub base_url: String,
    pub token: String,
}

/// Resolves the session API configuration from its three-place sources,
/// by fixed precedence: an explicit base URL first, then a host/port pair,
/// then the caller's fallback URL; the token independently.
pub fn resolve_session_config(
    base: &ConfigSource,
    host: &ConfigSource,
    port: &ConfigSource,
    token: &ConfigSource,
    fallback: &str,
) -> (r: SessionApiConfig)
    ensures
        r.base_url@ == resolve_base_url_spec(base, host, port, fallback@),
        r.token@ == resolve_token_spec(token),
{
    let braw = base.pick("");
    proof {
        reveal_strlit("");
        assert(""@ =~= Seq::<char>::empty());
    }
    let base_url = if trim_nonempty(braw.as_str()) {
        normalize_base_url(braw.as_str())
    } else {
        let configured = trim_nonempty(host.env.as_str()) || trim_nonempty(port.env.as_str())
            || host.file.is_some() || port.file.is_some() || trim_nonempty(host.build.as_str())
            || trim_nonempty(port.build.as_str());
        if configured {
            let h = trimmed(host.pick("127.0.0.1").as_str());
            let praw = trimmed(port.pick("8765").as_str());
            let pnum = parse_port_or(praw.as_str(), 8765);
            host_port_base_url(h.as_str(), pnum)
        } else {
            normalize_base_url(fallback)
        }
    };
    let tok = trimmed(token.pick("").as_str());
    SessionApiConfig { base_url, token: tok }
}

/// The first index of `c` in `s`, or `s.len()` when absent.
pub open spec fn find_char(s: Seq<char>, c: char) -> int
    decreases s.len(),
{
    if s.len() == 0 {
        0
    } else if s[0] == c {
        0
    } else {
        1 + find_char(s.drop_first(), c)
    }
}

proof fn lemma_find_char(s: Seq<char>, c: char, j: int)
    requires
        0 <= j <= s.len(),
        forall|k: int| 0 <= k < j ==> s[k] != c,
        j < s.len() ==> s[j] == c,
    ensures
        j < s.len() ==> find_char(s, c) == j,
        j == s.len() ==> find_char(s, c) == s.len(),
    decreases s.len(),
{
    if s.len() > 0 && s[0] != c {
        let t = s.drop_first();
        assert forall|k: int| 0 <= k < j - 1 implies t[k] != c by {
            assert(t[k] == s[k + 1]);
        }
        lemma_find_char(t, c, if j > 0 {
            j - 1
        } else {
            0
        });
    }
}

/// The key/value pair a dotenv line yields: blank lines and `#` comments
/// yield nothing, as does a line without `=`; otherwise the trimmed text
/// before the first `=` is the key and the trimmed text after it is the
/// value, with one pair of matching single or double quotes removed.
pub open spec fn dotenv_line_spec(line: Seq<char>) -> Option<(Seq<char>, Seq<char>)> {
    let t = trim_spec(line);
    if t.len() == 0 || t[0] == '#' {
        None
    } else {
        let i = find_char(t, '=');
        if i == t.len() {
            None
        } else {
            let key = trim_spec(t.take(i));
            let v = trim_spec(t.skip(i + 1));
            let val = if v.len() >= 2 && ((v[0] == '"' && v.last() == '"') || (v[0] == '\''
                && v.last() == '\'')) {
                v.subrange(1, v.len() - 1)
            } else {
                v
            };
            Some((key, val))
        }
    }
}

/// Parses one dotenv line.
pub fn parse_dotenv_line(line: &str) -> (r: Option<(String, String)>)
    ensures
        ({
            match (r, dotenv_line_spec(line@)) {
                (Some(kv), Some(m)) => kv.0@ == m.0 && kv.1@ == m.1,
                (None, None) => true,
                _ => false,
            }
        }),
{
    let n = line.unicode_len();
    let (a, b) = trim_range(line, 0, n);
    proof {
        assert(line@.subrange(0, n as int) =~= line@);
    }
    let ghost t = trim_spec(line@);
    if a == b {
        return None;
    }
    if line.get_char(a) == '#' {
        proof {
            assert(t[0] == line@[a as int]);
        }
        return None;
    }
    proof {
        assert(t[0] == line@[a as int]);
    }
    // Find the first '=' inside the trimmed range.
    let mut j = a;
    while j < b && line.get_char(j) != '='
        invariant
            a <= j <= b,
            b <= line@.len(),
            t == line@.subrange(a as int, b as int),
            forall|k: int| a <= k < j ==> line@[k] != '=',
        decreases b - j,
    {
        j = j + 1;
    }
    proof {
        assert forall|k: int| 0 <= k < j - a implies t[k] != '=' by {
            assert(t[k] == line@[a + k]);
        }
        if j < b {
            assert(t[j - a] == line@[j as int]);
        }
        lemma_find_char(t, '=', j - a);
    }
    if j == b {
        return None;
    }
    // Key: trimmed text before the '='.
    let (ka, kb) = trim_range(line, a, j);
    proof {
        assert(t.take(j - a) =~= line@.subrange(a as int, j as int));
    }
    let key = line.substring_char(ka, kb).to_owned();
    // Value: trimmed text after the '=', unquoted.
    let (va, vb) = trim_range(line, j + 1, b);
    proof {
        assert(t.skip(j - a + 1) =~= line@.subrange(j + 1 as int, b as int));
    }
    let ghost v = trim_spec(t.skip(j - a + 1));
    let quoted = if vb - va >= 2 {
        let c0 = line.get_char(va);
        let c1 = line.get_char(vb - 1);
        proof {
            assert(v[0] == line@[va as int]);
            assert(v.last() == line@[vb - 1 as int]);
        }
        (c0 == '"' && c1 == '"') || (c0 == '\'' && c1 == '\'')
    } else {
        false
    };
    let val = if quoted {
        proof {
            assert(v.subrange(1, v.len() - 1) =~= line@.subrange(va + 1 as int, vb - 1 as int));
        }
        line.substring_char(va + 1, vb - 1).to_owned()
    } else {
        line.substring_char(va, vb).to_owned()
    };
    Some((key, val))
}

/// The views of a list of parsed entries.
pub open spec fn entries_model(entries: Seq<(String, String)>) -> Seq<(Seq<char>, Seq<char>)> {
    entries.map_values(|kv: (String, String)| (kv.0@, kv.1@))
}

/// The entries a dotenv file's lines yield, in order.
pub open spec fn dotenv_entries_spec(lines: Seq<Seq<char>>) -> Seq<(Seq<char>, Seq<char>)>
    decreases lines.len(),
{
    if lines.len() == 0 {
        Seq::<(Seq<char>, Seq<char>)>::empty()
    } else {
        let rest = dotenv_entries_spec(lines.drop_first());
        match dotenv_line_spec(lines[0]) {
            Some(kv) => seq![kv] + rest,
            None => rest,
        }
    }
}

/// The views of a list of lines.
pub open spec fn lines_model(lines: Seq<String>) -> Seq<Seq<char>> {
    lines.map_values(|l: String| l@)
}

/// Parses a dotenv file, handed over as its lines: blank lines and
/// comments are skipped, and each remaining `key=value` line yields one
/// entry, in file order.
pub fn parse_dotenv_lines(lines: &Vec<String>) -> (r: Vec<(String, String)>)
    ensures
        entries_model(r@) == dotenv_entries_spec(lines_model(lines@)),
{
    let mut out: Vec<(String, String)> = Vec::new();
    let mut i: usize = 0;
    proof {
        assert(lines_model(lines@).skip(0) =~= lines_model(lines@));
        assert(entries_model(out@) + dotenv_entries_spec(lines_model(lines@)) =~= dotenv_entries_spec(
            lines_model(lines@),
        ));
    }
    while i < lines.len()
        invariant
            i <= lines@.len(),
            dotenv_entries_spec(lines_model(lines@)) =~= entries_model(out@)
                + dotenv_entries_spec(lines_model(lines@).skip(i as int)),
        decreases lines@.len() - i,
    {
        let ghost pre = out@;
        match parse_dotenv_line(lines[i].as_str()) {
            Some(kv) => {
                out.push(kv);
            },
            None => {},
        }
        proof {
            let vs = lines_model(lines@);
            assert(vs.skip(i as int).drop_first() =~= vs.skip(i + 1));
            assert(vs.skip(i as int)[0] == vs[i as int]);
            match dotenv_line_spec(vs[i as int]) {
                Some(kv) => {
                    assert(entries_model(out@) =~= entries_model(pre).push(kv));
                    assert(entries_model(pre).push(kv) + dotenv_entries_spec(vs.skip(i + 1))
                        =~= entries_model(pre) + (seq![kv] + dotenv_entries_spec(vs.skip(i + 1))));
                },
                None => {},
            }
        }
        i = i + 1;
    }
    proof {
        assert(lines_model(lines@).skip(lines@.len() as int).len() == 0);
    }
    out
}

/// What a key resolves to among parsed entries: the value of its last
/// occurrence, as later lines overwrite earlier ones.
pub open spec fn lookup_spec(entries: Seq<(Seq<char>, Seq<char>)>, key: Seq<char>) -> Option<
    Seq<char>,
>
    decreases entries.len(),
{
    if entries.len() == 0 {
        None
    } else if entries.last().0 == key {
        Some(entries.last().1)
    } else {
        lookup_spec(entries.drop_last(), key)
    }
}

/// Looks a key up among parsed entries; the last occurrence wins.
pub fn dotenv_lookup(entries: &Vec<(String, String)>, key: &str) -> (r: Option<String>)
    ensures
        ({
            match (r, lookup_spec(entries_model(entries@), key@)) {
                (Some(v), Some(m)) => v@ == m,
                (None, None) => true,
                _ => false,
            }
        }),
{
    let key_owned = key.to_owned();
    let mut i = entries.len();
    proof {
        assert(entries_model(entries@).take(entries@.len() as int) =~= entries_model(entries@));
    }
    while i > 0
        invariant
            i <= entries@.len(),
            key_owned@ == key@,
            lookup_spec(entries_model(entries@), key@) == lookup_spec(
                entries_model(entries@).take(i as int),
                key@,
            ),
        decreases i,
    {
        i = i - 1;
        let (k, v) = &entries[i];
        proof {
            let em = entries_model(entries@);
            assert(em.take(i + 1).last() == em[i as int]);
            assert(em.take(i + 1).drop_last() =~= em.take(i as int));
        }
        if *k == key_owned {
            return Some(v.clone());
        }
    }
    proof {
        assert(entries_model(entries@).take(0).len() == 0);
    }
    None
}

/// The positive ids of a map-info request, in order: the service only
/// knows positive ids, so the rest are dropped.
pub open spec fn positives(ids: Seq<i64>) -> Seq<i64>
    decreases ids.len(),
{
    if ids.len() == 0 {
        Seq::<i64>::empty()
    } else {
        let rest = positives(ids.drop_first());
        if ids[0] > 0 {
            seq![ids[0]] + rest
        } else {
            rest
        }
    }
}

/// Consecutive chunks of at most eighty ids, keeping request URLs short.
pub open spec fn chunks80(s: Seq<i64>) -> Seq<Seq<i64>>
    decreases s.len(),
{
    if s.len() == 0 {
        Seq::<Seq<i64>>::empty()
    } else if s.len() <= 80 {
        seq![s]
    } else {
        seq![s.take(80)] + chunks80(s.skip(80))
    }
}

/// The views of a list of chunks.
pub open spec fn chunks_model(v: Seq<Vec<i64>>) -> Seq<Seq<i64>> {
    v.map_values(|c: Vec<i64>| c@)
}

/// Splits a map-info request into chunks: the non-positive ids are
/// dropped, and what remains is cut into consecutive runs of at most
/// eighty, in order — one request per run.
pub fn chunk_map_ids(ids: &Vec<i64>) -> (r: Vec<Vec<i64>>)
    ensures
        chunks_model(r@) == chunks80(positives(ids@)),
{
    let mut filtered: Vec<i64> = Vec::new();
    let mut i: usize = 0;
    proof {
        assert(ids@.skip(0) =~= ids@);
        assert(filtered@ + positives(ids@) =~= positives(ids@));
    }
    while i < ids.len()
        invariant
            i <= ids@.len(),
            positives(ids@) =~= filtered@ + positives(ids@.skip(i as int)),
        decreases ids@.len() - i,
    {
        let ghost pre = filtered@;
        let x = ids[i];
        if x > 0 {
            filtered.push(x);
        }
        proof {
            assert(ids@.skip(i as int).drop_first() =~= ids@.skip(i + 1));
            assert(ids@.skip(i as int)[0] == ids@[i as int]);
            if x > 0 {
                assert(pre.push(x) + positives(ids@.skip(i + 1)) =~= pre + (seq![x] + positives(
                    ids@.skip(i + 1),
                )));
            }
        }
        i = i + 1;
    }
    proof {
        assert(positives(ids@) =~= filtered@);
    }
    let total = filtered.len();
    let mut out: Vec<Vec<i64>> = Vec::new();
    let mut j: usize = 0;
    proof {
        assert(filtered@.skip(0) =~= filtered@);
        assert(chunks_model(out@) + chunks80(filtered@) =~= chunks80(filtered@));
    }
    while j < total
        invariant
            j <= total,
            total == filtered@.len(),
            chunks80(filtered@) =~= chunks_model(out@) + chunks80(filtered@.skip(j as int)),
        decreases total - j,
    {
        let end = if total - j > 80 {
            j + 80
        } else {
            total
        };
        let mut chunk: Vec<i64> = Vec::new();
        let mut k = j;
        while k < end
            invariant
                j <= k <= end,
                end <= total,
                total == filtered@.len(),
                chunk@ =~= filtered@.subrange(j as int, k as int),
            decreases end - k,
        {
            chunk.push(filtered[k]);
            k = k + 1;
        }
        let ghost pre = out@;
        out.push(chunk);
        proof {
            let rem = filtered@.skip(j as int);
            assert(chunks_model(out@) =~= chunks_model(pre).push(
                filtered@.subrange(j as int, end as int),
            ));
            if rem.len() <= 80 {
                assert(rem =~= filtered@.subrange(j as int, end as int));
                assert(chunks80(rem) =~= seq![rem]);
                assert(filtered@.skip(end as int).len() == 0);
                assert(chunks80(filtered@.skip(end as int)) =~= Seq::<Seq<i64>>::empty());
            } else {
                assert(rem.take(80) =~= filtered@.subrange(j as int, end as int));
                assert(rem.skip(80) =~= filtered@.skip(end as int));
            }
            assert(chunks_model(pre).push(filtered@.subrange(j as int, end as int)) + chunks80(
                filtered@.skip(end as int),
            ) =~= chunks_model(pre) + (seq![filtered@.subrange(j as int, end as int)] + chunks80(
                filtered@.skip(end as int),
            )));
        }
        j = end;
    }
    proof {
        assert(chunks80(filtered@.skip(total as int)) =~= Seq::<Seq<i64>>::empty());
        assert(chunks_model(out@) =~= chunks80(positives(ids@)));
    }
    out
}

} // verus!
