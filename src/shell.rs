//! Data of the desktop shell and the text clean-up it applies to profile
//! names and to URLs found in command output.

use vstd::prelude::*;
use vstd::string::StringExecFns;
use crate::text::{is_white, white, occurs_at, occurs, matches_at, find, lower_of, to_lower};
use crate::labels::str_eq;
use crate::json::strings_view;
use crate::log::{cut, at_boundary, no_newline, lemma_last_nl_concat};

verus! {

/// Options for connecting to the agent gateway.
pub struct GatewayConnectOptions {
    pub url: String,
    pub token: Option<String>,
    pub password: Option<String>,
    pub client_name: Option<String>,
    pub client_version: Option<String>,
    pub platform: Option<String>,
    pub mode: Option<String>,
    pub instance_id: Option<String>,
    pub role: Option<String>,
    pub scopes: Option<Vec<String>>,
    pub user_agent: Option<String>,
    pub locale: Option<String>,
}

pub struct ChatHistoryPayload {
    pub session_key: String,
    pub limit: Option<u32>,
}

pub struct ChatAbortPayload {
    pub session_key: String,
    pub run_id: Option<String>,
}

pub struct CliRunResult {
    pub ok: bool,
    pub message: String,
}

pub struct GatewayInfo {
    pub url: String,
    pub port: u16,
    pub auth_mode: Option<String>,
    pub token: Option<String>,
    pub password: Option<String>,
    pub source: Vec<String>,
}

pub struct ProfileEntry {
    pub name: String,
    pub config_path: Option<String>,
    pub state_dir: Option<String>,
    pub is_default: bool,
}

pub struct ProfilePaths {
    pub profile: String,
    pub config_path: Option<String>,
    pub workspace_path: Option<String>,
    pub skills_path: Option<String>,
    pub source: Vec<String>,
}

pub struct DashboardTokenInfo {
    pub url: Option<String>,
    pub token: Option<String>,
    pub source: Vec<String>,
}

pub struct ProviderStatus {
    pub name: String,
    pub cli_found: bool,
}

pub struct OpenClawDetection {
    pub found: bool,
    pub path: Option<String>,
    pub version: Option<String>,
    pub config_dir: Option<String>,
    pub skills_paths: Vec<String>,
    pub providers: Vec<ProviderStatus>,
    pub log: Vec<String>,
}

pub struct ProviderAuth {
    pub name: String,
    pub method: String,
}

pub struct AppSettings {
    pub workspace_path: Option<String>,
    pub skills_path: Option<String>,
    pub heartbeat_enabled: bool,
    pub heartbeat_interval_minutes: u32,
    pub provider_auth: Vec<ProviderAuth>,
    pub memory_enabled: bool,
    pub memory_url: Option<String>,
    pub memory_max_recent_messages: u32,
}

pub struct PathValidation {
    pub workspace_exists: bool,
    pub skills_exists: bool,
}

/// Character classes that URL and profile clean-up strips.
#[derive(Clone, Copy, PartialEq, Eq, Structural)]
pub enum CharClass {
    /// Unicode white space.
    White,
    /// Quotes, commas and closing brackets around a URL.
    Wrap,
    /// Punctuation that trails a URL in prose.
    Tail,
}

pub open spec fn in_class(k: CharClass, c: char) -> bool {
    match k {
        CharClass::White => is_white(c),
        CharClass::Wrap => c == '"' || c == '\'' || c == ',' || c == ')' || c == ']',
        CharClass::Tail => c == '.' || c == ',' || c == ')' || c == '"' || c == '\'' || c == ';',
    }
}

fn class_has(k: CharClass, c: char) -> (r: bool)
    ensures
        r == in_class(k, c),
{
    match k {
        CharClass::White => white(c),
        CharClass::Wrap => c == '"' || c == '\'' || c == ',' || c == ')' || c == ']',
        CharClass::Tail => c == '.' || c == ',' || c == ')' || c == '"' || c == '\'' || c == ';',
    }
}

/// Number of leading characters of `s` in class `k`.
pub open spec fn lead(s: Seq<char>, k: CharClass) -> nat
    decreases s.len(),
{
    if s.len() == 0 || !in_class(k, s[0]) {
        0
    } else {
        1 + lead(s.subrange(1, s.len() as int), k)
    }
}

/// Number of trailing characters of `s` in class `k`.
pub open spec fn trail(s: Seq<char>, k: CharClass) -> nat
    decreases s.len(),
{
    if s.len() == 0 || !in_class(k, s.last()) {
        0
    } else {
        1 + trail(s.drop_last(), k)
    }
}

/// `s` with every leading and trailing character of class `k` removed.
pub open spec fn strip(s: Seq<char>, k: CharClass) -> Seq<char> {
    let a = lead(s, k);
    if a >= s.len() {
        seq![]
    } else {
        s.subrange(a as int, s.len() - trail(s, k))
    }
}

/// `s` with every trailing character of class `k` removed.
pub open spec fn strip_end(s: Seq<char>, k: CharClass) -> Seq<char> {
    s.subrange(0, s.len() - trail(s, k))
}

proof fn lemma_lead_bound(s: Seq<char>, k: CharClass)
    ensures
        lead(s, k) <= s.len(),
    decreases s.len(),
{
    if s.len() > 0 && in_class(k, s[0]) {
        lemma_lead_bound(s.subrange(1, s.len() as int), k);
    }
}

proof fn lemma_trail_bound(s: Seq<char>, k: CharClass)
    ensures
        trail(s, k) <= s.len(),
    decreases s.len(),
{
    if s.len() > 0 && in_class(k, s.last()) {
        lemma_trail_bound(s.drop_last(), k);
    }
}

/// `lead` counted from position `i` on.
proof fn lemma_lead_from(s: Seq<char>, k: CharClass, i: int)
    requires
        0 <= i <= s.len(),
        forall|j: int| 0 <= j < i ==> in_class(k, s[j]),
    ensures
        lead(s, k) == i + lead(s.subrange(i, s.len() as int), k),
    decreases i,
{
    if i > 0 {
        let t = s.subrange(1, s.len() as int);
        assert forall|j: int| 0 <= j < i - 1 implies in_class(k, t[j]) by {
            assert(t[j] == s[j + 1]);
        }
        lemma_lead_from(t, k, i - 1);
        assert(t.subrange(i - 1, t.len() as int) =~= s.subrange(i, s.len() as int));
    } else {
        assert(s.subrange(0, s.len() as int) =~= s);
    }
}

proof fn lemma_trail_from(s: Seq<char>, k: CharClass, e: int)
    requires
        0 <= e <= s.len(),
        forall|j: int| e <= j < s.len() ==> in_class(k, s[j]),
    ensures
        trail(s, k) == (s.len() - e) + trail(s.subrange(0, e), k),
    decreases s.len() - e,
{
    if e < s.len() {
        let t = s.drop_last();
        lemma_trail_from(t, k, e);
        assert(t.subrange(0, e) =~= s.subrange(0, e));
    } else {
        assert(s.subrange(0, e) =~= s);
    }
}

/// The bounds of `strip(s[from..to], k)` within `s`.
fn strip_bounds(s: &str, from: usize, to: usize, k: CharClass) -> (r: (usize, usize))
    requires
        from <= to <= s@.len(),
    ensures
        from <= r.0 <= r.1 <= to,
        s@.subrange(r.0 as int, r.1 as int) == strip(s@.subrange(from as int, to as int), k),
{
    let ghost t = s@.subrange(from as int, to as int);
    let mut a: usize = from;
    while a < to && class_has(k, s.get_char(a))
        invariant
            from <= a <= to <= s@.len(),
            t == s@.subrange(from as int, to as int),
            forall|j: int| 0 <= j < a - from ==> in_class(k, t[j]),
        decreases to - a,
    {
        a = a + 1;
    }
    proof {
        lemma_lead_from(t, k, a - from);
        let rest = t.subrange(a - from, t.len() as int);
        if a < to {
            assert(rest[0] == s@[a as int]);
        }
    }
    if a == to {
        assert(s@.subrange(a as int, a as int) =~= seq![]);
        return (a, a);
    }
    let mut b: usize = to;
    while b > a && class_has(k, s.get_char(b - 1))
        invariant
            from <= a < to <= s@.len(),
            a <= b <= to,
            t == s@.subrange(from as int, to as int),
            forall|j: int| b - from <= j < t.len() ==> in_class(k, t[j]),
            lead(t, k) == a - from,
        decreases b,
    {
        b = b - 1;
    }
    proof {
        lemma_trail_from(t, k, b - from);
        let init = t.subrange(0, b - from);
        if b > a {
            assert(init.last() == s@[b - 1]);
        } else {
            assert(t[a - from] == s@[a as int]);
            assert(false);
        }
        assert(s@.subrange(a as int, b as int) =~= t.subrange(a - from, t.len() - trail(t, k)));
    }
    (a, b)
}

/// `s` with white space removed from both ends.
pub fn trim(s: &str) -> (r: String)
    ensures
        r@ == strip(s@, CharClass::White),
{
    let n = s.unicode_len();
    let (a, b) = strip_bounds(s, 0, n, CharClass::White);
    assert(s@.subrange(0, n as int) =~= s@);
    s.substring_char(a, b).to_owned()
}

/// A named profile: trimmed, and neither empty nor `default`.
pub open spec fn normalized_profile(p: Option<Seq<char>>) -> Option<Seq<char>> {
    match p {
        Some(s) => {
            let t = strip(s, CharClass::White);
            if t.len() == 0 || t == "default"@ {
                None
            } else {
                Some(t)
            }
        },
        None => None,
    }
}

pub fn normalize_profile(profile: Option<&str>) -> (r: Option<String>)
    ensures
        match r {
            Some(s) => normalized_profile(match profile { Some(p) => Some(p@), None => None }) == Some(s@),
            None => normalized_profile(match profile { Some(p) => Some(p@), None => None }) is None,
        },
{
    match profile {
        Some(p) => {
            let t = trim(p);
            if t.unicode_len() == 0 || str_eq(t.as_str(), "default") {
                None
            } else {
                Some(t)
            }
        },
        None => None,
    }
}

/// A URL as it appears in prose, cleaned: white space, then wrapping quotes
/// and brackets, then trailing punctuation removed.
pub open spec fn trimmed_url(raw: Seq<char>) -> Seq<char> {
    strip_end(strip(strip(raw, CharClass::White), CharClass::Wrap), CharClass::Tail)
}

pub fn trim_url(raw: &str) -> (r: String)
    ensures
        r@ == trimmed_url(raw@),
{
    let n = raw.unicode_len();
    let (a, b) = strip_bounds(raw, 0, n, CharClass::White);
    assert(raw@.subrange(0, n as int) =~= raw@);
    let (c, d) = strip_bounds(raw, a, b, CharClass::Wrap);
    let ghost u = raw@.subrange(c as int, d as int);
    let mut e: usize = d;
    while e > c && class_has(CharClass::Tail, raw.get_char(e - 1))
        invariant
            c <= e <= d <= raw@.len(),
            u == raw@.subrange(c as int, d as int),
            forall|j: int| e - c <= j < u.len() ==> in_class(CharClass::Tail, u[j]),
        decreases e,
    {
        e = e - 1;
    }
    proof {
        lemma_trail_from(u, CharClass::Tail, e - c);
        let init = u.subrange(0, e - c);
        if e > c {
            assert(init.last() == raw@[e - 1]);
        }
        assert(raw@.subrange(c as int, e as int) =~= u.subrange(0, u.len() - trail(u, CharClass::Tail)));
    }
    raw.substring_char(c, e).to_owned()
}

} // verus!

verus! {

/// Whether a URL scheme prefix starts at `i`.
pub open spec fn url_at(s: Seq<char>, i: int) -> bool {
    occurs_at(s, "http://"@, i) || occurs_at(s, "https://"@, i)
}

/// Whether a white-space-separated token starts at `i`.
pub open spec fn token_start(s: Seq<char>, i: int) -> bool {
    0 <= i < s.len() && (i == 0 || is_white(s[i - 1])) && !is_white(s[i])
}

/// End of the token that starts at `i`: the next white space, or the end.
pub open spec fn token_end(s: Seq<char>, i: int) -> int
    decreases s.len() - i,
{
    if i >= s.len() || is_white(s[i]) {
        i
    } else {
        token_end(s, i + 1)
    }
}

/// End of the line that holds `i`: the next newline, or the end.
pub open spec fn line_end(s: Seq<char>, i: int) -> int
    decreases s.len() - i,
{
    if i >= s.len() || s[i] == '\n' {
        i
    } else {
        line_end(s, i + 1)
    }
}

/// A line without its carriage return.
pub open spec fn strip_cr(l: Seq<char>) -> Seq<char> {
    if l.len() > 0 && l.last() == '\r' {
        l.drop_last()
    } else {
        l
    }
}

/// The first position of `pat` in `s`.
pub open spec fn first_at(s: Seq<char>, pat: Seq<char>) -> int {
    choose|at: int| occurs_at(s, pat, at) && forall|k: int| 0 <= k < at ==> !occurs_at(s, pat, k)
}

/// The URL a line yields: from its first `http://`, else from its first
/// `https://`, to the end of the line.
pub open spec fn line_url(l: Seq<char>) -> Option<Seq<char>> {
    if occurs(l, "http://"@) {
        Some(trimmed_url(l.subrange(first_at(l, "http://"@), l.len() as int)))
    } else if occurs(l, "https://"@) {
        Some(trimmed_url(l.subrange(first_at(l, "https://"@), l.len() as int)))
    } else {
        None
    }
}

/// The URL of the first line, from the line starting at `i` on, that yields
/// one.
pub open spec fn lines_url(s: Seq<char>, i: int) -> Option<Seq<char>>
    decreases s.len() - i,
{
    if i < 0 || i > s.len() {
        None
    } else {
        let e = line_end(s, i);
        match line_url(strip_cr(s.subrange(i, e))) {
            Some(u) => Some(u),
            None => if e < s.len() && e >= i {
                lines_url(s, e + 1)
            } else {
                None
            },
        }
    }
}

/// The first URL of a text: the first token that starts with a scheme
/// prefix, else the first line that holds one, cleaned by `trimmed_url`.
pub open spec fn first_url(s: Seq<char>) -> Option<Seq<char>> {
    if exists|i: int| token_start(s, i) && url_at(s, i) {
        let i = choose|i: int| token_start(s, i) && url_at(s, i)
            && forall|k: int| 0 <= k < i ==> !(token_start(s, k) && url_at(s, k));
        Some(trimmed_url(s.subrange(i, token_end(s, i))))
    } else {
        lines_url(s, 0)
    }
}

proof fn lemma_token_end(s: Seq<char>, i: int, j: int)
    requires
        0 <= i <= j <= s.len(),
        forall|k: int| i <= k < j ==> !is_white(s[k]),
        j == s.len() || is_white(s[j]),
    ensures
        token_end(s, i) == j,
    decreases j - i,
{
    if i < j {
        lemma_token_end(s, i + 1, j);
    }
}

proof fn lemma_line_end(s: Seq<char>, i: int, j: int)
    requires
        0 <= i <= j <= s.len(),
        forall|k: int| i <= k < j ==> s[k] != '\n',
        j == s.len() || s[j] == '\n',
    ensures
        line_end(s, i) == j,
    decreases j - i,
{
    if i < j {
        lemma_line_end(s, i + 1, j);
    }
}

fn first_match(s: &str, pat: &str) -> (r: Option<usize>)
    ensures
        match r {
            Some(at) => occurs(s@, pat@) && at == first_at(s@, pat@) && at <= s@.len(),
            None => !occurs(s@, pat@),
        },
{
    let r = find(s, pat);
    match r {
        Some(at) => {
            proof {
                let f = first_at(s@, pat@);
                assert(occurs_at(s@, pat@, at as int));
                assert(occurs(s@, pat@));
                if f < at {
                    assert(!occurs_at(s@, pat@, f));
                } else if f > at {
                    assert(!occurs_at(s@, pat@, at as int));
                }
            }
            Some(at)
        },
        None => None,
    }
}

/// The URL a line yields.
fn url_of_line(line: &str) -> (r: Option<String>)
    ensures
        match r {
            Some(u) => line_url(line@) == Some(u@),
            None => line_url(line@) is None,
        },
{
    let n = line.unicode_len();
    match first_match(line, "http://") {
        Some(p) => Some(trim_url(line.substring_char(p, n))),
        None => match first_match(line, "https://") {
            Some(p) => Some(trim_url(line.substring_char(p, n))),
            None => None,
        },
    }
}

/// The URL of the first line of `text` that yields one.
fn url_in_lines(text: &str) -> (r: Option<String>)
    ensures
        match r {
            Some(u) => lines_url(text@, 0) == Some(u@),
            None => lines_url(text@, 0) is None,
        },
{
    let n = text.unicode_len();
    let mut start: usize = 0;
    while start <= n
        invariant
            n == text@.len(),
            start <= n + 1,
            start <= n ==> lines_url(text@, 0) == lines_url(text@, start as int),
            start > n ==> lines_url(text@, 0) is None,
        decreases n + 1 - start,
    {
        let mut e: usize = start;
        while e < n && text.get_char(e) != '\n'
            invariant
                n == text@.len(),
                start <= e <= n,
                forall|k: int| start <= k < e ==> text@[k] != '\n',
            decreases n - e,
        {
            e = e + 1;
        }
        proof {
            lemma_line_end(text@, start as int, e as int);
        }
        let stop = if e > start && text.get_char(e - 1) == '\r' { e - 1 } else { e };
        let line = text.substring_char(start, stop);
        assert(line@ == strip_cr(text@.subrange(start as int, e as int))) by {
            if e > start && text@[e - 1] == '\r' {
                assert(text@.subrange(start as int, e as int).drop_last() =~= text@.subrange(start as int, stop as int));
            }
        }
        match url_of_line(line) {
            Some(u) => {
                return Some(u);
            },
            None => {},
        }
        if e >= n {
            return None;
        }
        start = e + 1;
    }
    None
}

/// The first URL that a command's output mentions.
pub fn extract_first_url(text: &str) -> (r: Option<String>)
    ensures
        match r {
            Some(u) => first_url(text@) == Some(u@),
            None => first_url(text@) is None,
        },
{
    let n = text.unicode_len();
    let mut i: usize = 0;
    while i < n
        invariant
            n == text@.len(),
            i <= n,
            forall|k: int| 0 <= k < i ==> !(token_start(text@, k) && url_at(text@, k)),
        decreases n - i,
    {
        let starts = !white(text.get_char(i)) && (i == 0 || white(text.get_char(i - 1)));
        if starts && (matches_at(text, "http://", i) || matches_at(text, "https://", i)) {
            let mut j: usize = i;
            while j < n && !white(text.get_char(j))
                invariant
                    n == text@.len(),
                    i <= j <= n,
                    forall|k: int| i <= k < j ==> !is_white(text@[k]),
                decreases n - j,
            {
                j = j + 1;
            }
            proof {
                lemma_token_end(text@, i as int, j as int);
                let c = choose|c: int| token_start(text@, c) && url_at(text@, c)
                    && forall|k: int| 0 <= k < c ==> !(token_start(text@, k) && url_at(text@, k));
                assert(token_start(text@, i as int) && url_at(text@, i as int));
                if c < i {
                } else if c > i {
                }
                assert(c == i);
            }
            return Some(trim_url(text.substring_char(i, j)));
        }
        i = i + 1;
    }
    assert(!exists|k: int| token_start(text@, k) && url_at(text@, k));
    url_in_lines(text)
}

} // verus!

verus! {

/// The trimmed, non-empty lines of a text, last line first.
pub open spec fn lines_backward(s: Seq<char>) -> Seq<Seq<char>>
    decreases s.len(),
{
    let k = cut(s);
    let t = strip(s.subrange(k, s.len() as int), CharClass::White);
    (if t.len() > 0 { seq![t] } else { seq![] }) + (if 0 < k <= s.len() {
        lines_backward(s.subrange(0, k - 1))
    } else {
        seq![]
    })
}

pub open spec fn first_index(s: Seq<char>, c: char) -> int {
    choose|i: int| 0 <= i < s.len() && s[i] == c && forall|k: int| 0 <= k < i ==> s[k] != c
}

pub open spec fn last_index(s: Seq<char>, c: char) -> int {
    choose|i: int| 0 <= i < s.len() && s[i] == c && forall|k: int| i < k < s.len() ==> s[k] != c
}

/// From the first `open` to the last `close`, when both occur in that order.
pub open spec fn span(s: Seq<char>, open: char, close: char) -> Seq<Seq<char>> {
    if s.contains(open) && s.contains(close) && last_index(s, close) > first_index(s, open) {
        seq![s.subrange(first_index(s, open), last_index(s, close) + 1)]
    } else {
        seq![]
    }
}

/// The texts of a command's output that may hold its JSON answer, in the
/// order they are tried: the whole trimmed output, its lines from the last
/// one up, the widest `{...}` and `[...]` spans; then the same for the error
/// output, without spans.
pub open spec fn json_candidates_spec(stdout: Seq<char>, stderr: Seq<char>) -> Seq<Seq<char>> {
    let out = strip(stdout, CharClass::White);
    let err = strip(stderr, CharClass::White);
    (if out.len() > 0 {
        seq![out] + lines_backward(out) + span(out, '{', '}') + span(out, '[', ']')
    } else {
        seq![]
    }) + (if err.len() > 0 {
        seq![err] + lines_backward(err)
    } else {
        seq![]
    })
}

fn first_char_index(s: &str, c: char) -> (r: Option<usize>)
    ensures
        match r {
            Some(i) => s@.contains(c) && i == first_index(s@, c) && i < s@.len(),
            None => !s@.contains(c),
        },
{
    let n = s.unicode_len();
    let mut i: usize = 0;
    while i < n
        invariant
            n == s@.len(),
            i <= n,
            forall|k: int| 0 <= k < i ==> s@[k] != c,
        decreases n - i,
    {
        if s.get_char(i) == c {
            proof {
                let f = first_index(s@, c);
                assert(s@.contains(c));
                if f < i {
                } else if f > i {
                    assert(s@[i as int] == c);
                }
            }
            return Some(i);
        }
        i = i + 1;
    }
    None
}

fn last_char_index(s: &str, c: char) -> (r: Option<usize>)
    ensures
        match r {
            Some(i) => s@.contains(c) && i == last_index(s@, c) && i < s@.len(),
            None => !s@.contains(c),
        },
{
    let n = s.unicode_len();
    let mut i: usize = n;
    while i > 0
        invariant
            n == s@.len(),
            i <= n,
            forall|k: int| i <= k < n ==> s@[k] != c,
        decreases i,
    {
        if s.get_char(i - 1) == c {
            proof {
                let l = last_index(s@, c);
                assert(s@[i - 1] == c);
                assert(s@.contains(c));
                if l < i - 1 {
                } else if l > i - 1 {
                }
            }
            return Some(i - 1);
        }
        i = i - 1;
    }
    None
}

fn push_span(out: &mut Vec<String>, s: &str, open: char, close: char)
    ensures
        strings_view(final(out)@) == strings_view(old(out)@) + span(s@, open, close),
{
    let n = s.unicode_len();
    let a = first_char_index(s, open);
    let b = last_char_index(s, close);
    match (a, b) {
        (Some(a), Some(b)) => if b > a {
            out.push(s.substring_char(a, b + 1).to_owned());
            assert(strings_view(out@) =~= strings_view(old(out)@) + span(s@, open, close));
        } else {
            assert(strings_view(out@) =~= strings_view(old(out)@) + span(s@, open, close));
        },
        _ => {
            assert(strings_view(out@) =~= strings_view(old(out)@) + span(s@, open, close));
        },
    }
}

fn push_lines_backward(out: &mut Vec<String>, s: &str)
    ensures
        strings_view(final(out)@) == strings_view(old(out)@) + lines_backward(s@),
{
    let mut e: usize = s.unicode_len();
    let ghost start = strings_view(out@);
    let mut done = false;
    assert(s@.subrange(0, e as int) =~= s@);
    assert(start + lines_backward(s@) == strings_view(out@) + lines_backward(s@.subrange(0, e as int)));
    while !done
        invariant
            e <= s@.len(),
            !done ==> start + lines_backward(s@) == strings_view(out@) + lines_backward(s@.subrange(0, e as int)),
            done ==> start + lines_backward(s@) == strings_view(out@),
        decreases (if done { 0 } else { e + 1 }),
    {
        let ghost rem = s@.subrange(0, e as int);
        let mut j: usize = e;
        while j > 0 && s.get_char(j - 1) != '\n'
            invariant
                j <= e <= s@.len(),
                rem == s@.subrange(0, e as int),
                forall|k: int| j <= k < e ==> s@[k] != '\n',
            decreases j,
        {
            j = j - 1;
        }
        proof {
            let p = rem.subrange(0, j as int);
            let l = rem.subrange(j as int, e as int);
            assert(rem =~= p + l);
            assert(at_boundary(p)) by {
                if j > 0 {
                    assert(p.last() == s@[j - 1]);
                }
            }
            assert(no_newline(l)) by {
                assert forall|i: int| 0 <= i < l.len() implies l[i] != '\n' by {
                    assert(l[i] == s@[j + i]);
                }
            }
            lemma_last_nl_concat(p, l);
            assert(cut(rem) == j);
        }
        let seg = s.substring_char(j, e);
        let t = trim(seg);
        let ghost before = strings_view(out@);
        if t.unicode_len() > 0 {
            out.push(t);
            assert(strings_view(out@) =~= before.push(t@));
        }
        proof {
            assert(rem.subrange(j as int, rem.len() as int) =~= seg@);
            if j > 0 {
                assert(rem.subrange(0, j - 1) =~= s@.subrange(0, j - 1));
            }
        }
        if j == 0 {
            done = true;
            assert(strings_view(out@) =~= before + lines_backward(rem));
        } else {
            e = j - 1;
            assert(strings_view(out@) + lines_backward(s@.subrange(0, e as int)) =~= before + lines_backward(rem));
        }
    }
}

#[verifier::rlimit(60)]
fn push_output_candidates(r: &mut Vec<String>, stdout: &str)
    ensures
        strings_view(final(r)@) == strings_view(old(r)@) + ({
            let out = strip(stdout@, CharClass::White);
            if out.len() > 0 {
                seq![out] + lines_backward(out) + span(out, '{', '}') + span(out, '[', ']')
            } else {
                seq![]
            }
        }),
{
    let ghost r0 = strings_view(r@);
    let out = trim(stdout);
    if out.unicode_len() > 0 {
        let ghost lines = lines_backward(out@);
        let ghost braces = span(out@, '{', '}');
        let ghost brackets = span(out@, '[', ']');
        r.push(out.clone());
        let ghost r1 = strings_view(r@);
        assert(r1 =~= r0 + seq![out@]);
        push_lines_backward(r, out.as_str());
        let ghost r2 = strings_view(r@);
        assert(r2 == r1 + lines);
        push_span(r, out.as_str(), '{', '}');
        let ghost r3 = strings_view(r@);
        assert(r3 == r2 + braces);
        push_span(r, out.as_str(), '[', ']');
        assert(strings_view(r@) == r3 + brackets);
        assert(strings_view(r@) =~= r0 + (seq![out@] + lines + braces + brackets));
    } else {
        assert(strings_view(r@) =~= r0 + Seq::<Seq<char>>::empty());
    }
}

fn push_error_candidates(r: &mut Vec<String>, stderr: &str)
    ensures
        strings_view(final(r)@) == strings_view(old(r)@) + ({
            let err = strip(stderr@, CharClass::White);
            if err.len() > 0 {
                seq![err] + lines_backward(err)
            } else {
                seq![]
            }
        }),
{
    let ghost r0 = strings_view(r@);
    let err = trim(stderr);
    if err.unicode_len() > 0 {
        r.push(err.clone());
        assert(strings_view(r@) =~= r0 + seq![err@]);
        push_lines_backward(r, err.as_str());
        assert(strings_view(r@) =~= r0 + (seq![err@] + lines_backward(err@)));
    } else {
        assert(strings_view(r@) =~= r0 + Seq::<Seq<char>>::empty());
    }
}

/// The candidate texts, in order, that may hold a command's JSON answer.
pub fn json_candidates(stdout: &str, stderr: &str) -> (r: Vec<String>)
    ensures
        strings_view(r@) == json_candidates_spec(stdout@, stderr@),
{
    let mut r: Vec<String> = Vec::new();
    assert(strings_view(r@) =~= Seq::<Seq<char>>::empty());
    push_output_candidates(&mut r, stdout);
    push_error_candidates(&mut r, stderr);
    r
}

} // verus!

verus! {

/// The decoded query pairs of a URL, if the text parses as one.
pub uninterp spec fn url_query(raw: Seq<char>) -> Option<Seq<(Seq<char>, Seq<char>)>>;

pub open spec fn pairs_view(v: Seq<(String, String)>) -> Seq<(Seq<char>, Seq<char>)> {
    v.map_values(|p: (String, String)| (p.0@, p.1@))
}

/// Relies on `url::Url::parse` and `Url::query_pairs`: the decoded
/// key-value pairs of the URL's query, in order.
#[verifier::external_body]
fn query_pairs(raw: &str) -> (r: Option<Vec<(String, String)>>)
    ensures
        match r {
            Some(v) => url_query(raw@) == Some(pairs_view(v@)),
            None => url_query(raw@) is None,
        },
{
    url::Url::parse(raw).ok().map(|u| u.query_pairs().map(|(k, v)| (k.into_owned(), v.into_owned())).collect())
}

/// A key that names a token: `token`, or any key ending in it, in any case.
pub open spec fn token_key(k: Seq<char>) -> bool {
    let l = lower_of(k);
    l == "token"@ || (l.len() >= 5 && l.subrange(l.len() - 5, l.len() as int) == "token"@)
}

/// The first pair from `i` on with a token key and a non-blank value; its
/// trimmed value.
pub open spec fn token_from(pairs: Seq<(Seq<char>, Seq<char>)>, i: int) -> Option<Seq<char>>
    decreases pairs.len() - i,
{
    if i < 0 || i >= pairs.len() {
        None
    } else if token_key(pairs[i].0) && strip(pairs[i].1, CharClass::White).len() > 0 {
        Some(strip(pairs[i].1, CharClass::White))
    } else {
        token_from(pairs, i + 1)
    }
}

fn is_token_key(k: &str) -> (r: bool)
    ensures
        r == token_key(k@),
{
    let l = to_lower(k);
    let n = l.unicode_len();
    str_eq(l.as_str(), "token") || (n >= 5 && str_eq(l.as_str().substring_char(n - 5, n), "token"))
}

/// The access token that a dashboard URL carries in its query.
pub fn token_from_url(raw: &str) -> (r: Option<String>)
    ensures
        match r {
            Some(t) => url_query(raw@) is Some && token_from(url_query(raw@)->Some_0, 0) == Some(t@),
            None => url_query(raw@) is None || token_from(url_query(raw@)->Some_0, 0) is None,
        },
{
    let pairs = match query_pairs(raw) {
        Some(p) => p,
        None => return None,
    };
    let ghost view = pairs_view(pairs@);
    let mut i: usize = 0;
    while i < pairs.len()
        invariant
            i <= pairs@.len(),
            view == pairs_view(pairs@),
            url_query(raw@) == Some(view),
            token_from(view, 0) == token_from(view, i as int),
        decreases pairs@.len() - i,
    {
        let (k, v) = &pairs[i];
        assert(view[i as int] == (k@, v@));
        if is_token_key(k.as_str()) {
            let t = trim(v.as_str());
            if t.unicode_len() > 0 {
                return Some(t);
            }
        }
        i = i + 1;
    }
    None
}

} // verus!
