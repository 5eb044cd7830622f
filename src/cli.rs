//! Decisions of the command-line client: endpoint URLs, `KEY=VALUE`
//! arguments, `.env` lookups, and the pairing poll loop.

use vstd::prelude::*;

use crate::text::{chars_of, text_eq, trim, trim_end_char, trim_end_matches, trim_start_char, trim_start_matches, trimmed, view_opt};

verus! {

/// How many times the client polls a challenge before giving up.
pub const POLL_ATTEMPTS: u32 = 100;

/// Seconds between two polls.
pub const POLL_INTERVAL_SECS: u64 = 3;

pub open spec fn ends_with(s: Seq<char>, suffix: Seq<char>) -> bool {
    suffix.len() <= s.len() && s.skip(s.len() - suffix.len()) == suffix
}

/// The URLs to try, in order, for the `/v1` route `path` of the service at
/// `base_url`: behind an `/api` prefix only where the base does not already
/// end in it.
pub open spec fn v1_urls(base_url: Seq<char>, path: Seq<char>) -> Seq<Seq<char>> {
    let base = trim_end_char(base_url, '/');
    let route = trim_start_char(path, '/');
    if ends_with(base, "/api"@) {
        seq![base + "/v1/"@ + route]
    } else {
        seq![base + "/api/v1/"@ + route, base + "/v1/"@ + route]
    }
}

fn str_ends_with(s: &str, suffix: &str) -> (r: bool)
    ensures
        r == ends_with(s@, suffix@),
{
    let n = s.unicode_len();
    let m = suffix.unicode_len();
    if m > n {
        return false;
    }
    text_eq(s.substring_char(n - m, n), suffix)
}

/// The URLs to try for a `/v1` route of the service at `base_url`.
pub fn resolve_v1_urls(base_url: &str, path: &str) -> (r: Vec<String>)
    ensures
        r@.len() == v1_urls(base_url@, path@).len(),
        forall|i: int| 0 <= i < r@.len() ==> (#[trigger] r@[i])@ == v1_urls(base_url@, path@)[i],
{
    let base = trim_end_matches(base_url, '/');
    let route = trim_start_matches(path, '/');
    let mut out: Vec<String> = Vec::new();
    if str_ends_with(base.as_str(), "/api") {
        out.push(base.concat("/v1/").concat(route.as_str()));
    } else {
        out.push(base.clone().concat("/api/v1/").concat(route.as_str()));
        out.push(base.concat("/v1/").concat(route.as_str()));
    }
    out
}

/// The index of the first `c` in `s`, if any.
pub open spec fn first_index(s: Seq<char>, c: char) -> Option<int>
    decreases s.len(),
{
    if s.len() == 0 {
        None
    } else if s[0] == c {
        Some(0)
    } else {
        match first_index(s.drop_first(), c) {
            Some(i) => Some(i + 1),
            None => None,
        }
    }
}

fn find_char(cs: &Vec<char>, from: usize, to: usize, c: char) -> (r: Option<usize>)
    requires
        from <= to <= cs@.len(),
    ensures
        match first_index(cs@.subrange(from as int, to as int), c) {
            Some(i) => r == Some((from + i) as usize),
            None => r is None,
        },
{
    let mut j: usize = from;
    while j < to
        invariant
            from <= j <= to <= cs@.len(),
            forall|k: int| from <= k < j ==> cs@[k] != c,
        decreases to - j,
    {
        if cs[j] == c {
            proof {
                lemma_first_index(cs@.subrange(from as int, to as int), c, (j - from) as int);
            }
            return Some(j);
        }
        j = j + 1;
    }
    proof {
        lemma_first_index_none(cs@.subrange(from as int, to as int), c);
    }
    None
}

proof fn lemma_first_index(s: Seq<char>, c: char, i: int)
    requires
        0 <= i < s.len(),
        s[i] == c,
        forall|k: int| 0 <= k < i ==> s[k] != c,
    ensures
        first_index(s, c) == Some(i),
    decreases i,
{
    if i > 0 {
        lemma_first_index(s.drop_first(), c, i - 1);
    }
}

proof fn lemma_first_index_none(s: Seq<char>, c: char)
    requires
        forall|k: int| 0 <= k < s.len() ==> s[k] != c,
    ensures
        first_index(s, c) is None,
    decreases s.len(),
{
    if s.len() > 0 {
        lemma_first_index_none(s.drop_first(), c);
    }
}

/// Splits a `KEY=VALUE` argument at its first `=`.
pub open spec fn key_val_of(s: Seq<char>) -> Option<(Seq<char>, Seq<char>)> {
    match first_index(s, '=') {
        Some(p) => Some((s.take(p), s.skip(p + 1))),
        None => None,
    }
}

/// Splits a `KEY=VALUE` argument at its first `=`; refuses one without.
pub fn parse_key_val(s: &str) -> (r: Result<(String, String), String>)
    ensures
        match key_val_of(s@) {
            Some((k, v)) => r matches Ok(p) && p.0@ == k && p.1@ == v,
            None => r matches Err(m) && m@ == "must be KEY=VALUE"@,
        },
{
    let cs = chars_of(s);
    let n = cs.len();
    match find_char(&cs, 0, n, '=') {
        Some(p) => {
            proof {
                assert(cs@.subrange(0, n as int) =~= s@);
                lemma_first_index_bound(s@, '=');
            }
            Ok((s.substring_char(0, p).to_owned(), s.substring_char(p + 1, n).to_owned()))
        },
        None => {
            proof {
                assert(cs@.subrange(0, n as int) =~= s@);
            }
            Err(String::from_str("must be KEY=VALUE"))
        },
    }
}

/// What one line of a `.env` file says about a key.
pub enum LineVerdict {
    /// Blank, a comment, another key, or an empty value.
    Skip,
    /// A line with no `=`: the search ends with nothing.
    Stop,
    /// The value of the key.
    Found(Seq<char>),
}

/// A value without the matching quotes around it, trimmed again; a lone
/// quote is empty.
pub open spec fn unquoted(v: Seq<char>) -> Seq<char> {
    if v.len() >= 2 && ((v[0] == '"' && v.last() == '"') || (v[0] == '\'' && v.last() == '\'')) {
        trimmed(v.subrange(1, v.len() - 1))
    } else if v.len() == 1 && (v[0] == '"' || v[0] == '\'') {
        Seq::empty()
    } else {
        v
    }
}

pub open spec fn line_verdict(line: Seq<char>, key: Seq<char>) -> LineVerdict {
    let t = trimmed(line);
    if t.len() == 0 || t[0] == '#' {
        LineVerdict::Skip
    } else {
        match first_index(t, '=') {
            None => LineVerdict::Stop,
            Some(p) => if trimmed(t.take(p)) != key {
                LineVerdict::Skip
            } else if unquoted(trimmed(t.skip(p + 1))).len() == 0 {
                LineVerdict::Skip
            } else {
                LineVerdict::Found(unquoted(trimmed(t.skip(p + 1))))
            },
        }
    }
}

/// The value of `key` in `.env` text: the first line that gives it a
/// non-empty value wins; a line with no `=` ends the search.
pub open spec fn env_value(content: Seq<char>, key: Seq<char>) -> Option<Seq<char>>
    decreases content.len(),
{
    let end = match first_index(content, '\n') {
        Some(i) => i,
        None => content.len() as int,
    };
    match line_verdict(content.take(end), key) {
        LineVerdict::Found(v) => Some(v),
        LineVerdict::Stop => None,
        LineVerdict::Skip => if 0 <= end < content.len() {
            env_value(content.skip(end + 1), key)
        } else {
            None
        },
    }
}

proof fn lemma_first_index_bound(s: Seq<char>, c: char)
    ensures
        first_index(s, c) matches Some(i) ==> 0 <= i < s.len() && s[i] == c,
    decreases s.len(),
{
    if s.len() > 0 {
        lemma_first_index_bound(s.drop_first(), c);
    }
}

fn unquote(v: String) -> (r: String)
    ensures
        r@ == unquoted(v@),
{
    let n = v.as_str().unicode_len();
    if n >= 2 {
        let a = v.as_str().get_char(0);
        let b = v.as_str().get_char(n - 1);
        if (a == '"' && b == '"') || (a == '\'' && b == '\'') {
            return trim(v.as_str().substring_char(1, n - 1));
        }
    } else if n == 1 {
        let a = v.as_str().get_char(0);
        if a == '"' || a == '\'' {
            return String::new();
        }
    }
    v
}

enum LineOutcome {
    Skip,
    Stop,
    Found(String),
}

fn judge_line(line: &str, key: &str) -> (r: LineOutcome)
    ensures
        match line_verdict(line@, key@) {
            LineVerdict::Skip => r is Skip,
            LineVerdict::Stop => r is Stop,
            LineVerdict::Found(v) => r matches LineOutcome::Found(x) && x@ == v,
        },
{
    let t = trim(line);
    let n = t.as_str().unicode_len();
    if n == 0 || t.as_str().get_char(0) == '#' {
        return LineOutcome::Skip;
    }
    let cs = chars_of(t.as_str());
    proof {
        assert(cs@.subrange(0, n as int) =~= cs@);
    }
    let p = match find_char(&cs, 0, n, '=') {
        Some(p) => p,
        None => return LineOutcome::Stop,
    };
    proof {
        lemma_first_index_bound(t@, '=');
    }
    let k = trim(t.as_str().substring_char(0, p));
    if !text_eq(k.as_str(), key) {
        return LineOutcome::Skip;
    }
    let v = unquote(trim(t.as_str().substring_char(p + 1, n)));
    if v.as_str().unicode_len() == 0 {
        return LineOutcome::Skip;
    }
    LineOutcome::Found(v)
}

/// The value of `key` in the text of a `.env` file.
pub fn parse_env_value(content: &str, key: &str) -> (r: Option<String>)
    ensures
        view_opt(r) == env_value(content@, key@),
{
    let cs = chars_of(content);
    let n = cs.len();
    let mut start: usize = 0;
    assert(content@.skip(0) =~= content@);
    while start <= n
        invariant
            cs@ == content@,
            n == cs@.len(),
            start <= n,
            env_value(content@, key@) == env_value(content@.skip(start as int), key@),
        decreases n + 1 - start,
    {
        let ghost rest = content@.skip(start as int);
        let end = match find_char(&cs, start, n, '\n') {
            Some(e) => e,
            None => n,
        };
        proof {
            assert(cs@.subrange(start as int, n as int) =~= rest);
            lemma_first_index_bound(rest, '\n');
            assert(rest.take(end - start) =~= content@.subrange(start as int, end as int));
        }
        let line = content.substring_char(start, end);
        match judge_line(line, key) {
            LineOutcome::Found(v) => return Some(v),
            LineOutcome::Stop => return None,
            LineOutcome::Skip => {},
        }
        if end == n {
            return None;
        }
        proof {
            assert(rest.skip(end - start + 1) =~= content@.skip(end + 1));
        }
        start = end + 1;
    }
    None
}

/// What the client does with one poll reply.
#[derive(Clone, Debug)]
pub enum PollStep {
    /// Approved: log in with this token.
    LoggedIn(String),
    /// Approved, yet no token came with it.
    MissingToken,
    Denied,
    Expired,
    /// Still pending: wait and poll again.
    Wait,
    /// A status the protocol does not know.
    Unexpected,
}

/// Decides on one poll reply: `denied` and `expired` end the wait at once.
pub fn poll_step(status: &str, session_token: Option<String>) -> (r: PollStep)
    ensures
        status@ == "approved"@ ==> match session_token {
            Some(t) => r matches PollStep::LoggedIn(x) && x == t,
            None => r matches PollStep::MissingToken,
        },
        status@ == "denied"@ ==> r matches PollStep::Denied,
        status@ == "expired"@ ==> r matches PollStep::Expired,
        status@ == "pending"@ ==> r matches PollStep::Wait,
        status@ != "approved"@ && status@ != "denied"@ && status@ != "expired"@ && status@
            != "pending"@ ==> r matches PollStep::Unexpected,
{
    proof {
        reveal_strlit("approved");
        reveal_strlit("denied");
        reveal_strlit("expired");
        reveal_strlit("pending");
        assert("approved"@[0] == 'a' && "denied"@[0] == 'd' && "expired"@[0] == 'e'
            && "pending"@[0] == 'p');
    }
    if text_eq(status, "approved") {
        match session_token {
            Some(t) => PollStep::LoggedIn(t),
            None => PollStep::MissingToken,
        }
    } else if text_eq(status, "denied") {
        PollStep::Denied
    } else if text_eq(status, "expired") {
        PollStep::Expired
    } else if text_eq(status, "pending") {
        PollStep::Wait
    } else {
        PollStep::Unexpected
    }
}

} // verus!
