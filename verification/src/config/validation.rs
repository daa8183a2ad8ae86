//! Configuration errors, duration parsing and `${VAR}` expansion.
use vstd::prelude::*;
use crate::storage::error::join_text;
use crate::tags::TagMap;
use crate::text::{char_is_space, chars_of, is_digit, is_space, trim, trim_str};
use crate::time::Duration;

verus! {

broadcast use vstd::string::group_string_axioms;

/// Configuration error types.
#[derive(Debug)]
pub enum ConfigError {
    /// Failed to read the configuration file (the reason as text).
    IoError(String),
    /// Failed to parse the YAML configuration (the reason as text).
    ParseError(String),
    /// Configuration validation failed.
    ValidationError(String),
}

/// The message of a configuration error.
pub open spec fn config_error_text(e: ConfigError) -> Seq<char> {
    match e {
        ConfigError::IoError(m) => "failed to read config file: "@ + m@,
        ConfigError::ParseError(m) => "failed to parse YAML config: "@ + m@,
        ConfigError::ValidationError(m) => "config validation error: "@ + m@,
    }
}

impl ConfigError {
    /// The message of the error.
    pub fn to_string(&self) -> (s: String)
        ensures
            s@ == config_error_text(*self),
    {
        match self {
            ConfigError::IoError(m) => join_text("failed to read config file: ", m.as_str()),
            ConfigError::ParseError(m) => join_text("failed to parse YAML config: ", m.as_str()),
            ConfigError::ValidationError(m) => join_text("config validation error: ", m.as_str()),
        }
    }
}

/// The number of significant decimal digits in `s`: the digits of each
/// run of digits and whitespace from its first non-zero digit on.
pub open spec fn significant_digits(s: Seq<char>) -> nat {
    significant_digits_from(s, false)
}

/// The significant digits of `s`, `started` telling whether a non-zero
/// digit has already been seen in the current run.
pub open spec fn significant_digits_from(s: Seq<char>, started: bool) -> nat
    decreases s.len(),
{
    if s.len() == 0 {
        0
    } else if is_digit(s[0]) {
        let now = started || s[0] != '0';
        (if now {
            1nat
        } else {
            0nat
        }) + significant_digits_from(s.drop_first(), now)
    } else if is_space(s[0]) {
        significant_digits_from(s.drop_first(), started)
    } else {
        significant_digits_from(s.drop_first(), false)
    }
}

/// The most significant decimal digits a duration text may hold.
pub const MAX_DURATION_DIGITS: usize = 11;

/// The number of significant decimal digits in `s` once trimmed.
pub fn count_significant_digits(s: &str) -> (n: usize)
    ensures
        n == significant_digits(trim(s@)),
{
    let v = chars_of(trim_str(s));
    let len = v.len();
    let mut n: usize = 0;
    let mut started = false;
    let mut k: usize = 0;
    proof {
        assert(v@.skip(0) =~= v@);
    }
    while k < len
        invariant
            v@ == trim(s@),
            len == v@.len(),
            k <= len,
            n <= k,
            n + significant_digits_from(v@.skip(k as int), started) == significant_digits(v@),
        decreases len - k,
    {
        let c = v[k];
        proof {
            assert(v@.skip(k as int)[0] == c);
            assert(v@.skip(k as int).drop_first() =~= v@.skip(k + 1));
        }
        if '0' <= c && c <= '9' {
            started = started || c != '0';
            if started {
                n = n + 1;
            }
        } else if !char_is_space(c) {
            started = false;
        }
        k = k + 1;
    }
    proof {
        assert(v@.skip(len as int).len() == 0);
    }
    n
}

/// What `humantime::parse_duration` gives for a text: the span in
/// nanoseconds, or the displayed error.
pub uninterp spec fn humantime_duration(text: Seq<char>) -> Result<nat, Seq<char>>;

/// Calls `humantime::parse_duration`; its outcome is named
/// `humantime_duration` of the text. The call panics where its running
/// sum reaches exactly `u64::MAX` seconds with a whole second of
/// nanoseconds not yet carried. Each number it reads (a count, or the
/// digits after a decimal point) lies in one run of digits and whitespace
/// and is below ten to the power of that run's significant digits; a part
/// whose numbers are all zero adds nothing. So with at most eleven
/// significant digits the sum stays under a fifth of `u64::MAX` seconds,
/// and the call returns on every text admitted here.
#[verifier::external_body]
fn humantime_parse(text: &str) -> (r: Result<Duration, String>)
    requires
        significant_digits(text@) <= MAX_DURATION_DIGITS,
    ensures
        match (r, humantime_duration(text@)) {
            (Ok(d), Ok(n)) => d@ == n,
            (Err(m), Err(e)) => m@ == e,
            _ => false,
        },
{
    match humantime::parse_duration(text) {
        Ok(d) => Ok(Duration::new(d.as_secs(), d.subsec_nanos())),
        Err(e) => Err(e.to_string()),
    }
}

/// What `parse_duration` gives: an error for blank text, otherwise what
/// `humantime` makes of the trimmed text.
pub open spec fn duration_outcome(s: Seq<char>) -> Result<nat, Seq<char>> {
    if trim(s).len() == 0 {
        Err("duration string is empty"@)
    } else {
        humantime_duration(trim(s))
    }
}

/// Parse a duration such as `30s`, `1m`, `1h30m`, `100ms` or `2h 30m`
/// (surrounding whitespace is ignored). The trimmed text holds at most
/// `MAX_DURATION_DIGITS` significant decimal digits.
///
/// # Errors
/// `duration string is empty` for blank text; otherwise the reason the
/// text is not a duration.
pub fn parse_duration(s: &str) -> (r: Result<Duration, String>)
    requires
        significant_digits(trim(s@)) <= MAX_DURATION_DIGITS,
    ensures
        match (r, duration_outcome(s@)) {
            (Ok(d), Ok(n)) => d@ == n,
            (Err(m), Err(e)) => m@ == e,
            _ => false,
        },
{
    let t = trim_str(s);
    if t.unicode_len() == 0 {
        return Err(String::from_str("duration string is empty"));
    }
    humantime_parse(t)
}

/// Whether `c` may start a variable name.
pub open spec fn is_name_start(c: char) -> bool {
    ('a' <= c && c <= 'z') || ('A' <= c && c <= 'Z') || c == '_'
}

/// Whether `c` may continue a variable name.
pub open spec fn is_name_char(c: char) -> bool {
    is_name_start(c) || ('0' <= c && c <= '9')
}

/// The end of the run of name characters that starts at `j`.
pub open spec fn name_end(s: Seq<char>, j: int) -> int
    decreases s.len() - j,
{
    if 0 <= j < s.len() && is_name_char(s[j]) {
        name_end(s, j + 1)
    } else {
        j
    }
}

/// The position of the first `}` at or after `j` (the length if none).
pub open spec fn brace_from(s: Seq<char>, j: int) -> int
    decreases s.len() - j,
{
    if 0 <= j < s.len() && s[j] != '}' {
        brace_from(s, j + 1)
    } else {
        j
    }
}

pub proof fn lemma_name_end_bounds(s: Seq<char>, j: int)
    requires
        0 <= j <= s.len(),
    ensures
        j <= name_end(s, j) <= s.len(),
        forall|k: int| j <= k < name_end(s, j) ==> is_name_char(#[trigger] s[k]),
        name_end(s, j) < s.len() ==> !is_name_char(s[name_end(s, j)]),
    decreases s.len() - j,
{
    if j < s.len() && is_name_char(s[j]) {
        lemma_name_end_bounds(s, j + 1);
    }
}

pub proof fn lemma_brace_from_bounds(s: Seq<char>, j: int)
    requires
        0 <= j <= s.len(),
    ensures
        j <= brace_from(s, j) <= s.len(),
        forall|k: int| j <= k < brace_from(s, j) ==> #[trigger] s[k] != '}',
        brace_from(s, j) < s.len() ==> s[brace_from(s, j)] == '}',
    decreases s.len() - j,
{
    if j < s.len() && s[j] != '}' {
        lemma_brace_from_bounds(s, j + 1);
    }
}

/// The reference `${NAME}` or `${NAME:-DEFAULT}` that starts at `i`, if
/// one does: the position after its `}`, the name, and the default.
pub open spec fn var_ref_at(s: Seq<char>, i: int) -> Option<(int, Seq<char>, Option<Seq<char>>)> {
    if 0 <= i && i + 2 < s.len() && s[i] == '$' && s[i + 1] == '{' && is_name_start(s[i + 2]) {
        let e = name_end(s, i + 3);
        if e < s.len() && s[e] == '}' {
            Some((e + 1, s.subrange(i + 2, e), None))
        } else if e + 1 < s.len() && s[e] == ':' && s[e + 1] == '-' && brace_from(s, e + 2) < s.len() {
            let k = brace_from(s, e + 2);
            Some((k + 1, s.subrange(i + 2, e), Some(s.subrange(e + 2, k))))
        } else {
            None
        }
    } else {
        None
    }
}

pub proof fn lemma_var_ref_bounds(s: Seq<char>, i: int)
    requires
        0 <= i < s.len(),
    ensures
        var_ref_at(s, i) matches Some((end, name, d)) ==> i < end <= s.len(),
{
    if 0 <= i && i + 2 < s.len() && s[i] == '$' && s[i + 1] == '{' && is_name_start(s[i + 2]) {
        lemma_name_end_bounds(s, i + 3);
        let e = name_end(s, i + 3);
        if e + 2 <= s.len() {
            lemma_brace_from_bounds(s, e + 2);
        }
    }
}

/// The value put in place of a reference: the variable's value when it
/// is set, else the default, else nothing.
pub open spec fn var_value(
    env: Map<Seq<char>, Seq<char>>,
    name: Seq<char>,
    default: Option<Seq<char>>,
) -> Seq<char> {
    if env.contains_key(name) {
        env[name]
    } else {
        match default {
            Some(d) => d,
            None => Seq::empty(),
        }
    }
}

/// `s` from position `i` on, with each reference replaced, scanning left
/// to right and resuming after each replaced reference.
pub open spec fn expand_from(s: Seq<char>, env: Map<Seq<char>, Seq<char>>, i: int) -> Seq<char>
    decreases s.len() - i,
{
    if i < 0 || i >= s.len() {
        Seq::empty()
    } else {
        match var_ref_at(s, i) {
            Some((end, name, d)) => {
                proof {
                    lemma_var_ref_bounds(s, i);
                }
                var_value(env, name, d) + expand_from(s, env, end)
            },
            None => seq![s[i]] + expand_from(s, env, i + 1),
        }
    }
}

/// Whether `n` has the form of a variable name: an ASCII letter or `_`,
/// then ASCII letters, digits and `_`.
pub open spec fn is_variable_name(n: Seq<char>) -> bool {
    &&& n.len() > 0
    &&& ('a' <= n[0] && n[0] <= 'z') || ('A' <= n[0] && n[0] <= 'Z') || n[0] == '_'
    &&& forall|k: int|
        1 <= k < n.len() ==> ('a' <= #[trigger] n[k] && n[k] <= 'z') || ('A' <= n[k] && n[k] <= 'Z') || (
        '0' <= n[k] && n[k] <= '9') || n[k] == '_'
}

proof fn lemma_name_end_of_reference(s: Seq<char>, n: Seq<char>, j: int)
    requires
        is_variable_name(n),
        s == seq!['$', '{'] + n + seq!['}'],
        3 <= j <= n.len() + 2,
    ensures
        name_end(s, j) == n.len() + 2,
    decreases n.len() + 2 - j,
{
    if j < n.len() + 2 {
        assert(s[j] == n[j - 2]);
        lemma_name_end_of_reference(s, n, j + 1);
    } else {
        assert(s[j] == '}');
    }
}

/// A reference `${NAME}` to any variable name is replaced by the
/// variable's value when it is set, and by nothing when it is not.
pub proof fn lemma_expand_reference(n: Seq<char>, env: Map<Seq<char>, Seq<char>>)
    requires
        is_variable_name(n),
    ensures
        env.contains_key(n) ==> expand_from(seq!['$', '{'] + n + seq!['}'], env, 0) == env[n],
        !env.contains_key(n) ==> expand_from(seq!['$', '{'] + n + seq!['}'], env, 0) == Seq::<char>::empty(),
{
    let s = seq!['$', '{'] + n + seq!['}'];
    assert(s[0] == '$' && s[1] == '{' && s[2] == n[0]);
    lemma_name_end_of_reference(s, n, 3);
    let e: int = n.len() as int + 2;
    assert(s[e] == '}');
    assert(s.subrange(2, e) =~= n);
    assert(var_ref_at(s, 0) == Some((e + 1, n, None::<Seq<char>>)));
    assert(expand_from(s, env, e + 1) == Seq::<char>::empty());
    assert(expand_from(s, env, 0) == var_value(env, n, None) + expand_from(s, env, e + 1));
    assert(var_value(env, n, None) + Seq::<char>::empty() =~= var_value(env, n, None));
}

proof fn lemma_name_end_before_default(s: Seq<char>, n: Seq<char>, d: Seq<char>, j: int)
    requires
        is_variable_name(n),
        s == seq!['$', '{'] + n + seq![':', '-'] + d + seq!['}'],
        3 <= j <= n.len() + 2,
    ensures
        name_end(s, j) == n.len() + 2,
    decreases n.len() + 2 - j,
{
    if j < n.len() + 2 {
        assert(s[j] == n[j - 2]);
        lemma_name_end_before_default(s, n, d, j + 1);
    } else {
        assert(s[j] == ':');
    }
}

proof fn lemma_brace_after_default(s: Seq<char>, d: Seq<char>, start: int, j: int)
    requires
        s.len() == start + d.len() + 1,
        s.subrange(start, start + d.len()) == d,
        s[start + d.len()] == '}',
        forall|k: int| 0 <= k < d.len() ==> #[trigger] d[k] != '}',
        0 <= start <= j <= start + d.len(),
    ensures
        brace_from(s, j) == start + d.len(),
    decreases start + d.len() - j,
{
    if j < start + d.len() {
        assert(s[j] == s.subrange(start, start + d.len())[j - start]);
        lemma_brace_after_default(s, d, start, j + 1);
    }
}

/// A reference `${NAME:-DEFAULT}` to any variable name, with a default
/// that holds no `}`, is replaced by the variable's value when it is set,
/// and by the default when it is not.
pub proof fn lemma_expand_reference_with_default(n: Seq<char>, d: Seq<char>, env: Map<Seq<char>, Seq<char>>)
    requires
        is_variable_name(n),
        forall|k: int| 0 <= k < d.len() ==> #[trigger] d[k] != '}',
    ensures
        env.contains_key(n) ==> expand_from(seq!['$', '{'] + n + seq![':', '-'] + d + seq!['}'], env, 0)
            == env[n],
        !env.contains_key(n) ==> expand_from(seq!['$', '{'] + n + seq![':', '-'] + d + seq!['}'], env, 0)
            == d,
{
    let s = seq!['$', '{'] + n + seq![':', '-'] + d + seq!['}'];
    assert(s[0] == '$' && s[1] == '{' && s[2] == n[0]);
    lemma_name_end_before_default(s, n, d, 3);
    let e: int = n.len() as int + 2;
    assert(s[e] == ':' && s[e + 1] == '-');
    assert(s.subrange(e + 2, e + 2 + d.len()) =~= d);
    lemma_brace_after_default(s, d, e + 2, e + 2);
    let k: int = e + 2 + d.len();
    assert(s[k] == '}');
    assert(s.subrange(2, e) =~= n);
    assert(var_ref_at(s, 0) == Some((k + 1, n, Some(d))));
    assert(expand_from(s, env, k + 1) == Seq::<char>::empty());
    assert(expand_from(s, env, 0) == var_value(env, n, Some(d)) + expand_from(s, env, k + 1));
    assert(var_value(env, n, Some(d)) + Seq::<char>::empty() =~= var_value(env, n, Some(d)));
}

/// Whether `c` may continue a variable name.
fn char_is_name_char(c: char) -> (b: bool)
    ensures
        b == is_name_char(c),
{
    ('a' <= c && c <= 'z') || ('A' <= c && c <= 'Z') || c == '_' || ('0' <= c && c <= '9')
}

/// Exec form of `var_ref_at`: the end, the end of the name, and the
/// bounds of the default.
fn var_ref(v: &Vec<char>, i: usize) -> (r: Option<(usize, usize, Option<(usize, usize)>)>)
    requires
        i < v.len(),
    ensures
        match var_ref_at(v@, i as int) {
            None => r is None,
            Some((end, name, d)) => r matches Some((e2, ne, d2)) && e2 == end && i + 2 <= ne
                <= v.len() && v@.subrange(i + 2, ne as int) == name && match d {
                None => d2 is None,
                Some(dv) => d2 matches Some((a, b)) && a <= b <= v.len() && v@.subrange(
                    a as int,
                    b as int,
                ) == dv,
            },
        },
{
    let n = v.len();
    if !(2 < n - i && v[i] == '$' && v[i + 1] == '{') {
        return None;
    }
    let c = v[i + 2];
    if !(('a' <= c && c <= 'z') || ('A' <= c && c <= 'Z') || c == '_') {
        return None;
    }
    let mut e = i + 3;
    while e < n && char_is_name_char(v[e])
        invariant
            n == v.len(),
            i + 3 <= e <= n,
            name_end(v@, (i + 3) as int) == name_end(v@, e as int),
        decreases n - e,
    {
        e = e + 1;
    }
    if e < n && v[e] == '}' {
        return Some((e + 1, e, None));
    }
    if !(e < n && 1 < n - e && v[e] == ':' && v[e + 1] == '-') {
        return None;
    }
    let mut k = e + 2;
    while k < n && v[k] != '}'
        invariant
            n == v.len(),
            e + 2 <= k <= n,
            brace_from(v@, (e + 2) as int) == brace_from(v@, k as int),
        decreases n - k,
    {
        k = k + 1;
    }
    if k < n {
        Some((k + 1, e, Some((e + 2, k))))
    } else {
        None
    }
}

/// Replace each `${NAME}` and `${NAME:-DEFAULT}` in `input` by the value of
/// the variable `NAME` in `env`, or by the default (empty if none) when
/// the variable is not set. Text that is not such a reference is kept.
pub fn expand_env_vars(input: &str, env: &TagMap) -> (out: String)
    ensures
        out@ == expand_from(input@, env@, 0),
{
    let v = chars_of(input);
    let n = v.len();
    let mut out = String::new();
    let mut run: usize = 0;
    let mut i: usize = 0;
    proof {
        reveal_strlit("");
        assert(input@.subrange(0, 0) =~= Seq::<char>::empty());
    }
    while i < n
        invariant
            v@ == input@,
            n == v.len(),
            run <= i <= n,
            expand_from(input@, env@, 0) == out@ + input@.subrange(run as int, i as int)
                + expand_from(input@, env@, i as int),
        decreases n - i,
    {
        match var_ref(&v, i) {
            Some((end, name_stop, dflt)) => {
                let literal = input.substring_char(run, i);
                out.append(literal);
                let name = input.substring_char(i + 2, name_stop);
                let value: &str = match env.get(name) {
                    Some(x) => x.as_str(),
                    None => match dflt {
                        Some((a, b)) => input.substring_char(a, b),
                        None => "",
                    },
                };
                proof {
                    reveal_strlit("");
                    lemma_var_ref_bounds(input@, i as int);
                    let (_, _, d) = var_ref_at(input@, i as int).unwrap();
                    assert(value@ == var_value(env@, name@, d));
                }
                out.append(value);
                i = end;
                run = end;
                proof {
                    assert(input@.subrange(run as int, i as int) =~= Seq::<char>::empty());
                }
            },
            None => {
                proof {
                    assert(input@.subrange(run as int, i + 1) =~= input@.subrange(run as int, i as int)
                        + seq![input@[i as int]]);
                }
                i = i + 1;
            },
        }
    }
    let literal = input.substring_char(run, n);
    out.append(literal);
    out
}

/// Text with no `${` in it comes out of the expansion unchanged.
pub proof fn lemma_expand_without_references(s: Seq<char>, env: Map<Seq<char>, Seq<char>>, i: int)
    requires
        0 <= i <= s.len(),
        forall|k: int| 0 <= k < s.len() - 1 ==> !(#[trigger] s[k] == '$' && s[k + 1] == '{'),
    ensures
        expand_from(s, env, i) == s.skip(i),
    decreases s.len() - i,
{
    if i < s.len() {
        assert(var_ref_at(s, i) is None);
        lemma_expand_without_references(s, env, i + 1);
        assert(seq![s[i]] + s.skip(i + 1) =~= s.skip(i));
    } else {
        assert(s.skip(i) =~= Seq::<char>::empty());
    }
}

} // verus!
