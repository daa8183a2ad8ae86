//! Collector configurations grouped by type, and their validation.
use vstd::prelude::*;
use crate::collector::http::HttpConfig;
use crate::collector::ping::PingConfig;
use crate::collector::tcp::TcpConfig;
use crate::config::validation::ConfigError;
use crate::ipaddr::is_ip_text;
use crate::text::str_eq;

verus! {

broadcast use vstd::string::group_string_axioms;

/// Collector configurations grouped by type.
#[derive(Debug)]
pub struct CollectorsConfig {
    /// TCP port probe collectors.
    pub tcp: Vec<TcpConfig>,
    /// ICMP ping probe collectors.
    pub ping: Vec<PingConfig>,
    /// HTTP endpoint probe collectors.
    pub http: Vec<HttpConfig>,
}

impl Default for CollectorsConfig {
    fn default() -> (c: CollectorsConfig)
        ensures
            c.tcp@.len() == 0,
            c.ping@.len() == 0,
            c.http@.len() == 0,
    {
        CollectorsConfig { tcp: Vec::new(), ping: Vec::new(), http: Vec::new() }
    }
}

/// What `url::Url::parse` makes of a text: success, or the displayed error.
pub uninterp spec fn url_parse_result(text: Seq<char>) -> Result<(), Seq<char>>;

/// Calls `url::Url::parse`; whether it succeeds, and the displayed error
/// when it does not, are named `url_parse_result` of the text.
#[verifier::external_body]
fn url_parse(text: &str) -> (r: Result<(), String>)
    ensures
        match (r, url_parse_result(text@)) {
            (Ok(()), Ok(())) => true,
            (Err(m), Err(e)) => m@ == e,
            _ => false,
        },
{
    match url::Url::parse(text) {
        Ok(_) => Ok(()),
        Err(e) => Err(e.to_string()),
    }
}

/// The names of all collectors: TCP first, then ping, then HTTP.
pub open spec fn all_names(c: CollectorsConfig) -> Seq<Seq<char>> {
    c.tcp@.map_values(|t: TcpConfig| t.name@) + c.ping@.map_values(|p: PingConfig| p.name@)
        + c.http@.map_values(|h: HttpConfig| h.name@)
}

/// The problem with the `g`-th name of `all_names`, if any: empty, or seen
/// before.
pub open spec fn name_error(c: CollectorsConfig, g: int, empty: Seq<char>) -> Option<Seq<char>> {
    let name = all_names(c)[g];
    if name.len() == 0 {
        Some(empty)
    } else if all_names(c).take(g).contains(name) {
        Some("duplicate collector name: '"@ + name + "'"@)
    } else {
        None
    }
}

/// The problem with the `i`-th TCP collector, if any.
pub open spec fn tcp_error(c: CollectorsConfig, i: int) -> Option<Seq<char>> {
    let t = c.tcp@[i];
    match name_error(c, i, "tcp collector name cannot be empty"@) {
        Some(m) => Some(m),
        None => if is_ip_text(t.host@) {
            None
        } else {
            Some("tcp collector '"@ + t.name@ + "': "@ + ("invalid IP address: '"@ + t.host@ + "'"@))
        },
    }
}

/// The problem with the `i`-th ping collector, if any.
pub open spec fn ping_error(c: CollectorsConfig, i: int) -> Option<Seq<char>> {
    name_error(c, c.tcp@.len() + i, "ping collector name cannot be empty"@)
}

/// The problem with the `i`-th HTTP collector, if any.
pub open spec fn http_error(c: CollectorsConfig, i: int) -> Option<Seq<char>> {
    let h = c.http@[i];
    match name_error(c, c.tcp@.len() + c.ping@.len() + i, "http collector name cannot be empty"@) {
        Some(m) => Some(m),
        None => match url_parse_result(h.url@) {
            Err(e) => Some(
                "http collector '"@ + h.name@ + "': invalid URL '"@ + h.url@ + "': "@ + e,
            ),
            Ok(()) => if h.interval is Some && h.cron is Some {
                Some("http collector '"@ + h.name@ + "': cannot specify both interval and cron"@)
            } else {
                None
            },
        },
    }
}

/// The first problem among the collectors at positions `i..n` as `f`
/// reports them.
pub open spec fn first_error(f: spec_fn(int) -> Option<Seq<char>>, i: int, n: int) -> Option<
    Seq<char>,
>
    decreases n - i,
{
    if i >= n {
        None
    } else {
        match f(i) {
            Some(m) => Some(m),
            None => first_error(f, i + 1, n),
        }
    }
}

/// The first problem of the collectors: TCP checked first, then ping,
/// then HTTP.
pub open spec fn collectors_error(c: CollectorsConfig) -> Option<Seq<char>> {
    match first_error(|i: int| tcp_error(c, i), 0, c.tcp@.len() as int) {
        Some(m) => Some(m),
        None => match first_error(|i: int| ping_error(c, i), 0, c.ping@.len() as int) {
            Some(m) => Some(m),
            None => first_error(|i: int| http_error(c, i), 0, c.http@.len() as int),
        },
    }
}

/// Whether `name` is among `seen`.
fn seen_contains(seen: &Vec<String>, name: &str) -> (b: bool)
    ensures
        b == seen@.map_values(|s: String| s@).contains(name@),
{
    let ghost sv = seen@.map_values(|s: String| s@);
    let n = seen.len();
    for i in 0..n
        invariant
            n == seen.len(),
            sv == seen@.map_values(|s: String| s@),
            forall|j: int| 0 <= j < i ==> sv[j] != name@,
    {
        if str_eq(seen[i].as_str(), name) {
            proof {
                assert(sv[i as int] == name@);
            }
            return true;
        }
    }
    false
}

/// `<prefix><name><suffix>`.
fn framed(prefix: &str, name: &str, suffix: &str) -> (s: String)
    ensures
        s@ == prefix@ + name@ + suffix@,
{
    let mut s = String::from_str(prefix);
    s.append(name);
    s.append(suffix);
    s
}

/// Whether a file with this extension holds collector configurations:
/// `yaml` or `yml`.
pub fn is_collector_file(extension: &str) -> (b: bool)
    ensures
        b == (extension@ == "yaml"@ || extension@ == "yml"@),
{
    str_eq(extension, "yaml") || str_eq(extension, "yml")
}

/// The error for a collector directory that does not exist.
pub fn missing_dir_error(dir: &str) -> (e: ConfigError)
    ensures
        e matches ConfigError::ValidationError(m) && m@ == "collector_path '"@ + dir@ + "' does not exist"@,
{
    ConfigError::ValidationError(framed("collector_path '", dir, "' does not exist"))
}

/// The error for a collector path that is not a directory.
pub fn not_a_dir_error(dir: &str) -> (e: ConfigError)
    ensures
        e matches ConfigError::ValidationError(m) && m@ == "collector_path '"@ + dir@ + "' is not a directory"@,
{
    ConfigError::ValidationError(framed("collector_path '", dir, "' is not a directory"))
}

/// The error for a collector file that does not parse.
pub fn file_parse_error(file: &str, reason: &str) -> (e: ConfigError)
    ensures
        e matches ConfigError::ValidationError(m) && m@ == "failed to parse '"@ + file@ + "': "@ + reason@,
{
    let mut m = framed("failed to parse '", file, "': ");
    m.append(reason);
    ConfigError::ValidationError(m)
}

impl CollectorsConfig {
    /// All collectors of `self` followed by those of `other`, type by type.
    pub fn merge(self, other: CollectorsConfig) -> (c: CollectorsConfig)
        ensures
            c.tcp@ == self.tcp@ + other.tcp@,
            c.ping@ == self.ping@ + other.ping@,
            c.http@ == self.http@ + other.http@,
    {
        let CollectorsConfig { mut tcp, mut ping, mut http } = self;
        let CollectorsConfig { tcp: mut t2, ping: mut p2, http: mut h2 } = other;
        tcp.append(&mut t2);
        ping.append(&mut p2);
        http.append(&mut h2);
        CollectorsConfig { tcp, ping, http }
    }

    /// Validate all collectors: names present and unique across all
    /// types, TCP hosts IP addresses, HTTP URLs valid and not both an
    /// interval and a cron schedule.
    ///
    /// # Errors
    /// `ConfigError::ValidationError` with the first problem found.
    pub fn validate(&self) -> (r: Result<(), ConfigError>)
        ensures
            match collectors_error(*self) {
                Some(m) => r matches Err(ConfigError::ValidationError(m2)) && m2@ == m,
                None => r is Ok,
            },
    {
        let ghost names = all_names(*self);
        let ghost nt = self.tcp@.len() as int;
        let ghost np = self.ping@.len() as int;
        let ghost ft = |i: int| tcp_error(*self, i);
        let ghost fp = |i: int| ping_error(*self, i);
        let ghost fh = |i: int| http_error(*self, i);
        let mut seen: Vec<String> = Vec::new();
        proof {
            assert(seen@.map_values(|s: String| s@) =~= names.take(0));
        }
        let n = self.tcp.len();
        for i in 0..n
            invariant
                n == nt,
                names == all_names(*self),
                nt == self.tcp@.len(),
                ft == (|i: int| tcp_error(*self, i)),
                seen@.map_values(|s: String| s@) == names.take(i as int),
                first_error(ft, 0, nt) == first_error(ft, i as int, nt),
        {
            let t = &self.tcp[i];
            let name = t.name.as_str();
            proof {
                assert(names[i as int] == t.name@);
            }
            if name.unicode_len() == 0 {
                return Err(ConfigError::ValidationError(String::from_str("tcp collector name cannot be empty")));
            }
            if seen_contains(&seen, name) {
                return Err(ConfigError::ValidationError(framed("duplicate collector name: '", name, "'")));
            }
            match t.validate() {
                Ok(()) => {},
                Err(e) => {
                    let mut m = framed("tcp collector '", name, "': ");
                    let detail = e.to_string();
                    m.append(detail.as_str());
                    proof {
                        assert(m@ =~= "tcp collector '"@ + t.name@ + "': "@ + ("invalid IP address: '"@
                            + t.host@ + "'"@));
                    }
                    return Err(ConfigError::ValidationError(m));
                },
            }
            let ghost before = seen@;
            seen.push(String::from_str(name));
            proof {
                assert(seen@.map_values(|s: String| s@) =~= before.map_values(|s: String| s@).push(
                    name@,
                ));
                assert(names.take(i + 1) =~= names.take(i as int).push(names[i as int]));
            }
        }
        let n = self.ping.len();
        for i in 0..n
            invariant
                n == np,
                names == all_names(*self),
                nt == self.tcp@.len(),
                np == self.ping@.len(),
                first_error(ft, 0, nt) is None,
                ft == (|i: int| tcp_error(*self, i)),
                fp == (|i: int| ping_error(*self, i)),
                seen@.map_values(|s: String| s@) == names.take(nt + i),
                first_error(fp, 0, np) == first_error(fp, i as int, np),
        {
            let p = &self.ping[i];
            let name = p.name.as_str();
            proof {
                assert(names[nt + i] == p.name@);
            }
            if name.unicode_len() == 0 {
                return Err(ConfigError::ValidationError(String::from_str("ping collector name cannot be empty")));
            }
            if seen_contains(&seen, name) {
                return Err(ConfigError::ValidationError(framed("duplicate collector name: '", name, "'")));
            }
            let ghost before = seen@;
            seen.push(String::from_str(name));
            proof {
                assert(seen@.map_values(|s: String| s@) =~= before.map_values(|s: String| s@).push(
                    name@,
                ));
                assert(names.take(nt + i + 1) =~= names.take(nt + i).push(names[nt + i]));
            }
        }
        let n = self.http.len();
        for i in 0..n
            invariant
                n == self.http@.len(),
                names == all_names(*self),
                nt == self.tcp@.len(),
                np == self.ping@.len(),
                first_error(ft, 0, nt) is None,
                first_error(fp, 0, np) is None,
                ft == (|i: int| tcp_error(*self, i)),
                fp == (|i: int| ping_error(*self, i)),
                fh == (|i: int| http_error(*self, i)),
                seen@.map_values(|s: String| s@) == names.take(nt + np + i),
                first_error(fh, 0, n as int) == first_error(fh, i as int, n as int),
        {
            let h = &self.http[i];
            let name = h.name.as_str();
            proof {
                assert(names[nt + np + i] == h.name@);
            }
            if name.unicode_len() == 0 {
                return Err(ConfigError::ValidationError(String::from_str("http collector name cannot be empty")));
            }
            if seen_contains(&seen, name) {
                return Err(ConfigError::ValidationError(framed("duplicate collector name: '", name, "'")));
            }
            match url_parse(h.url.as_str()) {
                Ok(()) => {},
                Err(e) => {
                    let mut m = framed("http collector '", name, "': invalid URL '");
                    m.append(h.url.as_str());
                    m.append("': ");
                    m.append(e.as_str());
                    return Err(ConfigError::ValidationError(m));
                },
            }
            if h.interval.is_some() && h.cron.is_some() {
                return Err(
                    ConfigError::ValidationError(
                        framed("http collector '", name, "': cannot specify both interval and cron"),
                    ),
                );
            }
            let ghost before = seen@;
            seen.push(String::from_str(name));
            proof {
                assert(seen@.map_values(|s: String| s@) =~= before.map_values(|s: String| s@).push(
                    name@,
                ));
                assert(names.take(nt + np + i + 1) =~= names.take(nt + np + i).push(
                    names[nt + np + i],
                ));
            }
        }
        Ok(())
    }
}

/// When no problem is found at positions `i..n`, each of them has none.
pub proof fn lemma_first_error_none(f: spec_fn(int) -> Option<Seq<char>>, i: int, n: int)
    requires
        first_error(f, i, n) is None,
    ensures
        forall|k: int| i <= k < n ==> #[trigger] f(k) is None,
    decreases n - i,
{
    if i < n {
        lemma_first_error_none(f, i + 1, n);
    }
}

/// A set of collectors that passes validation has non-empty names, and no
/// two of its collectors share a name, whatever their types.
pub proof fn lemma_validated_names_unique(c: CollectorsConfig)
    requires
        collectors_error(c) is None,
    ensures
        forall|g: int| 0 <= g < all_names(c).len() ==> #[trigger] all_names(c)[g].len() > 0,
        forall|g1: int, g2: int|
            0 <= g1 < g2 < all_names(c).len() ==> #[trigger] all_names(c)[g1] != #[trigger] all_names(
                c,
            )[g2],
{
    let names = all_names(c);
    let nt = c.tcp@.len() as int;
    let np = c.ping@.len() as int;
    let nh = c.http@.len() as int;
    let ft = |i: int| tcp_error(c, i);
    let fp = |i: int| ping_error(c, i);
    let fh = |i: int| http_error(c, i);
    lemma_first_error_none(ft, 0, nt);
    lemma_first_error_none(fp, 0, np);
    lemma_first_error_none(fh, 0, nh);
    assert forall|g: int| 0 <= g < names.len() implies names[g].len() > 0 && !names.take(g).contains(
        #[trigger] names[g],
    ) by {
        if g < nt {
            assert(ft(g) is None);
        } else if g < nt + np {
            assert(fp(g - nt) is None);
        } else {
            assert(fh(g - nt - np) is None);
        }
    }
    assert forall|g1: int, g2: int| 0 <= g1 < g2 < names.len() implies #[trigger] names[g1]
        != #[trigger] names[g2] by {
        assert(names.take(g2)[g1] == names[g1]);
        if names[g1] == names[g2] {
            assert(names.take(g2).contains(names[g2]));
        }
    }
}

/// A set of collectors that passes validation has an IP address as the
/// host of every TCP collector, and for every HTTP collector a URL that
/// parses and not both an interval and a cron expression.
pub proof fn lemma_validated_targets(c: CollectorsConfig)
    requires
        collectors_error(c) is None,
    ensures
        forall|i: int| 0 <= i < c.tcp@.len() ==> is_ip_text(#[trigger] c.tcp@[i].host@),
        forall|i: int| 0 <= i < c.http@.len() ==> url_parse_result(#[trigger] c.http@[i].url@) is Ok && !(
        c.http@[i].interval is Some && c.http@[i].cron is Some),
{
    let ft = |i: int| tcp_error(c, i);
    let fp = |i: int| ping_error(c, i);
    let fh = |i: int| http_error(c, i);
    lemma_first_error_none(ft, 0, c.tcp@.len() as int);
    lemma_first_error_none(fp, 0, c.ping@.len() as int);
    lemma_first_error_none(fh, 0, c.http@.len() as int);
    assert forall|i: int| 0 <= i < c.tcp@.len() implies is_ip_text(#[trigger] c.tcp@[i].host@) by {
        assert(ft(i) is None);
    }
    assert forall|i: int| 0 <= i < c.http@.len() implies url_parse_result(#[trigger] c.http@[i].url@) is Ok && !(
    c.http@[i].interval is Some && c.http@[i].cron is Some) by {
        assert(fh(i) is None);
    }
}

} // verus!
