//! The hostname codec: building the canonical hostname of a port and decoding
//! an inbound `Host` value into its key, network and version.
//!
//! The decoder implements the anchored pattern
//! `^(dmtr_[\w\d-]+)?\.?([\w-]+)-v(\d+).+$` with the usual greedy,
//! leftmost-first reading: among all ways to split the host, the one that a
//! backtracking matcher finds first is chosen.

use vstd::prelude::*;
use vstd::string::*;
use crate::text::{
    all_digit, all_label, chars_of, digit_char, is_digit, is_label, label_char, opt_text,
};

verus! {

/// One way to lay the pattern over a host. `key_end == 0` stands for an
/// absent key; otherwise the key is `[0, key_end)`. The network begins right
/// after the key and the optional dot, and ends at `net_end`; the version is
/// `[net_end + 2, ver_end)`.
pub struct HostSplit {
    pub key_end: int,
    pub dot: bool,
    pub net_end: int,
    pub ver_end: int,
}

/// What the decoder captures, as plain sequences.
pub struct HostView {
    pub key: Option<Seq<char>>,
    pub network: Seq<char>,
    pub version: Seq<char>,
}

/// The captures of a decoded host.
#[derive(Debug, Clone)]
pub struct HostParts {
    pub key: Option<String>,
    pub network: String,
    pub version: String,
}

impl View for HostParts {
    type V = HostView;

    open spec fn view(&self) -> HostView {
        HostView {
            key: match self.key {
                Some(k) => Some(k@),
                None => None,
            },
            network: self.network@,
            version: self.version@,
        }
    }
}

/// The literal prefix of every key: `dmtr_`.
pub open spec fn key_prefix() -> Seq<char> {
    seq!['d', 'm', 't', 'r', '_']
}

/// `s` begins with `dmtr_`.
pub open spec fn has_key_prefix(s: Seq<char>) -> bool {
    s.len() >= 5 && s.subrange(0, 5) == key_prefix()
}

/// No line feed in `[from, to)`.
pub open spec fn no_newline(s: Seq<char>, from: int, to: int) -> bool {
    forall|i: int| from <= i < to ==> #[trigger] s[i] != '\n'
}

/// From `start`: a non-empty network of label characters up to `net_end`,
/// then `-v`, then a non-empty version of digits up to `ver_end`, then a
/// non-empty rest without a line feed.
pub open spec fn tail_match(s: Seq<char>, start: int, net_end: int, ver_end: int) -> bool {
    &&& 0 <= start < net_end
    &&& net_end + 2 < ver_end < s.len()
    &&& all_label(s, start, net_end)
    &&& s[net_end] == '-'
    &&& s[net_end + 1] == 'v'
    &&& all_digit(s, net_end + 2, ver_end)
    &&& no_newline(s, ver_end, s.len() as int)
}

/// Where the network of a split begins.
pub open spec fn net_start(c: HostSplit) -> int {
    c.key_end + if c.dot { 1int } else { 0int }
}

/// The split `c` lays the whole pattern over `s`.
pub open spec fn host_match(s: Seq<char>, c: HostSplit) -> bool {
    &&& c.key_end == 0 || (5 < c.key_end <= s.len() && has_key_prefix(s) && all_label(
        s,
        5,
        c.key_end,
    ))
    &&& c.dot ==> c.key_end < s.len() && s[c.key_end] == '.'
    &&& tail_match(s, net_start(c), c.net_end, c.ver_end)
}

/// `a` is tried no later than `b` by a greedy matcher: a longer key first
/// (any key before none), the dot before its absence, then a longer network,
/// then a longer version.
pub open spec fn tried_first(a: HostSplit, b: HostSplit) -> bool {
    ||| a.key_end > b.key_end
    ||| (a.key_end == b.key_end && a.dot && !b.dot)
    ||| (a.key_end == b.key_end && a.dot == b.dot && a.net_end > b.net_end)
    ||| (a.key_end == b.key_end && a.dot == b.dot && a.net_end == b.net_end && a.ver_end
        >= b.ver_end)
}

/// `c` is the split that the matcher settles on.
pub open spec fn is_chosen(s: Seq<char>, c: HostSplit) -> bool {
    &&& host_match(s, c)
    &&& forall|d: HostSplit| host_match(s, d) ==> tried_first(c, d)
}

/// The captures that a split yields.
pub open spec fn captures(s: Seq<char>, c: HostSplit) -> HostView {
    HostView {
        key: if c.key_end == 0 {
            None
        } else {
            Some(s.subrange(0, c.key_end))
        },
        network: s.subrange(net_start(c), c.net_end),
        version: s.subrange(c.net_end + 2, c.ver_end),
    }
}

/// The decoding of a host: the captures of the chosen split, or `None`
/// where the pattern does not fit.
pub open spec fn decode(s: Seq<char>) -> Option<HostView> {
    if exists|c: HostSplit| is_chosen(s, c) {
        Some(captures(s, choose|c: HostSplit| is_chosen(s, c)))
    } else {
        None
    }
}

/// At most one split is chosen.
pub proof fn lemma_chosen_unique(s: Seq<char>, a: HostSplit, b: HostSplit)
    requires
        is_chosen(s, a),
        is_chosen(s, b),
    ensures
        a == b,
{
    assert(tried_first(a, b));
    assert(tried_first(b, a));
}

/// A chosen split fixes the decoding.
pub proof fn lemma_decode_of_chosen(s: Seq<char>, c: HostSplit)
    requires
        is_chosen(s, c),
    ensures
        decode(s) == Some(captures(s, c)),
{
    let d = choose|d: HostSplit| is_chosen(s, d);
    lemma_chosen_unique(s, c, d);
}

/// Without any fitting split there is no decoding.
pub proof fn lemma_decode_none(s: Seq<char>)
    requires
        forall|c: HostSplit| !host_match(s, c),
    ensures
        decode(s) is None,
{
}

/// What a decoded host gives is made of ASCII characters only: the
/// network is a non-empty run of label characters, the version a non-empty
/// run of digits, and a key is `dmtr_` and a non-empty run of label
/// characters. A letter or digit beyond ASCII is never part of them.
pub proof fn lemma_decoded_parts(s: Seq<char>)
    requires
        decode(s) is Some,
    ensures
        decode(s)->0.network.len() > 0,
        all_label(decode(s)->0.network, 0, decode(s)->0.network.len() as int),
        decode(s)->0.version.len() > 0,
        all_digit(decode(s)->0.version, 0, decode(s)->0.version.len() as int),
        decode(s)->0.key is Some ==> has_key_prefix(decode(s)->0.key->0) && decode(s)->0.key->0.len()
            > 5 && all_label(decode(s)->0.key->0, 5, decode(s)->0.key->0.len() as int),
{
    let c = choose|c: HostSplit| is_chosen(s, c);
    let v = captures(s, c);
    assert(host_match(s, c));
    assert(tail_match(s, net_start(c), c.net_end, c.ver_end));
    assert forall|i: int| 0 <= i < v.network.len() implies is_label(#[trigger] v.network[i]) by {
        assert(is_label(s[net_start(c) + i]));
    }
    assert forall|i: int| 0 <= i < v.version.len() implies is_digit(#[trigger] v.version[i]) by {
        assert(is_digit(s[c.net_end + 2 + i]));
    }
    if c.key_end > 0 {
        let k = v.key->0;
        assert(k.subrange(0, 5) =~= s.subrange(0, 5));
        assert forall|i: int| 5 <= i < k.len() implies is_label(#[trigger] k[i]) by {
            assert(is_label(s[i]));
        }
    }
}

/// The end of the run of label characters that begins at `from`.
fn label_run_end(v: &Vec<char>, from: usize) -> (r: usize)
    requires
        from <= v.len(),
    ensures
        from <= r <= v.len(),
        all_label(v@, from as int, r as int),
        r < v.len() ==> !is_label(v@[r as int]),
{
    let mut r: usize = from;
    while r < v.len() && label_char(v[r])
        invariant
            from <= r <= v.len(),
            all_label(v@, from as int, r as int),
        decreases v.len() - r,
    {
        r = r + 1;
    }
    r
}

/// The end of the run of digits that begins at `from`.
fn digit_run_end(v: &Vec<char>, from: usize) -> (r: usize)
    requires
        from <= v.len(),
    ensures
        from <= r <= v.len(),
        all_digit(v@, from as int, r as int),
        r < v.len() ==> !is_digit(v@[r as int]),
{
    let mut r: usize = from;
    while r < v.len() && digit_char(v[r])
        invariant
            from <= r <= v.len(),
            all_digit(v@, from as int, r as int),
        decreases v.len() - r,
    {
        r = r + 1;
    }
    r
}

/// The least index from which no line feed follows.
fn clean_suffix_start(v: &Vec<char>) -> (t: usize)
    ensures
        t <= v.len(),
        no_newline(v@, t as int, v.len() as int),
        t > 0 ==> v@[t - 1] == '\n',
{
    let mut t: usize = v.len();
    while t > 0 && v[t - 1] != '\n'
        invariant
            t <= v.len(),
            no_newline(v@, t as int, v.len() as int),
        decreases t,
    {
        t = t - 1;
    }
    t
}

/// The network and version that a greedy matcher finds from `start`: the
/// longest network first, then the longest version.
fn find_tail(v: &Vec<char>, start: usize, clean: usize) -> (r: Option<(usize, usize)>)
    requires
        start <= v.len(),
        clean <= v.len(),
        no_newline(v@, clean as int, v.len() as int),
        clean > 0 ==> v@[clean - 1] == '\n',
    ensures
        match r {
            Some((j, e)) => tail_match(v@, start as int, j as int, e as int) && forall|
                j2: int,
                e2: int,
            |
                tail_match(v@, start as int, j2, e2) ==> j2 < j || (j2 == j && e2 <= e),
            None => forall|j2: int, e2: int| !tail_match(v@, start as int, j2, e2),
        },
{
    let n: usize = v.len();
    let run: usize = label_run_end(v, start);
    let mut j: usize = run;
    while j > start
        invariant
            start <= j <= run <= n,
            n == v.len(),
            all_label(v@, start as int, run as int),
            run < n ==> !is_label(v@[run as int]),
            clean <= n,
            no_newline(v@, clean as int, n as int),
            clean > 0 ==> v@[clean - 1] == '\n',
            forall|j2: int, e2: int| j2 > j ==> !tail_match(v@, start as int, j2, e2),
        decreases j,
    {
        if n - j >= 4 && v[j] == '-' && v[j + 1] == 'v' {
            let digits: usize = digit_run_end(v, j + 2);
            let e: usize = if digits < n {
                digits
            } else {
                n - 1
            };
            if e >= j + 3 && e >= clean {
                assert(all_label(v@, start as int, j as int));
                assert(tail_match(v@, start as int, j as int, e as int));
                assert forall|j2: int, e2: int|
                    tail_match(v@, start as int, j2, e2) implies j2 < j || (j2 == j && e2 <= e) by {
                    if j2 == j && e2 > e {
                        if digits < n {
                            assert(is_digit(v@[digits as int]));
                        }
                    }
                }
                return Some((j, e));
            }
            assert forall|e2: int| !tail_match(v@, start as int, j as int, e2) by {
                if tail_match(v@, start as int, j as int, e2) {
                    if e2 > e {
                        assert(digits < n);
                        assert(is_digit(v@[digits as int]));
                    } else {
                        assert(e >= j + 3);
                        assert(clean > 0);
                        assert(e2 <= clean - 1);
                        assert(v@[clean - 1] != '\n');
                    }
                }
            }
        } else {
            assert forall|e2: int| !tail_match(v@, start as int, j as int, e2) by {}
        }
        j = j - 1;
    }
    assert forall|j2: int, e2: int| !tail_match(v@, start as int, j2, e2) by {
        if tail_match(v@, start as int, j2, e2) {
            if j2 > run {
                assert(is_label(v@[run as int]));
            }
        }
    }
    None
}

/// The captures of a split as owned strings.
fn extract_split(host: &str, key_end: usize, dot: bool, net_end: usize, ver_end: usize) -> (r:
    HostParts)
    requires
        key_end < net_end,
        dot ==> key_end + 1 <= net_end,
        net_end + 2 <= ver_end <= host@.len(),
    ensures
        r@ == captures(
            host@,
            HostSplit {
                key_end: key_end as int,
                dot,
                net_end: net_end as int,
                ver_end: ver_end as int,
            },
        ),
{
    let key: Option<String> = if key_end == 0 {
        None
    } else {
        Some(host.substring_char(0, key_end).to_owned())
    };
    let start: usize = if dot {
        key_end + 1
    } else {
        key_end
    };
    let network: String = host.substring_char(start, net_end).to_owned();
    let version: String = host.substring_char(net_end + 2, ver_end).to_owned();
    HostParts { key, network, version }
}

/// Decodes a `Host` value into its optional key, its network and its
/// version, or returns `None` where the host does not fit the pattern.
/// Letters and digits are the ASCII ones: a character beyond ASCII can
/// stand in the rest of the host only.
pub fn parse_host(host: &str) -> (r: Option<HostParts>)
    ensures
        match r {
            Some(p) => decode(host@) == Some(p@),
            None => decode(host@) is None,
        },
        r is None <==> forall|c: HostSplit| !host_match(host@, c),
{
    let v: Vec<char> = chars_of(host);
    let n: usize = v.len();
    let clean: usize = clean_suffix_start(&v);
    let keyed: bool = n >= 5 && v[0] == 'd' && v[1] == 'm' && v[2] == 't' && v[3] == 'r' && v[4]
        == '_';
    proof {
        if keyed {
            assert(v@.subrange(0, 5) =~= key_prefix());
        } else if n >= 5 {
            assert(v@.subrange(0, 5)[0] == v@[0]);
            assert(v@.subrange(0, 5)[1] == v@[1]);
            assert(v@.subrange(0, 5)[2] == v@[2]);
            assert(v@.subrange(0, 5)[3] == v@[3]);
            assert(v@.subrange(0, 5)[4] == v@[4]);
        }
        assert(keyed == has_key_prefix(v@));
    }
    if keyed {
        let run: usize = label_run_end(&v, 5);
        let mut k: usize = run;
        while k > 5
            invariant
                5 <= k <= run <= n,
                n == v.len(),
                v@ == host@,
                has_key_prefix(v@),
                all_label(v@, 5, run as int),
                run < n ==> !is_label(v@[run as int]),
                clean <= n,
                no_newline(v@, clean as int, n as int),
                clean > 0 ==> v@[clean - 1] == '\n',
                forall|c: HostSplit| c.key_end > k ==> !host_match(v@, c),
            decreases k,
        {
            if k < n && v[k] == '.' {
                match find_tail(&v, k + 1, clean) {
                    Some((j, e)) => {
                        let ghost c = HostSplit {
                            key_end: k as int,
                            dot: true,
                            net_end: j as int,
                            ver_end: e as int,
                        };
                        proof {
                            assert(host_match(v@, c));
                            assert forall|d: HostSplit| host_match(v@, d) implies tried_first(
                                c,
                                d,
                            ) by {}
                            lemma_decode_of_chosen(v@, c);
                        }
                        let parts = extract_split(host, k, true, j, e);
                        return Some(parts);
                    },
                    None => {},
                }
            }
            match find_tail(&v, k, clean) {
                Some((j, e)) => {
                    let ghost c = HostSplit {
                        key_end: k as int,
                        dot: false,
                        net_end: j as int,
                        ver_end: e as int,
                    };
                    proof {
                        assert(host_match(v@, c));
                        assert forall|d: HostSplit| host_match(v@, d) implies tried_first(c, d) by {
                            if d.key_end == k && d.dot {
                                assert(tail_match(v@, k + 1, d.net_end, d.ver_end));
                            }
                        }
                        lemma_decode_of_chosen(v@, c);
                    }
                    let parts = extract_split(host, k, false, j, e);
                    return Some(parts);
                },
                None => {},
            }
            assert forall|c: HostSplit| c.key_end > k - 1 implies !host_match(v@, c) by {
                if c.key_end == k && host_match(v@, c) {
                    assert(tail_match(v@, net_start(c), c.net_end, c.ver_end));
                }
            }
            k = k - 1;
        }
        assert(forall|c: HostSplit| c.key_end > 0 ==> !host_match(v@, c));
    }
    assert(forall|c: HostSplit| c.key_end > 0 ==> !host_match(v@, c));
    if n > 0 && v[0] == '.' {
        match find_tail(&v, 1, clean) {
            Some((j, e)) => {
                let ghost c = HostSplit {
                    key_end: 0,
                    dot: true,
                    net_end: j as int,
                    ver_end: e as int,
                };
                proof {
                    assert(host_match(v@, c));
                    lemma_decode_of_chosen(v@, c);
                }
                let parts = extract_split(host, 0, true, j, e);
                return Some(parts);
            },
            None => {},
        }
    }
    match find_tail(&v, 0, clean) {
        Some((j, e)) => {
            let ghost c = HostSplit { key_end: 0, dot: false, net_end: j as int, ver_end: e as int };
            proof {
                assert(host_match(v@, c));
                assert forall|d: HostSplit| host_match(v@, d) implies tried_first(c, d) by {
                    if d.key_end == 0 && d.dot {
                        assert(tail_match(v@, 1, d.net_end, d.ver_end));
                    }
                }
                lemma_decode_of_chosen(v@, c);
            }
            let parts = extract_split(host, 0, false, j, e);
            return Some(parts);
        },
        None => {},
    }
    proof {
        assert forall|c: HostSplit| !host_match(v@, c) by {
            if host_match(v@, c) {
                assert(c.key_end == 0);
                assert(tail_match(v@, net_start(c), c.net_end, c.ver_end));
            }
        }
        lemma_decode_none(v@);
    }
    None
}

/// `{name}-{project_id}.{ingress_class}.{dns_zone}`, with `{key}.` in front
/// where a key is given.
pub open spec fn hostname(
    name: Seq<char>,
    project_id: Seq<char>,
    key: Option<Seq<char>>,
    ingress_class: Seq<char>,
    dns_zone: Seq<char>,
) -> Seq<char> {
    let base = name + seq!['-'] + project_id + seq!['.'] + ingress_class + seq!['.'] + dns_zone;
    match key {
        Some(k) => k + seq!['.'] + base,
        None => base,
    }
}

/// Builds the canonical hostname of a port.
pub fn build_hostname(
    crd_name: &str,
    project_id: &str,
    key: Option<&str>,
    ingress_class: &str,
    dns_zone: &str,
) -> (r: String)
    ensures
        r@ == hostname(crd_name@, project_id@, opt_text(key), ingress_class@, dns_zone@),
{
    proof {
        reveal_strlit("-");
        reveal_strlit(".");
    }
    assert("-"@ =~= seq!['-']);
    assert("."@ =~= seq!['.']);
    let mut out: String = String::new();
    match key {
        Some(k) => {
            out.append(k);
            out.append(".");
        },
        None => {},
    }
    out.append(crd_name);
    out.append("-");
    out.append(project_id);
    out.append(".");
    out.append(ingress_class);
    out.append(".");
    out.append(dns_zone);
    assert(out@ =~= hostname(
        crd_name@,
        project_id@,
        opt_text(key),
        ingress_class@,
        dns_zone@,
    ));
    out
}

/// `i` is the place of the first hyphen of `s`.
pub open spec fn is_first_dash(s: Seq<char>, i: int) -> bool {
    &&& 0 <= i < s.len()
    &&& s[i] == '-'
    &&& forall|j: int| 0 <= j < i ==> #[trigger] s[j] != '-'
}

/// `s` holds a hyphen.
pub open spec fn has_dash(s: Seq<char>) -> bool {
    exists|i: int| 0 <= i < s.len() && #[trigger] s[i] == '-'
}

/// What follows the first hyphen of a namespace.
pub open spec fn project_id_of(namespace: Seq<char>) -> Seq<char> {
    let i = choose|i: int| is_first_dash(namespace, i);
    namespace.subrange(i + 1, namespace.len() as int)
}

/// The project id of a namespace: what follows its first hyphen.
pub fn project_id(namespace: &str) -> (r: String)
    requires
        has_dash(namespace@),
    ensures
        r@ == project_id_of(namespace@),
{
    let n: usize = namespace.unicode_len();
    let mut i: usize = 0;
    while i < n && namespace.get_char(i) != '-'
        invariant
            n == namespace@.len(),
            i <= n,
            forall|j: int| 0 <= j < i ==> #[trigger] namespace@[j] != '-',
        decreases n - i,
    {
        i = i + 1;
    }
    assert(is_first_dash(namespace@, i as int));
    proof {
        let c = choose|c: int| is_first_dash(namespace@, c);
        assert(c == i) by {
            if c < i {
                assert(namespace@[c] != '-');
            }
            if i < c {
                assert(namespace@[i as int] != '-');
            }
        }
    }
    namespace.substring_char(i + 1, n).to_owned()
}

/// The name of the credential objects of a port: `ogmios-auth-{name}`.
pub open spec fn auth_name(name: Seq<char>) -> Seq<char> {
    "ogmios-auth-"@ + name
}

/// Builds the name of the credential objects of a port.
pub fn build_auth_name(name: &str) -> (r: String)
    ensures
        r@ == auth_name(name@),
{
    let mut out: String = String::from_str("ogmios-auth-");
    out.append(name);
    out
}

/// Some split that takes a key lays the pattern over the host.
pub open spec fn reads_with_key(s: Seq<char>) -> bool {
    exists|c: HostSplit| host_match(s, c) && c.key_end > 0
}

/// A hostname built without a key from a name that does not begin with
/// `dmtr_` cannot be read with a key.
pub proof fn lemma_plain_name_reads_without_key(
    name: Seq<char>,
    project_id: Seq<char>,
    ingress_class: Seq<char>,
    dns_zone: Seq<char>,
)
    requires
        !has_key_prefix(name),
    ensures
        !reads_with_key(hostname(name, project_id, None, ingress_class, dns_zone)),
{
    let s = hostname(name, project_id, None, ingress_class, dns_zone);
    if has_key_prefix(s) {
        if name.len() >= 5 {
            assert(name.subrange(0, 5) =~= s.subrange(0, 5));
        } else {
            assert(s.subrange(0, 5)[name.len() as int] == s[name.len() as int]);
            assert(s[name.len() as int] == '-');
        }
    }
}

/// Decoding a built hostname gives back what it was built from, where the
/// name is a network and the project id is `v` and a version. Without a
/// key this holds exactly of the hostnames that cannot be read with a key:
/// a name such as `dmtr_ab` would be taken for one.
pub proof fn lemma_host_round_trip(
    name: Seq<char>,
    project_id: Seq<char>,
    key: Option<Seq<char>>,
    ingress_class: Seq<char>,
    dns_zone: Seq<char>,
)
    requires
        name.len() > 0,
        all_label(name, 0, name.len() as int),
        project_id.len() >= 2,
        project_id[0] == 'v',
        all_digit(project_id, 1, project_id.len() as int),
        match key {
            Some(k) => has_key_prefix(k) && k.len() > 5 && all_label(k, 5, k.len() as int),
            None => !reads_with_key(hostname(name, project_id, key, ingress_class, dns_zone)),
        },
        no_newline(ingress_class, 0, ingress_class.len() as int),
        no_newline(dns_zone, 0, dns_zone.len() as int),
    ensures
        decode(hostname(name, project_id, key, ingress_class, dns_zone)) == Some(
            HostView { key, network: name, version: project_id.subrange(1, project_id.len() as int) },
        ),
{
    let s = hostname(name, project_id, key, ingress_class, dns_zone);
    let key_end: int = match key {
        Some(k) => k.len() as int,
        None => 0,
    };
    let start: int = match key {
        Some(k) => k.len() as int + 1,
        None => 0,
    };
    let net_end = start + name.len();
    let ver_end = net_end + 1 + project_id.len();
    let rest = seq!['.'] + ingress_class + seq!['.'] + dns_zone;
    let c = HostSplit { key_end, dot: key is Some, net_end, ver_end };
    assert(s.len() == ver_end + rest.len());
    assert forall|i: int| start <= i < net_end implies s[i] == name[i - start] by {}
    assert(s[net_end] == '-');
    assert forall|i: int| net_end + 1 <= i < ver_end implies s[i] == project_id[i - net_end - 1] by {}
    assert(s[net_end + 1] == 'v');
    assert(s[ver_end] == '.');
    assert forall|i: int| ver_end <= i < s.len() implies #[trigger] s[i] != '\n' by {
        let r = i - ver_end;
        assert(s[i] == rest[r]);
        if r == 0 {
        } else if r < 1 + ingress_class.len() {
            assert(rest[r] == ingress_class[r - 1]);
        } else if r == 1 + ingress_class.len() {
        } else {
            assert(rest[r] == dns_zone[r - 2 - ingress_class.len()]);
        }
    }
    assert(all_label(s, start, net_end)) by {
        assert forall|i: int| start <= i < net_end implies is_label(#[trigger] s[i]) by {
            assert(is_label(name[i - start]));
        }
    }
    assert(all_digit(s, net_end + 2, ver_end)) by {
        assert forall|i: int| net_end + 2 <= i < ver_end implies is_digit(#[trigger] s[i]) by {
            assert(is_digit(project_id[i - net_end - 1]));
        }
    }
    assert(tail_match(s, start, net_end, ver_end));
    match key {
        Some(k) => {
            assert forall|i: int| 0 <= i < k.len() implies s[i] == k[i] by {}
            assert(s.subrange(0, 5) =~= k.subrange(0, 5));
            assert(s[key_end] == '.');
            assert(all_label(s, 5, key_end)) by {
                assert forall|i: int| 5 <= i < key_end implies is_label(#[trigger] s[i]) by {
                    assert(is_label(k[i]));
                }
            }
            assert(s.subrange(0, key_end) =~= k);
        },
        None => {},
    }
    assert(host_match(s, c));
    assert forall|d: HostSplit| host_match(s, d) implies tried_first(c, d) by {
        if d.key_end > key_end {
            match key {
                Some(k) => {
                    assert(!is_label(s[key_end]));
                },
                None => {
                    assert(host_match(s, d) && d.key_end > 0);
                },
            }
        } else if d.key_end == key_end {
            if d.dot && !c.dot {
                assert(is_label(name[0]));
                assert(s[0] == name[0]);
            } else if d.dot == c.dot {
                if d.net_end > net_end {
                    if d.net_end > ver_end {
                        assert(!is_label(s[ver_end]));
                    } else if d.net_end == ver_end {
                    } else if d.net_end == net_end + 1 {
                    } else {
                        assert(is_digit(s[d.net_end]));
                    }
                } else if d.net_end == net_end {
                    if d.ver_end > ver_end {
                        assert(!is_digit(s[ver_end]));
                    }
                }
            }
        }
    }
    lemma_decode_of_chosen(s, c);
    assert(s.subrange(start, net_end) =~= name);
    assert(s.subrange(net_end + 2, ver_end) =~= project_id.subrange(1, project_id.len() as int));
}

} // verus!
