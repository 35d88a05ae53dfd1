//! The billing collector's computations: the query it sends, and what a
//! row of the answer leads to.
//!
//! The project of a row is read from its consumer label by the pattern
//! `prj-(.+)\..+`, its network from its route label by `([\w-]+)-.+`, both
//! searched from the left and greedy.

use vstd::prelude::*;
use vstd::string::*;
use crate::hostname::no_newline;
use crate::text::{
    all_label, chars_of, decimal, decimal_string, is_label, label_char, opt_text, split,
    split_text, texts,
};

verus! {

/// The decimal numeral of an integer, with `-` in front of a negative one.
pub open spec fn signed_decimal(n: int) -> Seq<char> {
    if n < 0 {
        seq!['-'] + decimal((-n) as nat)
    } else {
        decimal(n as nat)
    }
}

/// The decimal numeral of an `i64`.
pub fn signed_decimal_string(n: i64) -> (r: String)
    ensures
        r@ == signed_decimal(n as int),
{
    proof {
        reveal_strlit("-");
    }
    assert("-"@ =~= seq!['-']);
    if n < 0 {
        let magnitude: u64 = if n == i64::MIN {
            9223372036854775808u64
        } else {
            (-n) as u64
        };
        let digits: String = decimal_string(magnitude);
        let mut out: String = String::from_str("-");
        out.append(digits.as_str());
        out
    } else {
        decimal_string(n as u64)
    }
}

/// The query for the frames of the last `window` seconds as of `now`:
/// `sum by (consumer, route) (increase(ogmios_proxy_ws_total_frame[{window}s] @ {now}))`.
pub open spec fn query_text(window: int, now: int) -> Seq<char> {
    "sum by (consumer, route) (increase(ogmios_proxy_ws_total_frame["@ + signed_decimal(window)
        + "s] @ "@ + signed_decimal(now) + "))"@
}

/// Builds the query for the frames of the last `window` seconds as of the
/// Unix time `now`.
pub fn build_query(window: i64, now: i64) -> (r: String)
    ensures
        r@ == query_text(window as int, now as int),
{
    let w: String = signed_decimal_string(window);
    let t: String = signed_decimal_string(now);
    let mut out: String = String::from_str(
        "sum by (consumer, route) (increase(ogmios_proxy_ws_total_frame[",
    );
    out.append(w.as_str());
    out.append("s] @ ");
    out.append(t.as_str());
    out.append("))");
    out
}

/// The address that a query is sent to: `{prometheus_url}/query?query={query}`.
pub open spec fn query_url_text(prometheus_url: Seq<char>, query: Seq<char>) -> Seq<char> {
    prometheus_url + "/query?query="@ + query
}

/// Builds the address that a query is sent to.
pub fn build_query_url(prometheus_url: &str, query: &str) -> (r: String)
    ensures
        r@ == query_url_text(prometheus_url@, query@),
{
    let mut out: String = String::from_str(prometheus_url);
    out.append("/query?query=");
    out.append(query);
    out
}

/// `prj-` stands at `i`, the project is `[i + 4, dot)`, a dot stands at
/// `dot` and a character follows it, all on one line.
pub open spec fn project_match(s: Seq<char>, i: int, dot: int) -> bool {
    &&& 0 <= i
    &&& i + 4 < dot
    &&& dot + 1 < s.len()
    &&& s[i] == 'p'
    &&& s[i + 1] == 'r'
    &&& s[i + 2] == 'j'
    &&& s[i + 3] == '-'
    &&& s[dot] == '.'
    &&& no_newline(s, i + 4, dot + 2)
}

/// The match that a greedy search from the left finds: the leftmost
/// `prj-`, and from it the longest project.
pub open spec fn is_project_split(s: Seq<char>, i: int, dot: int) -> bool {
    &&& project_match(s, i, dot)
    &&& forall|i2: int, d2: int| project_match(s, i2, d2) ==> i < i2 || (i == i2 && d2 <= dot)
}

/// The project of a consumer label, if it names one.
pub open spec fn project_of(s: Seq<char>) -> Option<Seq<char>> {
    if exists|p: (int, int)| is_project_split(s, p.0, p.1) {
        let p = choose|p: (int, int)| is_project_split(s, p.0, p.1);
        Some(s.subrange(p.0 + 4, p.1))
    } else {
        None
    }
}

/// Whether no line feed stands in `[from, to)`.
fn clean_between(v: &Vec<char>, from: usize, to: usize) -> (r: bool)
    requires
        from <= to <= v.len(),
    ensures
        r == no_newline(v@, from as int, to as int),
{
    let mut k: usize = from;
    while k < to
        invariant
            from <= k <= to <= v.len(),
            no_newline(v@, from as int, k as int),
        decreases to - k,
    {
        if v[k] == '\n' {
            return false;
        }
        k = k + 1;
    }
    true
}

/// Reads the project of a consumer label such as `prj-abc.port1`.
pub fn extract_project(consumer: &str) -> (r: Option<String>)
    ensures
        match r {
            Some(p) => project_of(consumer@) == Some(p@),
            None => project_of(consumer@) is None,
        },
        r is None <==> forall|i: int, d: int| !project_match(consumer@, i, d),
{
    let v: Vec<char> = chars_of(consumer);
    let n: usize = v.len();
    if n < 7 {
        return None;
    }
    let mut i: usize = 0;
    while i + 6 < n
        invariant
            n == v.len(),
            n >= 7,
            v@ == consumer@,
            i + 6 <= n,
            forall|i2: int, d2: int| i2 < i ==> !project_match(v@, i2, d2),
        decreases n - i,
    {
        if v[i] == 'p' && v[i + 1] == 'r' && v[i + 2] == 'j' && v[i + 3] == '-' {
            let mut dot: usize = n - 2;
            while dot > i + 4
                invariant
                    n == v.len(),
                    v@ == consumer@,
                    i + 6 < n,
                    i + 4 <= dot <= n - 2,
                    v@[i as int] == 'p',
                    v@[i + 1] == 'r',
                    v@[i + 2] == 'j',
                    v@[i + 3] == '-',
                    forall|i2: int, d2: int| i2 < i ==> !project_match(v@, i2, d2),
                    forall|d2: int| d2 > dot ==> !project_match(v@, i as int, d2),
                decreases dot,
            {
                if v[dot] == '.' && clean_between(&v, i + 4, dot + 2) {
                    proof {
                        assert(is_project_split(v@, i as int, dot as int));
                        let q = choose|q: (int, int)| is_project_split(v@, q.0, q.1);
                        assert(is_project_split(v@, (i as int, dot as int).0, (i as int, dot as int).1));
                        assert(project_match(v@, q.0, q.1));
                        assert(q.0 == i && q.1 == dot);
                    }
                    return Some(consumer.substring_char(i + 4, dot).to_owned());
                }
                dot = dot - 1;
            }
        }
        i = i + 1;
    }
    None
}

/// The network is `[i, dash)`, a hyphen stands at `dash`, and a character
/// other than a line feed follows it.
pub open spec fn network_match(s: Seq<char>, i: int, dash: int) -> bool {
    &&& 0 <= i < dash
    &&& dash + 1 < s.len()
    &&& all_label(s, i, dash)
    &&& s[dash] == '-'
    &&& s[dash + 1] != '\n'
}

/// The match that a greedy search from the left finds: the leftmost start,
/// and from it the longest network.
pub open spec fn is_network_split(s: Seq<char>, i: int, dash: int) -> bool {
    &&& network_match(s, i, dash)
    &&& forall|i2: int, d2: int| network_match(s, i2, d2) ==> i < i2 || (i == i2 && d2 <= dash)
}

/// The network of a route label, if it names one.
pub open spec fn network_of(s: Seq<char>) -> Option<Seq<char>> {
    if exists|p: (int, int)| is_network_split(s, p.0, p.1) {
        let p = choose|p: (int, int)| is_network_split(s, p.0, p.1);
        Some(s.subrange(p.0, p.1))
    } else {
        None
    }
}

/// Reads the network of a route label such as
/// `mainnet-v6.ogmios-m1.demeter.run`. Letters and digits are the ASCII
/// ones: a character beyond ASCII is never part of a network.
pub fn extract_network(route: &str) -> (r: Option<String>)
    ensures
        match r {
            Some(p) => network_of(route@) == Some(p@),
            None => network_of(route@) is None,
        },
        r is None <==> forall|i: int, d: int| !network_match(route@, i, d),
{
    let v: Vec<char> = chars_of(route);
    let n: usize = v.len();
    let mut i: usize = 0;
    while i < n
        invariant
            n == v.len(),
            v@ == route@,
            i <= n,
            forall|i2: int, d2: int| i2 < i ==> !network_match(v@, i2, d2),
        decreases n - i,
    {
        let mut run: usize = i;
        while run < n && label_char(v[run])
            invariant
                i <= run <= n,
                n == v.len(),
                all_label(v@, i as int, run as int),
            decreases n - run,
        {
            run = run + 1;
        }
        let mut dash: usize = run;
        while dash > i
            invariant
                n == v.len(),
                v@ == route@,
                forall|i2: int, d2: int| i2 < i ==> !network_match(v@, i2, d2),
                i <= dash <= run <= n,
                all_label(v@, i as int, run as int),
                run < n ==> !is_label(v@[run as int]),
                forall|d2: int| d2 > dash ==> !network_match(v@, i as int, d2),
            decreases dash,
        {
            if n - dash >= 2 && v[dash] == '-' && v[dash + 1] != '\n' {
                proof {
                    assert(all_label(v@, i as int, dash as int));
                    assert(is_network_split(v@, i as int, dash as int));
                    let q = choose|q: (int, int)| is_network_split(v@, q.0, q.1);
                    assert(is_network_split(v@, (i as int, dash as int).0, (i as int, dash as int).1));
                    assert(network_match(v@, q.0, q.1));
                    assert(q.0 == i && q.1 == dash);
                }
                return Some(route.substring_char(i, dash).to_owned());
            }
            dash = dash - 1;
        }
        assert forall|d2: int| !network_match(v@, i as int, d2) by {
            if network_match(v@, i as int, d2) {
                if d2 > run {
                    assert(is_label(v@[run as int]));
                }
            }
        }
        i = i + 1;
    }
    None
}

/// What a row of the answer leads to.
#[derive(Debug)]
pub enum RowAction {
    /// The row is passed over.
    Skip,
    /// No weight is configured for the network: a failure is counted.
    MissingWeight { network: String },
    /// The frames of the row are billed to the project.
    Count { project: String, network: String },
}

/// A row's action as plain values.
pub enum RowActionView {
    Skip,
    MissingWeight { network: Seq<char> },
    Count { project: Seq<char>, network: Seq<char> },
}

impl View for RowAction {
    type V = RowActionView;

    open spec fn view(&self) -> RowActionView {
        match *self {
            RowAction::Skip => RowActionView::Skip,
            RowAction::MissingWeight { network } => RowActionView::MissingWeight {
                network: network@,
            },
            RowAction::Count { project, network } => RowActionView::Count {
                project: project@,
                network: network@,
            },
        }
    }
}

/// Some text of the list is `name`.
pub open spec fn lists(names: Seq<String>, name: Seq<char>) -> bool {
    exists|i: int| 0 <= i < names.len() && (#[trigger] names[i])@ == name
}

/// What a row leads to: nothing where its value is zero, a label is
/// missing, or a label names no project or no network; a counted failure
/// where no weight is configured for its network; a charge otherwise.
pub open spec fn row_action(
    value_is_zero: bool,
    consumer: Option<Seq<char>>,
    route: Option<Seq<char>>,
    weighted: Seq<String>,
) -> RowActionView {
    if value_is_zero || consumer is None || route is None {
        RowActionView::Skip
    } else if project_of(consumer->0) is None || network_of(route->0) is None {
        RowActionView::Skip
    } else if !lists(weighted, network_of(route->0)->0) {
        RowActionView::MissingWeight { network: network_of(route->0)->0 }
    } else {
        RowActionView::Count { project: project_of(consumer->0)->0, network: network_of(route->0)->0 }
    }
}

/// Whether a list of names holds `name`.
fn is_listed(names: &Vec<String>, name: &String) -> (r: bool)
    ensures
        r == lists(names@, name@),
{
    let mut i: usize = 0;
    while i < names.len()
        invariant
            i <= names.len(),
            forall|j: int| 0 <= j < i ==> (#[trigger] names@[j])@ != name@,
        decreases names.len() - i,
    {
        if names[i] == *name {
            return true;
        }
        i = i + 1;
    }
    false
}

/// Decides what a row of the answer leads to. `weighted` names the
/// networks for which a weight per frame is configured.
pub fn classify_row(
    value_is_zero: bool,
    consumer: Option<&str>,
    route: Option<&str>,
    weighted: &Vec<String>,
) -> (r: RowAction)
    ensures
        r@ == row_action(value_is_zero, opt_text(consumer), opt_text(route), weighted@),
{
    if value_is_zero {
        return RowAction::Skip;
    }
    let consumer: &str = match consumer {
        Some(c) => c,
        None => {
            return RowAction::Skip;
        },
    };
    let route: &str = match route {
        Some(r) => r,
        None => {
            return RowAction::Skip;
        },
    };
    let project: String = match extract_project(consumer) {
        Some(p) => p,
        None => {
            return RowAction::Skip;
        },
    };
    let network: String = match extract_network(route) {
        Some(n) => n,
        None => {
            return RowAction::Skip;
        },
    };
    if !is_listed(weighted, &network) {
        return RowAction::MissingWeight { network };
    }
    RowAction::Count { project, network }
}

/// The labels of a charge: project, service, service type and tenancy.
pub open spec fn dcu_labels_of(project: Seq<char>, network: Seq<char>) -> Seq<Seq<char>> {
    seq![project, "OgmiosPort-"@ + network, "ogmiosports.demeter.run"@, "proxy"@]
}

/// Builds the labels under which the units consumed by a project on a
/// network are counted.
pub fn dcu_labels(project: &str, network: &str) -> (r: Vec<String>)
    ensures
        r@.len() == 4,
        r@[0]@ == dcu_labels_of(project@, network@)[0],
        r@[1]@ == dcu_labels_of(project@, network@)[1],
        r@[2]@ == dcu_labels_of(project@, network@)[2],
        r@[3]@ == dcu_labels_of(project@, network@)[3],
{
    let mut service: String = String::from_str("OgmiosPort-");
    service.append(network);
    let mut out: Vec<String> = Vec::new();
    out.push(String::from_str(project));
    out.push(service);
    out.push(String::from_str("ogmiosports.demeter.run"));
    out.push(String::from_str("proxy"));
    out
}

/// Every item of a list of weights has a name and a number: it holds `=`.
pub open spec fn weights_ok(text: Seq<char>) -> bool {
    forall|i: int|
        0 <= i < split(text, ',').len() ==> split(#[trigger] split(text, ',')[i], '=').len() >= 2
}

/// The names and numbers of a list of weights such as
/// `mainnet=5,preprod=2.5`: of each item between commas, what stands
/// before the first `=` and what stands between the first and the second.
pub open spec fn weights_of(text: Seq<char>) -> Seq<(Seq<char>, Seq<char>)> {
    Seq::new(
        split(text, ',').len(),
        |i: int| (split(split(text, ',')[i], '=')[0], split(split(text, ',')[i], '=')[1]),
    )
}

/// The texts of some pairs of strings.
pub open spec fn pair_texts(v: Seq<(String, String)>) -> Seq<(Seq<char>, Seq<char>)> {
    Seq::new(v.len(), |i: int| (v[i].0@, v[i].1@))
}

/// Reads a list of weights per frame into names of networks and the
/// texts of their numbers, or `None` where some item holds no `=`.
pub fn split_weights(text: &str) -> (r: Option<Vec<(String, String)>>)
    ensures
        match r {
            Some(pairs) => weights_ok(text@) && pair_texts(pairs@) == weights_of(text@),
            None => !weights_ok(text@),
        },
{
    let items: Vec<String> = split_text(text, ',');
    let mut out: Vec<(String, String)> = Vec::new();
    let mut i: usize = 0;
    while i < items.len()
        invariant
            i <= items.len(),
            texts(items@) == split(text@, ','),
            out@.len() == i,
            forall|j: int| 0 <= j < i ==> split(#[trigger] split(text@, ',')[j], '=').len() >= 2,
            forall|j: int| 0 <= j < i ==> (#[trigger] out@[j]).0@ == weights_of(text@)[j].0 && out@[j].1@
                == weights_of(text@)[j].1,
        decreases items.len() - i,
    {
        assert(texts(items@)[i as int] == items@[i as int]@);
        let parts: Vec<String> = split_text(items[i].as_str(), '=');
        assert(texts(parts@).len() == parts@.len());
        if parts.len() < 2 {
            return None;
        }
        assert(texts(parts@)[0] == parts@[0]@);
        assert(texts(parts@)[1] == parts@[1]@);
        out.push((parts[0].clone(), parts[1].clone()));
        i = i + 1;
    }
    assert(texts(items@).len() == items@.len());
    assert(pair_texts(out@) =~= weights_of(text@));
    Some(out)
}

} // verus!
