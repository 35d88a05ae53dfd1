use ogmios_gateway::billing::{extract_network, extract_project};
use ogmios_gateway::hostname::parse_host;
use ogmios_gateway::tiers::{parse_interval, IntervalError};
use regex::Regex;

/// Every text over `alphabet` of at most `longest` characters, each with `prefix` in front.
fn texts(prefix: &str, alphabet: &[char], longest: usize) -> Vec<String> {
    let mut all = vec![prefix.to_string()];
    let mut last = vec![prefix.to_string()];
    for _ in 0..longest {
        let mut next = Vec::new();
        for text in &last {
            for c in alphabet {
                let mut longer = text.clone();
                longer.push(*c);
                next.push(longer);
            }
        }
        all.extend(next.iter().cloned());
        last = next;
    }
    all
}

fn hosts_agree(pattern: &Regex, host: &str) {
    let found = parse_host(host).map(|p| (p.key, p.network, p.version));
    let expected = pattern.captures(host).map(|c| {
        (
            c.get(1).map(|m| m.as_str().to_string()),
            c.get(2).unwrap().as_str().to_string(),
            c.get(3).unwrap().as_str().to_string(),
        )
    });
    assert_eq!(found, expected, "host {:?}", host);
}

#[test]
fn hosts_are_read_as_the_pattern_reads_them() {
    let pattern = Regex::new(r"^(dmtr_[\w\d-]+)?\.?([\w-]+)-v(\d+).+$").unwrap();
    for host in texts("", &['a', '-', 'v', '1', '.', '\n'], 7) {
        hosts_agree(&pattern, &host);
    }
}

#[test]
fn keyed_hosts_are_read_as_the_pattern_reads_them() {
    let pattern = Regex::new(r"^(dmtr_[\w\d-]+)?\.?([\w-]+)-v(\d+).+$").unwrap();
    for host in texts("dmtr_", &['a', '-', 'v', '1', '.'], 7) {
        hosts_agree(&pattern, &host);
    }
    for host in texts("dmtr_k.", &['a', '-', 'v', '1', '.', '_'], 6) {
        hosts_agree(&pattern, &host);
    }
}

#[test]
fn intervals_are_read_as_the_anchored_pattern_reads_them() {
    let pattern = Regex::new(r"^([\d]+)([\w])$").unwrap();
    for text in texts("", &['1', '2', 's', 'm', 'x', '_', ' ', '-'], 6) {
        let expected = match pattern.captures(&text) {
            None => Err(IntervalError::InvalidFormat),
            Some(c) => {
                let number = c.get(1).unwrap().as_str().parse::<u64>().unwrap();
                match c.get(2).unwrap().as_str() {
                    "s" => Ok(number),
                    "m" => Ok(number * 60),
                    "h" => Ok(number * 60 * 60),
                    "d" => Ok(number * 60 * 60 * 24),
                    _ => Err(IntervalError::InvalidSymbol),
                }
            }
        };
        assert_eq!(parse_interval(&text), expected, "interval {:?}", text);
    }
}

#[test]
fn projects_are_read_as_the_pattern_reads_them() {
    let pattern = Regex::new(r"prj-(.+)\..+").unwrap();
    for head in ["", "x", "prj-", "prj-a", "prj-.", "pprj-"] {
        for text in texts(head, &['p', 'r', 'j', '-', '.', 'a', '\n'], 5) {
            let expected = pattern.captures(&text).map(|c| c.get(1).unwrap().as_str().to_string());
            assert_eq!(extract_project(&text), expected, "consumer {:?}", text);
        }
    }
}

#[test]
fn networks_are_read_as_the_pattern_reads_them() {
    let pattern = Regex::new(r"([\w-]+)-.+").unwrap();
    for text in texts("", &['a', '-', '.', '_', '\n', ' '], 7) {
        let expected = pattern.captures(&text).map(|c| c.get(1).unwrap().as_str().to_string());
        assert_eq!(extract_network(&text), expected, "route {:?}", text);
    }
}
