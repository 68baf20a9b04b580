//! Reading candidate endpoints out of the pages of the listing sites.
//!
//! The pages are searched with regular expressions. The search itself is
//! the work of the `regex` crate and is taken on trust; what is made of the
//! matches is decided and proved here.

use crate::source::Source;
use vstd::prelude::*;
use vstd::string::StringExecFns;

verus! {

/// What `regex::Regex::new(pattern)` followed by `captures_iter(text)`
/// yields: nothing if the pattern does not compile, else one entry per
/// match, in the order of the matches, holding for each capture group of
/// the pattern, group 0 first, the text it matched, if it took part.
pub uninterp spec fn regex_captures(pattern: Seq<char>, text: Seq<char>) -> Option<
    Seq<Seq<Option<Seq<char>>>>,
>;

/// Compiles `pattern` with `regex::Regex::new` and searches `text` with
/// `Regex::captures_iter`, copying out of every match the text of every
/// capture group (`Captures::iter`, `Match::as_str`). The contract only
/// names the result: the same pattern and text give the same matches.
#[verifier::external_body]
fn find_captures(pattern: &str, text: &str) -> (found: Option<Vec<Vec<Option<String>>>>)
    ensures
        found.deep_view() == regex_captures(pattern@, text@),
{
    let compiled = match regex::Regex::new(pattern) {
        Ok(compiled) => compiled,
        Err(_) => return None,
    };
    let mut found = Vec::new();
    for captures in compiled.captures_iter(text) {
        found.push(captures.iter().map(|group| group.map(|m| m.as_str().to_string())).collect());
    }
    Some(found)
}

/// Why a page could not be read.
#[derive(Clone, Copy, Debug, PartialEq, Eq, Structural)]
pub enum ScrapeError {
    /// A search pattern did not compile.
    BadPattern,
    /// The page holds more addresses than ports.
    UnpairedHost,
}

/// The pattern for a table row of kuaidaili.com: address in group 1, port
/// in group 2.
pub open spec fn kuaidaili_pattern() -> Seq<char> {
    "IP\">(.*?)</td>[\\s\\S]*?PORT\">(.*?)</td>"@
}

/// The pattern for a port on a page of 89ip.cn, in group 1.
pub open spec fn port_pattern() -> Seq<char> {
    "\\t(\\d{1,5})\\t"@
}

/// The pattern for an address on a page of 89ip.cn, in group 0.
pub open spec fn host_pattern() -> Seq<char> {
    "((2((5[0-5])|([0-4]\\d)))|([0-1]?\\d{1,2}))(\\.((2((5[0-5])|([0-4]\\d)))|([0-1]?\\d{1,2}))){3}"@
}

/// The pattern for an entry of the list of 89ip.cn, in group 1.
pub open spec fn entry_pattern() -> Seq<char> {
    "r>(.*?)<"@
}

/// `host:port`.
pub open spec fn endpoint_text(host: Seq<char>, port: Seq<char>) -> Seq<char> {
    host + seq![':'] + port
}

/// The text of capture group `group` of one match, if the pattern has that
/// group and it took part.
pub open spec fn group_text(found: Seq<Option<Seq<char>>>, group: int) -> Option<Seq<char>> {
    if 0 <= group < found.len() {
        found[group]
    } else {
        None
    }
}

/// The texts of capture group `group` over all matches, in their order; a
/// match in which the group took no part gives none.
pub open spec fn entries(found: Seq<Seq<Option<Seq<char>>>>, group: int) -> Seq<Seq<char>>
    decreases found.len(),
{
    if found.len() == 0 {
        Seq::empty()
    } else {
        match group_text(found.last(), group) {
            Some(text) => entries(found.drop_last(), group).push(text),
            None => entries(found.drop_last(), group),
        }
    }
}

/// One endpoint per match, of the texts of the groups `host` and `port`; a
/// match in which one of them took no part gives none.
pub open spec fn rows(found: Seq<Seq<Option<Seq<char>>>>, host: int, port: int) -> Seq<Seq<char>>
    decreases found.len(),
{
    if found.len() == 0 {
        Seq::empty()
    } else {
        match (group_text(found.last(), host), group_text(found.last(), port)) {
            (Some(h), Some(p)) => rows(found.drop_last(), host, port).push(endpoint_text(h, p)),
            _ => rows(found.drop_last(), host, port),
        }
    }
}

/// One endpoint per port: the address of the same rank before it, or no
/// address where the addresses have run out.
pub open spec fn columns(hosts: Seq<Seq<char>>, ports: Seq<Seq<char>>) -> Seq<Seq<char>> {
    Seq::new(
        ports.len(),
        |i: int|
            endpoint_text(
                if i < hosts.len() {
                    hosts[i]
                } else {
                    Seq::empty()
                },
                ports[i],
            ),
    )
}

/// What the list of the interface of 89ip.cn gives, from the matches of
/// its entries: the text of group 1 of each.
pub open spec fn entry_listing(found: Option<Seq<Seq<Option<Seq<char>>>>>) -> Result<
    Seq<Seq<char>>,
    ScrapeError,
> {
    match found {
        Some(found) => Ok(entries(found, 1)),
        None => Err(ScrapeError::BadPattern),
    }
}

/// What a page of kuaidaili.com gives, from the matches of its rows: the
/// address in group 1 and the port in group 2 of each.
pub open spec fn row_listing(found: Option<Seq<Seq<Option<Seq<char>>>>>) -> Result<
    Seq<Seq<char>>,
    ScrapeError,
> {
    match found {
        Some(found) => Ok(rows(found, 1, 2)),
        None => Err(ScrapeError::BadPattern),
    }
}

/// What a page of 89ip.cn gives, from the matches of its ports and of its
/// addresses.
pub open spec fn column_listing(
    ports: Option<Seq<Seq<Option<Seq<char>>>>>,
    hosts: Option<Seq<Seq<Option<Seq<char>>>>>,
) -> Result<Seq<Seq<char>>, ScrapeError> {
    match (ports, hosts) {
        (Some(ports), Some(hosts)) => if entries(hosts, 0).len() > entries(ports, 1).len() {
            Err(ScrapeError::UnpairedHost)
        } else {
            Ok(columns(entries(hosts, 0), entries(ports, 1)))
        },
        _ => Err(ScrapeError::BadPattern),
    }
}

/// The candidates that the page `body` of `source` lists.
pub open spec fn scraped(source: Source, body: Seq<char>) -> Result<Seq<Seq<char>>, ScrapeError> {
    match source {
        Source::Kuaidaili => row_listing(regex_captures(kuaidaili_pattern(), body)),
        Source::Ip89Api => entry_listing(regex_captures(entry_pattern(), body)),
        Source::Ip89Pages => column_listing(
            regex_captures(port_pattern(), body),
            regex_captures(host_pattern(), body),
        ),
    }
}

/// A result of scraping as a mathematical value.
pub open spec fn listing_view(listing: Result<Vec<String>, ScrapeError>) -> Result<
    Seq<Seq<char>>,
    ScrapeError,
> {
    match listing {
        Ok(list) => Ok(list.deep_view()),
        Err(e) => Err(e),
    }
}

/// Joins an address and a port into `host:port`.
pub fn join_endpoint(host: &str, port: &str) -> (endpoint: String)
    ensures
        endpoint@ == endpoint_text(host@, port@),
{
    let mut endpoint = String::from_str(host);
    proof {
        reveal_strlit(":");
    }
    endpoint.append(":");
    endpoint.append(port);
    assert(":"@ =~= seq![':']);
    endpoint
}

/// The text of capture group `group` of one match, if it took part.
fn group_of(found: &Vec<Option<String>>, group: usize) -> (text: Option<&String>)
    ensures
        match text {
            Some(text) => group_text(found.deep_view(), group as int) == Some(text@),
            None => group_text(found.deep_view(), group as int).is_none(),
        },
{
    if group < found.len() {
        match &found[group] {
            Some(text) => Some(text),
            None => None,
        }
    } else {
        None
    }
}

/// The texts of capture group `group` over all matches.
pub fn listed_entries(found: &Vec<Vec<Option<String>>>, group: usize) -> (list: Vec<String>)
    ensures
        list.deep_view() == entries(found.deep_view(), group as int),
{
    let ghost all = found.deep_view();
    let mut list: Vec<String> = Vec::new();
    let mut i: usize = 0;
    assert(all.take(0) =~= Seq::<Seq<Option<Seq<char>>>>::empty());
    assert(list.deep_view() =~= Seq::<Seq<char>>::empty());
    while i < found.len()
        invariant
            0 <= i <= found.len(),
            all == found.deep_view(),
            list.deep_view() == entries(all.take(i as int), group as int),
        decreases found.len() - i,
    {
        proof {
            assert(all.take(i + 1).drop_last() =~= all.take(i as int));
            assert(all.take(i + 1).last() == found[i as int].deep_view());
        }
        let ghost before = list.deep_view();
        match group_of(&found[i], group) {
            Some(text) => {
                list.push(text.clone());
                assert(list.deep_view() =~= before.push(text@));
            },
            None => {},
        }
        i += 1;
    }
    assert(all.take(found.len() as int) =~= all);
    list
}

/// One endpoint per match, of the texts of the groups `host` and `port`.
pub fn listed_rows(found: &Vec<Vec<Option<String>>>, host: usize, port: usize) -> (list: Vec<
    String,
>)
    ensures
        list.deep_view() == rows(found.deep_view(), host as int, port as int),
{
    let ghost all = found.deep_view();
    let mut list: Vec<String> = Vec::new();
    let mut i: usize = 0;
    assert(all.take(0) =~= Seq::<Seq<Option<Seq<char>>>>::empty());
    assert(list.deep_view() =~= Seq::<Seq<char>>::empty());
    while i < found.len()
        invariant
            0 <= i <= found.len(),
            all == found.deep_view(),
            list.deep_view() == rows(all.take(i as int), host as int, port as int),
        decreases found.len() - i,
    {
        proof {
            assert(all.take(i + 1).drop_last() =~= all.take(i as int));
            assert(all.take(i + 1).last() == found[i as int].deep_view());
        }
        let ghost before = list.deep_view();
        match (group_of(&found[i], host), group_of(&found[i], port)) {
            (Some(h), Some(p)) => {
                let endpoint = join_endpoint(h.as_str(), p.as_str());
                list.push(endpoint);
                assert(list.deep_view() =~= before.push(endpoint_text(h@, p@)));
            },
            _ => {},
        }
        i += 1;
    }
    assert(all.take(found.len() as int) =~= all);
    list
}

/// One endpoint per port, with the address of the same rank; refused if
/// there are more addresses than ports.
pub fn listed_columns(hosts: &Vec<String>, ports: &Vec<String>) -> (listing: Result<
    Vec<String>,
    ScrapeError,
>)
    ensures
        listing_view(listing) == (if hosts.len() > ports.len() {
            Err::<Seq<Seq<char>>, ScrapeError>(ScrapeError::UnpairedHost)
        } else {
            Ok(columns(hosts.deep_view(), ports.deep_view()))
        }),
{
    if hosts.len() > ports.len() {
        return Err(ScrapeError::UnpairedHost);
    }
    let ghost goal = columns(hosts.deep_view(), ports.deep_view());
    let mut list: Vec<String> = Vec::new();
    let mut i: usize = 0;
    assert(list.deep_view() =~= goal.take(0));
    while i < ports.len()
        invariant
            0 <= i <= ports.len(),
            goal == columns(hosts.deep_view(), ports.deep_view()),
            list.deep_view() == goal.take(i as int),
        decreases ports.len() - i,
    {
        let ghost before = list.deep_view();
        let endpoint = if i < hosts.len() {
            join_endpoint(hosts[i].as_str(), ports[i].as_str())
        } else {
            let blank = String::new();
            join_endpoint(blank.as_str(), ports[i].as_str())
        };
        list.push(endpoint);
        assert(list.deep_view() =~= before.push(goal[i as int]));
        assert(goal.take(i + 1) =~= goal.take(i as int).push(goal[i as int]));
        i += 1;
    }
    assert(goal.take(ports.len() as int) =~= goal);
    Ok(list)
}

/// What the list of the interface of 89ip.cn gives, from the matches of
/// its entries.
pub fn entry_listing_of(found: Option<Vec<Vec<Option<String>>>>) -> (listing: Result<
    Vec<String>,
    ScrapeError,
>)
    ensures
        listing_view(listing) == entry_listing(found.deep_view()),
{
    match found {
        Some(found) => Ok(listed_entries(&found, 1)),
        None => Err(ScrapeError::BadPattern),
    }
}

/// What a page of kuaidaili.com gives, from the matches of its rows.
pub fn row_listing_of(found: Option<Vec<Vec<Option<String>>>>) -> (listing: Result<
    Vec<String>,
    ScrapeError,
>)
    ensures
        listing_view(listing) == row_listing(found.deep_view()),
{
    match found {
        Some(found) => Ok(listed_rows(&found, 1, 2)),
        None => Err(ScrapeError::BadPattern),
    }
}

/// What a page of 89ip.cn gives, from the matches of its ports and of its
/// addresses.
pub fn column_listing_of(
    ports: Option<Vec<Vec<Option<String>>>>,
    hosts: Option<Vec<Vec<Option<String>>>>,
) -> (listing: Result<Vec<String>, ScrapeError>)
    ensures
        listing_view(listing) == column_listing(ports.deep_view(), hosts.deep_view()),
{
    match (ports, hosts) {
        (Some(ports), Some(hosts)) => {
            let hosts = listed_entries(&hosts, 0);
            let ports = listed_entries(&ports, 1);
            listed_columns(&hosts, &ports)
        },
        _ => Err(ScrapeError::BadPattern),
    }
}

/// Reads the candidates out of the page `body` of `source`.
pub fn scrape(source: Source, body: &str) -> (listing: Result<Vec<String>, ScrapeError>)
    ensures
        listing_view(listing) == scraped(source, body@),
{
    match source {
        Source::Kuaidaili => {
            let found = find_captures("IP\">(.*?)</td>[\\s\\S]*?PORT\">(.*?)</td>", body);
            row_listing_of(found)
        },
        Source::Ip89Api => {
            let found = find_captures("r>(.*?)<", body);
            entry_listing_of(found)
        },
        Source::Ip89Pages => {
            let ports = find_captures("\\t(\\d{1,5})\\t", body);
            let hosts = find_captures(
                "((2((5[0-5])|([0-4]\\d)))|([0-1]?\\d{1,2}))(\\.((2((5[0-5])|([0-4]\\d)))|([0-1]?\\d{1,2}))){3}",
                body,
            );
            column_listing_of(ports, hosts)
        },
    }
}

} // verus!
