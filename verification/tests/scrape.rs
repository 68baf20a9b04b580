use proxy_pool::scrape::{
    column_listing_of, entry_listing_of, join_endpoint, listed_columns, listed_entries,
    listed_rows, row_listing_of, scrape, ScrapeError,
};
use proxy_pool::source::Source;

fn batch(items: &[&str]) -> Vec<String> {
    items.iter().map(|s| s.to_string()).collect()
}

fn found(matches: &[&[Option<&str>]]) -> Vec<Vec<Option<String>>> {
    matches.iter().map(|m| m.iter().map(|g| g.map(|t| t.to_string())).collect()).collect()
}

#[test]
fn scrape_reads_the_rows_of_kuaidaili() {
    let body = "<tr><td data-title=\"IP\">1.2.3.4</td>\n<td data-title=\"PORT\">8080</td></tr>\n\
                <tr><td data-title=\"IP\">5.6.7.8</td>\n  <td data-title=\"PORT\">3128</td></tr>";
    assert_eq!(scrape(Source::Kuaidaili, body), Ok(batch(&["1.2.3.4:8080", "5.6.7.8:3128"])));
}

#[test]
fn scrape_reads_the_list_of_the_interface() {
    let body = "<br>1.2.3.4:80<br>5.6.7.8:8080<br>9.9.9.9:1<";
    assert_eq!(scrape(Source::Ip89Api, body), Ok(batch(&["1.2.3.4:80", "5.6.7.8:8080", "9.9.9.9:1"])));
}

#[test]
fn scrape_pairs_the_columns_of_a_page() {
    let body = "<td>\n\t\t\t1.2.3.4\t\t</td>\n<td>\n\t\t\t\t8080\t\t</td>\n\
                <td>\n\t\t\t5.6.7.8\t\t</td>\n<td>\n\t\t\t\t3128\t\t</td>";
    assert_eq!(scrape(Source::Ip89Pages, body), Ok(batch(&["1.2.3.4:8080", "5.6.7.8:3128"])));
}

#[test]
fn scrape_refuses_a_page_with_more_addresses_than_ports() {
    let body = "1.2.3.4 and 5.6.7.8 and\t80\t";
    assert_eq!(scrape(Source::Ip89Pages, body), Err(ScrapeError::UnpairedHost));
}

#[test]
fn scrape_of_a_page_without_entries_is_empty() {
    assert_eq!(scrape(Source::Kuaidaili, "<html></html>"), Ok(Vec::new()));
    assert_eq!(scrape(Source::Ip89Pages, ""), Ok(Vec::new()));
    assert_eq!(scrape(Source::Ip89Api, "nothing here"), Ok(Vec::new()));
}

#[test]
fn scrape_leaves_a_port_without_address_with_an_empty_host() {
    let body = "1.2.3.4\t80\t then \t81\t";
    assert_eq!(scrape(Source::Ip89Pages, body), Ok(batch(&["1.2.3.4:80", ":81"])));
}

#[test]
fn listed_entries_takes_the_group_of_every_match() {
    let matches = found(&[
        &[Some("r>a<"), Some("a")],
        &[Some("r>b<"), Some("b")],
    ]);
    assert_eq!(listed_entries(&matches, 1), batch(&["a", "b"]));
    assert_eq!(listed_entries(&matches, 0), batch(&["r>a<", "r>b<"]));
}

#[test]
fn listed_entries_passes_over_a_group_that_took_no_part() {
    let matches = found(&[&[Some("x"), None], &[Some("y"), Some("b")], &[Some("z")]]);
    assert_eq!(listed_entries(&matches, 1), batch(&["b"]));
    assert!(listed_entries(&matches, 5).is_empty());
}

#[test]
fn listed_rows_joins_address_and_port() {
    let matches = found(&[
        &[Some("whole"), Some("1.1.1.1"), Some("80")],
        &[Some("whole"), None, Some("81")],
        &[Some("whole"), Some("2.2.2.2"), None],
        &[Some("whole"), Some("3.3.3.3"), Some("82")],
    ]);
    assert_eq!(listed_rows(&matches, 1, 2), batch(&["1.1.1.1:80", "3.3.3.3:82"]));
}

#[test]
fn listed_columns_pairs_by_rank() {
    let hosts = batch(&["1.1.1.1", "2.2.2.2"]);
    let ports = batch(&["80", "81", "82"]);
    assert_eq!(listed_columns(&hosts, &ports), Ok(batch(&["1.1.1.1:80", "2.2.2.2:81", ":82"])));
}

#[test]
fn listed_columns_refuses_more_hosts_than_ports() {
    let hosts = batch(&["1.1.1.1", "2.2.2.2"]);
    let ports = batch(&["80"]);
    assert_eq!(listed_columns(&hosts, &ports), Err(ScrapeError::UnpairedHost));
}

#[test]
fn listings_report_a_pattern_that_did_not_compile() {
    assert_eq!(row_listing_of(None), Err(ScrapeError::BadPattern));
    assert_eq!(entry_listing_of(None), Err(ScrapeError::BadPattern));
}

#[test]
fn row_listing_of_joins_groups_one_and_two() {
    let matches = found(&[&[Some("whole"), Some("1.1.1.1"), Some("80")]]);
    assert_eq!(row_listing_of(Some(matches)), Ok(batch(&["1.1.1.1:80"])));
}

#[test]
fn entry_listing_of_takes_group_one() {
    let matches = found(&[&[Some("whole"), Some("1.1.1.1:80"), Some("80")]]);
    assert_eq!(entry_listing_of(Some(matches)), Ok(batch(&["1.1.1.1:80"])));
}

#[test]
fn column_listing_of_reports_a_pattern_that_did_not_compile() {
    let ports = found(&[&[Some("\t80\t"), Some("80")]]);
    assert_eq!(column_listing_of(None, Some(Vec::new())), Err(ScrapeError::BadPattern));
    assert_eq!(column_listing_of(Some(ports), None), Err(ScrapeError::BadPattern));
}

#[test]
fn column_listing_of_takes_ports_from_group_one_and_hosts_from_group_zero() {
    let ports = found(&[&[Some("\t80\t"), Some("80")]]);
    let hosts = found(&[&[Some("1.1.1.1"), Some("1")]]);
    assert_eq!(column_listing_of(Some(ports), Some(hosts)), Ok(batch(&["1.1.1.1:80"])));
}

#[test]
fn join_endpoint_puts_a_colon_between() {
    assert_eq!(join_endpoint("10.0.0.1", "3128"), "10.0.0.1:3128");
    assert_eq!(join_endpoint("", "80"), ":80");
}
