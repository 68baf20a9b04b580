use proxy_pool::source::{decimal_text, Source};

#[test]
fn page_url_of_kuaidaili_counts_pages_in_the_path() {
    assert_eq!(Source::Kuaidaili.page_url(1), "https://www.kuaidaili.com/free/inha/1/");
    assert_eq!(Source::Kuaidaili.page_url(39), "https://www.kuaidaili.com/free/inha/39/");
}

#[test]
fn page_url_of_89ip_counts_pages_in_the_file_name() {
    assert_eq!(Source::Ip89Pages.page_url(1), "http://www.89ip.cn/index_1.html");
    assert_eq!(Source::Ip89Pages.page_url(20), "http://www.89ip.cn/index_20.html");
}

#[test]
fn page_url_of_the_interface_is_fixed() {
    let url = "http://api.89ip.cn/tqdl.html?api=1&num=3000&port=&address=&isp=";
    assert_eq!(Source::Ip89Api.page_url(1), url);
    assert_eq!(Source::Ip89Api.page_url(7), url);
}

#[test]
fn page_counts_are_those_of_the_sites() {
    assert_eq!(Source::Kuaidaili.page_count(), 39);
    assert_eq!(Source::Ip89Pages.page_count(), 39);
    assert_eq!(Source::Ip89Api.page_count(), 1);
}

#[test]
fn all_sources_are_listed_once() {
    assert_eq!(Source::all(), vec![Source::Kuaidaili, Source::Ip89Pages, Source::Ip89Api]);
}

#[test]
fn host_header_is_set_for_89ip_only() {
    assert_eq!(Source::Kuaidaili.host_header(), None);
    assert_eq!(Source::Ip89Pages.host_header(), Some("www.89ip.cn"));
    assert_eq!(Source::Ip89Api.host_header(), Some("api.89ip.cn"));
}

#[test]
fn user_agent_differs_by_site() {
    assert!(Source::Kuaidaili.user_agent().contains("Chrome/80.0.3987.163"));
    assert!(Source::Ip89Pages.user_agent().contains("Chrome/89.0.4389.114"));
    assert_eq!(Source::Ip89Api.user_agent(), Source::Ip89Pages.user_agent());
}

#[test]
fn decimal_text_writes_numbers_as_format_does() {
    for n in [0u32, 1, 9, 10, 11, 39, 99, 100, 101, 1000, 65535, 4294967295] {
        assert_eq!(decimal_text(n), format!("{}", n));
    }
}
