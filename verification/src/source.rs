//! The listing sites: how many pages each has and where they are found.

use vstd::prelude::*;
use vstd::string::StringExecFns;

verus! {

/// A site that lists proxies.
#[derive(Clone, Copy, Debug, PartialEq, Eq, Structural)]
pub enum Source {
    /// kuaidaili.com, one table cell for the address and one for the port.
    Kuaidaili,
    /// The pages of 89ip.cn, addresses and ports in columns of a table.
    Ip89Pages,
    /// The plain list that the interface of 89ip.cn returns.
    Ip89Api,
}

/// The decimal digit of `d`.
pub open spec fn digit(d: nat) -> char {
    if d == 0 {
        '0'
    } else if d == 1 {
        '1'
    } else if d == 2 {
        '2'
    } else if d == 3 {
        '3'
    } else if d == 4 {
        '4'
    } else if d == 5 {
        '5'
    } else if d == 6 {
        '6'
    } else if d == 7 {
        '7'
    } else if d == 8 {
        '8'
    } else {
        '9'
    }
}

/// `n` written in decimal digits, without leading zeros.
pub open spec fn decimal(n: nat) -> Seq<char>
    decreases n,
{
    if n < 10 {
        seq![digit(n)]
    } else {
        decimal(n / 10).push(digit(n % 10))
    }
}

/// The digit `d` as text.
fn digit_text(d: u32) -> (text: &'static str)
    requires
        d < 10,
    ensures
        text@ == seq![digit(d as nat)],
{
    proof {
        reveal_strlit("0");
        reveal_strlit("1");
        reveal_strlit("2");
        reveal_strlit("3");
        reveal_strlit("4");
        reveal_strlit("5");
        reveal_strlit("6");
        reveal_strlit("7");
        reveal_strlit("8");
        reveal_strlit("9");
    }
    let text = if d == 0 {
        "0"
    } else if d == 1 {
        "1"
    } else if d == 2 {
        "2"
    } else if d == 3 {
        "3"
    } else if d == 4 {
        "4"
    } else if d == 5 {
        "5"
    } else if d == 6 {
        "6"
    } else if d == 7 {
        "7"
    } else if d == 8 {
        "8"
    } else {
        "9"
    };
    assert(text@ =~= seq![digit(d as nat)]);
    text
}

/// Writes `n` in decimal digits.
pub fn decimal_text(n: u32) -> (text: String)
    ensures
        text@ == decimal(n as nat),
    decreases n,
{
    if n < 10 {
        String::from_str(digit_text(n))
    } else {
        let mut text = decimal_text(n / 10);
        text.append(digit_text(n % 10));
        assert(text@ =~= decimal((n / 10) as nat).push(digit((n % 10) as nat)));
        text
    }
}

impl Source {
    /// Number of pages that are read of the site in one cycle.
    pub open spec fn pages(self) -> nat {
        match self {
            Source::Kuaidaili => 39,
            Source::Ip89Pages => 39,
            Source::Ip89Api => 1,
        }
    }

    /// The address of page `page` of the site; the interface of 89ip.cn has
    /// one address whatever the page.
    pub open spec fn url(self, page: nat) -> Seq<char> {
        match self {
            Source::Kuaidaili => "https://www.kuaidaili.com/free/inha/"@ + decimal(page) + "/"@,
            Source::Ip89Pages => "http://www.89ip.cn/index_"@ + decimal(page) + ".html"@,
            Source::Ip89Api => "http://api.89ip.cn/tqdl.html?api=1&num=3000&port=&address=&isp="@,
        }
    }

    /// The host name that a request to the site announces, if it is to
    /// announce one of its own.
    pub open spec fn host(self) -> Option<Seq<char>> {
        match self {
            Source::Kuaidaili => None,
            Source::Ip89Pages => Some("www.89ip.cn"@),
            Source::Ip89Api => Some("api.89ip.cn"@),
        }
    }

    /// The browser that a request to the site announces itself as.
    pub open spec fn agent(self) -> Seq<char> {
        match self {
            Source::Kuaidaili => "Mozilla/5.0 (Windows NT 10.0; Win64; x64) AppleWebKit/537.36 (KHTML, like Gecko) Chrome/80.0.3987.163 Safari/537.36"@,
            _ => "Mozilla/5.0 (Windows NT 10.0; Win64; x64) AppleWebKit/537.36 (KHTML, like Gecko) Chrome/89.0.4389.114 Safari/537.36"@,
        }
    }

    /// Every site, in the order in which their batches are combined.
    pub fn all() -> (sources: Vec<Source>)
        ensures
            sources@ == seq![Source::Kuaidaili, Source::Ip89Pages, Source::Ip89Api],
    {
        let mut sources: Vec<Source> = Vec::new();
        sources.push(Source::Kuaidaili);
        sources.push(Source::Ip89Pages);
        sources.push(Source::Ip89Api);
        assert(sources@ =~= seq![Source::Kuaidaili, Source::Ip89Pages, Source::Ip89Api]);
        sources
    }

    /// Number of pages that are read of the site in one cycle; they are
    /// numbered from 1.
    pub fn page_count(&self) -> (count: u32)
        ensures
            count == self.pages(),
    {
        match self {
            Source::Kuaidaili => 39,
            Source::Ip89Pages => 39,
            Source::Ip89Api => 1,
        }
    }

    /// The address of page `page` of the site.
    pub fn page_url(&self, page: u32) -> (url: String)
        ensures
            url@ == self.url(page as nat),
    {
        match self {
            Source::Kuaidaili => {
                let mut url = String::from_str("https://www.kuaidaili.com/free/inha/");
                let number = decimal_text(page);
                url.append(number.as_str());
                url.append("/");
                url
            },
            Source::Ip89Pages => {
                let mut url = String::from_str("http://www.89ip.cn/index_");
                let number = decimal_text(page);
                url.append(number.as_str());
                url.append(".html");
                url
            },
            Source::Ip89Api => String::from_str(
                "http://api.89ip.cn/tqdl.html?api=1&num=3000&port=&address=&isp=",
            ),
        }
    }

    /// The browser that a request to the site announces itself as.
    pub fn user_agent(&self) -> (agent: &'static str)
        ensures
            agent@ == self.agent(),
    {
        match self {
            Source::Kuaidaili => "Mozilla/5.0 (Windows NT 10.0; Win64; x64) AppleWebKit/537.36 (KHTML, like Gecko) Chrome/80.0.3987.163 Safari/537.36",
            _ => "Mozilla/5.0 (Windows NT 10.0; Win64; x64) AppleWebKit/537.36 (KHTML, like Gecko) Chrome/89.0.4389.114 Safari/537.36",
        }
    }

    /// The host name that a request to the site announces, if any.
    pub fn host_header(&self) -> (host: Option<&'static str>)
        ensures
            match host {
                Some(name) => self.host() == Some(name@),
                None => self.host().is_none(),
            },
    {
        match self {
            Source::Kuaidaili => None,
            Source::Ip89Pages => Some("www.89ip.cn"),
            Source::Ip89Api => Some("api.89ip.cn"),
        }
    }
}

} // verus!
