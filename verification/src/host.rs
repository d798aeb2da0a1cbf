//! The addresses of servers, which are URLs.

use vstd::prelude::*;

verus! {

/// What `url` reports of a text that is no URL.
#[verifier::external_type_specification]
#[verifier::external_body]
pub struct ExParseError(url::ParseError);

/// What `Url::parse` makes of a text: the URL in its normal form, with the port
/// that it names, or nothing where the text is no URL.
pub uninterp spec fn parsed_url(text: Seq<char>) -> Option<(Seq<char>, Option<u16>)>;

/// `Url::parse`, with `Url::as_str` and `Url::port` of what it returns: the normal
/// form and the port are a function of the text alone.
#[verifier::external_body]
fn parse_url(text: &str) -> (parsed: Result<(String, Option<u16>), url::ParseError>)
    ensures
        match parsed {
            Ok((normal, port)) => parsed_url(text@) == Some((normal@, port)),
            Err(_) => parsed_url(text@) is None,
        },
{
    match url::Url::parse(text) {
        Ok(url) => Ok((String::from(url.as_str()), url.port())),
        Err(error) => Err(error),
    }
}

/// The port of ClickHouse's text protocol.
pub const TEXT_PROTOCOL_PORT: u16 = 8123;

/// The text given as an address is no URL.
#[derive(Debug, PartialEq, Eq, Structural)]
pub struct InvalidUrl;

/// The address of a server.
#[derive(Debug, PartialEq, Eq)]
pub struct Host {
    url: String,
    port: Option<u16>,
}

impl Host {
    /// The URL, in its normal form.
    pub closed spec fn spec_url(self) -> Seq<char> {
        self.url@
    }

    /// The port that the URL names.
    pub closed spec fn spec_port(self) -> Option<u16> {
        self.port
    }

    /// Reads an address.
    pub fn parse(text: &str) -> (host: Result<Host, InvalidUrl>)
        ensures
            match host {
                Ok(host) => parsed_url(text@) == Some((host.spec_url(), host.spec_port())),
                Err(_) => parsed_url(text@) is None,
            },
    {
        match parse_url(text) {
            Ok((url, port)) => Ok(Host { url, port }),
            Err(_) => Err(InvalidUrl),
        }
    }

    /// The URL, in its normal form.
    pub fn url(&self) -> (url: &str)
        ensures
            url@ == self.spec_url(),
    {
        self.url.as_str()
    }

    /// The port that the URL names.
    pub fn port(&self) -> (port: Option<u16>)
        ensures
            port == self.spec_port(),
    {
        self.port
    }
}

impl Clone for Host {
    fn clone(&self) -> (copy: Self)
        ensures
            copy == *self,
    {
        Host { url: self.url.clone(), port: self.port }
    }
}

/// Whether one of the addresses names the port of the text protocol, which is not
/// the one that connections speak.
pub fn names_text_port(hosts: &Vec<Host>) -> (named: bool)
    ensures
        named == exists|i: int|
            0 <= i < hosts@.len() && (#[trigger] hosts@[i]).spec_port() == Some(
                TEXT_PROTOCOL_PORT,
            ),
{
    let mut i: usize = 0;
    while i < hosts.len()
        invariant
            i <= hosts@.len(),
            forall|j: int|
                0 <= j < i ==> (#[trigger] hosts@[j]).spec_port() != Some(TEXT_PROTOCOL_PORT),
        decreases hosts@.len() - i,
    {
        if let Some(port) = hosts[i].port() {
            if port == TEXT_PROTOCOL_PORT {
                return true;
            }
        }
        i = i + 1;
    }
    false
}

} // verus!
