//! What a discovery request is made with, and the query it sends.
use vstd::prelude::*;
use vstd::string::StringExecFns;

verus! {

/// The HTTP client, carried through unopened.
#[verifier::external_type_specification]
#[verifier::external_body]
pub struct ExReqwestClient(reqwest::Client);

/// The character of a decimal digit `d < 10`.
pub open spec fn digit_char(d: nat) -> char {
    seq!['0', '1', '2', '3', '4', '5', '6', '7', '8', '9'][d as int]
}

/// `n` written in decimal, without sign or leading zeros.
pub open spec fn decimal(n: nat) -> Seq<char>
    decreases n,
{
    if n < 10 {
        seq![digit_char(n)]
    } else {
        decimal(n / 10) + seq![digit_char(n % 10)]
    }
}

/// The query parameters of a discovery request: the connection type and realm
/// always, then the cell hint when there is one.
pub open spec fn discovery_query(cell: Option<u8>) -> Seq<(Seq<char>, Seq<char>)> {
    let fixed = seq![("cmtype"@, "websockets"@), ("realm"@, "steamglobal"@)];
    match cell {
        Some(c) => fixed.push(("cellid"@, decimal(c as nat))),
        None => fixed,
    }
}

/// Relies on `ToString::to_string` through `u8`'s `Display`: the plain
/// decimal digits of the number.
#[verifier::external_body]
fn decimal_string(n: u8) -> (r: String)
    ensures
        r@ == decimal(n as nat),
{
    n.to_string()
}

/// Settings of a discovery request.
///
/// By default no client is given, so a standard one is made for the request,
/// and no cell hint is sent.
#[derive(Clone, Debug)]
pub struct DiscoverOptions {
    web_client: Option<reqwest::Client>,
    /// Explicit cell ID
    cell: Option<u8>,
}

impl Default for DiscoverOptions {
    fn default() -> (r: Self)
        ensures
            r.spec_web_client() is None,
            r.spec_cell() is None,
    {
        DiscoverOptions { web_client: None, cell: None }
    }
}

impl DiscoverOptions {
    /// The client the request is sent with, if one was given.
    pub closed spec fn spec_web_client(&self) -> Option<reqwest::Client> {
        self.web_client
    }

    /// The cell hint, if one was given.
    pub closed spec fn spec_cell(&self) -> Option<u8> {
        self.cell
    }

    /// Sends the request with `web_client` in place of a standard client.
    pub fn with_web_client(self, web_client: reqwest::Client) -> (r: Self)
        ensures
            r.spec_web_client() == Some(web_client),
            r.spec_cell() == self.spec_cell(),
    {
        DiscoverOptions { web_client: Some(web_client), ..self }
    }

    /// Sends `cell` as the locality hint of the request.
    pub fn with_cell(self, cell: u8) -> (r: Self)
        ensures
            r.spec_cell() == Some(cell),
            r.spec_web_client() == self.spec_web_client(),
    {
        DiscoverOptions { cell: Some(cell), ..self }
    }

    /// The client the request is sent with, if one was given.
    pub fn web_client(&self) -> (r: Option<&reqwest::Client>)
        ensures
            r is Some <==> self.spec_web_client() is Some,
            r matches Some(c) ==> *c == self.spec_web_client()->Some_0,
    {
        match &self.web_client {
            Some(c) => Some(c),
            None => None,
        }
    }

    /// The cell hint, if one was given.
    pub fn cell(&self) -> (r: Option<u8>)
        ensures
            r == self.spec_cell(),
    {
        self.cell
    }

    /// The query parameters the discovery request carries, as name and value.
    pub fn query(&self) -> (r: Vec<(String, String)>)
        ensures
            r@.map_values(|p: (String, String)| (p.0@, p.1@)) == discovery_query(self.spec_cell()),
    {
        let mut q: Vec<(String, String)> = Vec::new();
        q.push((String::from_str("cmtype"), String::from_str("websockets")));
        q.push((String::from_str("realm"), String::from_str("steamglobal")));
        match self.cell {
            Some(c) => {
                q.push((String::from_str("cellid"), decimal_string(c)));
            },
            None => {},
        }
        proof {
            reveal_strlit("cmtype");
            reveal_strlit("websockets");
            reveal_strlit("realm");
            reveal_strlit("steamglobal");
            reveal_strlit("cellid");
        }
        assert(q@.map_values(|p: (String, String)| (p.0@, p.1@)) =~= discovery_query(self.cell));
        q
    }
}

} // verus!
