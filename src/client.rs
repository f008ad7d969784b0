use vstd::prelude::*;

use crate::listing::{join_lines, letter, ListError, MAX_CLIENTS};
use crate::text::{decimal, push_char, push_decimal};

verus! {

/// A mediator, reached over HTTP on a loopback port.
#[derive(Debug, Clone, Copy, PartialEq, Eq)]
pub struct BrowserClient {
    pub port: u16,
}

/// The address at which the mediator on `port` lists its tabs.
pub open spec fn tabs_url(port: nat) -> Seq<char> {
    "http://localhost:"@ + decimal(port) + "/list_tabs"@
}

/// The line that names the client at rank `i` and its address:
/// `"<letter>.\tlocalhost:<port>"`.
pub open spec fn client_line(i: nat, port: nat) -> Seq<char> {
    seq![letter(i), '.', '\t'] + "localhost:"@ + decimal(port)
}

impl BrowserClient {
    /// The client of the mediator on `port`.
    pub fn new(port: u16) -> (r: BrowserClient)
        ensures
            r.port == port,
    {
        BrowserClient { port }
    }

    /// The address to fetch this mediator's tab list from.
    pub fn list_tabs_url(&self) -> (r: String)
        ensures
            r@ == tabs_url(self.port as nat),
    {
        let mut url = String::from_str("http://localhost:");
        push_decimal(&mut url, self.port);
        url.append("/list_tabs");
        url
    }
}

/// One client for each of `ports`, in the same order.
pub fn create_clients(ports: &Vec<u16>) -> (r: Vec<BrowserClient>)
    ensures
        r.len() == ports.len(),
        forall|i: int| 0 <= i < r.len() ==> (#[trigger] r@[i]).port == ports@[i],
{
    let mut r: Vec<BrowserClient> = Vec::new();
    let mut i: usize = 0;
    while i < ports.len()
        invariant
            i <= ports.len(),
            r.len() == i,
            forall|k: int| 0 <= k < i ==> (#[trigger] r@[k]).port == ports@[k],
        decreases ports.len() - i,
    {
        r.push(BrowserClient::new(ports[i]));
        i = i + 1;
    }
    r
}

/// The lines that name each live client, in rank order.
pub open spec fn client_lines(ports: Seq<u16>) -> Seq<Seq<char>> {
    Seq::new(ports.len(), |i: int| client_line(i as nat, ports[i] as nat))
}

/// The listing of the live clients: for the port at rank `i`, the line
/// `"<letter>.\tlocalhost:<port>"`, joined by `\n`. There is none where the
/// letters do not reach.
pub fn client_listing(ports: &Vec<u16>) -> (r: Result<String, ListError>)
    ensures
        match r {
            Ok(text) => ports.len() <= MAX_CLIENTS && text@ == join_lines(client_lines(ports@)),
            Err(ListError::TooManyClients { count }) => ports.len() > MAX_CLIENTS && count
                == ports.len(),
            Err(ListError::FetchFailed { .. }) => false,
        },
{
    let n = ports.len();
    if n > MAX_CLIENTS {
        return Err(ListError::TooManyClients { count: n });
    }
    let mut out = String::new();
    let mut i: usize = 0;
    while i < n
        invariant
            i <= n,
            n == ports.len(),
            n <= MAX_CLIENTS,
            out@ == join_lines(client_lines(ports@).take(i as int)),
        decreases n - i,
    {
        let ghost start = out@;
        let ghost prev = client_lines(ports@).take(i as int);
        if i > 0 {
            push_char(&mut out, '\n');
        }
        push_char(&mut out, (97u8 + i as u8) as char);
        push_char(&mut out, '.');
        push_char(&mut out, '\t');
        out.append("localhost:");
        push_decimal(&mut out, ports[i]);
        proof {
            let next = client_lines(ports@).take(i + 1);
            assert(next.drop_last() =~= prev);
            let line = client_line(i as nat, ports@[i as int] as nat);
            if i == 0 {
                assert(out@ =~= line);
            } else {
                assert(out@ =~= start + seq!['\n'] + line);
            }
        }
        i = i + 1;
    }
    assert(client_lines(ports@).take(n as int) =~= client_lines(ports@));
    Ok(out)
}

} // verus!
