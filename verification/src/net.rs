//! Addresses the server announces, the WebSocket port fallback, and reading the
//! owners of a listening port out of `netstat` output.
use vstd::prelude::*;
use crate::text::{
    decimal, decimal_chars, extend_chars, extend_str, chars_to_string, str_chars, chars_eq,
    parse_unsigned, parse_unsigned_chars,
};
use crate::split::{split_pieces, words, piece_views, split_chars, lemma_split_nonempty};

verus! {

/// An IPv4 address, by its four octets.
#[derive(Debug, Clone, Copy, PartialEq, Eq, Structural)]
pub struct Ipv4(pub u8, pub u8, pub u8, pub u8);

/// The host part of a bind address. An IPv6 address other than the unspecified one is
/// held as its standard text form.
#[derive(Debug, Clone, PartialEq, Eq)]
pub enum BindHost {
    V4(Ipv4),
    V6Unspecified,
    V6(String),
}

/// A socket address the server binds to.
#[derive(Debug, Clone, PartialEq, Eq)]
pub struct BindAddr {
    pub host: BindHost,
    pub port: u16,
}

impl Ipv4 {
    pub open spec fn unspecified(self) -> bool {
        self.0 == 0 && self.1 == 0 && self.2 == 0 && self.3 == 0
    }

    pub open spec fn loopback(self) -> bool {
        self.0 == 127
    }

    pub fn is_unspecified(&self) -> (r: bool)
        ensures
            r == self.unspecified(),
    {
        self.0 == 0 && self.1 == 0 && self.2 == 0 && self.3 == 0
    }

    pub fn is_loopback(&self) -> (r: bool)
        ensures
            r == self.loopback(),
    {
        self.0 == 127
    }
}

impl BindHost {
    pub fn duplicate(&self) -> (r: Self)
        ensures
            r == *self,
    {
        match self {
            BindHost::V4(ip) => BindHost::V4(*ip),
            BindHost::V6Unspecified => BindHost::V6Unspecified,
            BindHost::V6(t) => BindHost::V6(t.clone()),
        }
    }
}

/// Dotted decimal text of an IPv4 address.
pub open spec fn ipv4_text(ip: Ipv4) -> Seq<char> {
    decimal(ip.0 as nat) + "."@ + decimal(ip.1 as nat) + "."@ + decimal(ip.2 as nat) + "."@
        + decimal(ip.3 as nat)
}

/// The host a local browser uses to reach a bind address: loopback in place of the
/// unspecified address, IPv6 in brackets.
pub open spec fn browser_host(h: BindHost) -> Seq<char> {
    match h {
        BindHost::V4(ip) => if ip.unspecified() {
            "127.0.0.1"@
        } else {
            ipv4_text(ip)
        },
        BindHost::V6Unspecified => "[::1]"@,
        BindHost::V6(t) => "["@ + t@ + "]"@,
    }
}

/// The host a local WebSocket client uses: `localhost` in place of an unspecified
/// address.
pub open spec fn websocket_host(h: BindHost) -> Seq<char> {
    match h {
        BindHost::V4(ip) => if ip.unspecified() {
            "localhost"@
        } else {
            ipv4_text(ip)
        },
        BindHost::V6Unspecified => "localhost"@,
        BindHost::V6(t) => "["@ + t@ + "]"@,
    }
}

fn push_ipv4(v: &mut Vec<char>, ip: Ipv4)
    ensures
        final(v)@ == old(v)@ + ipv4_text(ip),
{
    let a = decimal_chars(ip.0 as u64);
    let b = decimal_chars(ip.1 as u64);
    let c = decimal_chars(ip.2 as u64);
    let d = decimal_chars(ip.3 as u64);
    extend_chars(v, &a);
    extend_str(v, ".");
    extend_chars(v, &b);
    extend_str(v, ".");
    extend_chars(v, &c);
    extend_str(v, ".");
    extend_chars(v, &d);
    assert(v@ =~= old(v)@ + ipv4_text(ip));
}

fn push_host(v: &mut Vec<char>, h: &BindHost, for_websocket: bool)
    ensures
        !for_websocket ==> final(v)@ == old(v)@ + browser_host(*h),
        for_websocket ==> final(v)@ == old(v)@ + websocket_host(*h),
{
    match h {
        BindHost::V4(ip) => {
            if ip.is_unspecified() {
                if for_websocket {
                    extend_str(v, "localhost");
                } else {
                    extend_str(v, "127.0.0.1");
                }
            } else {
                push_ipv4(v, *ip);
            }
        },
        BindHost::V6Unspecified => {
            if for_websocket {
                extend_str(v, "localhost");
            } else {
                extend_str(v, "[::1]");
            }
        },
        BindHost::V6(t) => {
            extend_str(v, "[");
            extend_str(v, t.as_str());
            extend_str(v, "]");
            assert(v@ =~= old(v)@ + ("["@ + t@ + "]"@));
        },
    }
}

/// The URL a browser on this machine opens: `http://<host>:<port>`.
pub fn local_browser_url(bind_addr: &BindAddr) -> (r: String)
    ensures
        r@ == "http://"@ + browser_host(bind_addr.host) + ":"@ + decimal(bind_addr.port as nat),
{
    let mut v: Vec<char> = Vec::new();
    extend_str(&mut v, "http://");
    push_host(&mut v, &bind_addr.host, false);
    extend_str(&mut v, ":");
    let p = decimal_chars(bind_addr.port as u64);
    extend_chars(&mut v, &p);
    chars_to_string(v.as_slice())
}

/// The WebSocket URL a client on this machine connects to: `ws://<host>:<port>/`.
pub fn local_websocket_url(bind_addr: &BindAddr) -> (r: String)
    ensures
        r@ == "ws://"@ + websocket_host(bind_addr.host) + ":"@ + decimal(bind_addr.port as nat)
            + "/"@,
{
    let mut v: Vec<char> = Vec::new();
    extend_str(&mut v, "ws://");
    push_host(&mut v, &bind_addr.host, true);
    extend_str(&mut v, ":");
    let p = decimal_chars(bind_addr.port as u64);
    extend_chars(&mut v, &p);
    extend_str(&mut v, "/");
    chars_to_string(v.as_slice())
}

/// `localhost:<port>`.
pub fn localhost_endpoint_label(bind_addr: &BindAddr) -> (r: String)
    ensures
        r@ == "localhost:"@ + decimal(bind_addr.port as nat),
{
    let mut v: Vec<char> = Vec::new();
    extend_str(&mut v, "localhost:");
    let p = decimal_chars(bind_addr.port as u64);
    extend_chars(&mut v, &p);
    chars_to_string(v.as_slice())
}

/// The addresses tried for the WebSocket server, in order: the requested port, then
/// each higher port up to the last one, on the same host.
pub fn websocket_bind_candidates(bind_addr: &BindAddr) -> (r: Vec<BindAddr>)
    ensures
        r@.len() == 65536 - bind_addr.port,
        forall|i: int|
            0 <= i < r@.len() ==> (#[trigger] r@[i]).port == bind_addr.port + i && r@[i].host
                == bind_addr.host,
{
    let mut r: Vec<BindAddr> = Vec::new();
    let mut port: u32 = bind_addr.port as u32;
    while port <= 65535
        invariant
            bind_addr.port <= port <= 65536,
            r@.len() == port - bind_addr.port,
            forall|i: int|
                0 <= i < r@.len() ==> (#[trigger] r@[i]).port == bind_addr.port + i && r@[i].host
                    == bind_addr.host,
        decreases 65536 - port,
    {
        r.push(BindAddr { host: bind_addr.host.duplicate(), port: port as u16 });
        port = port + 1;
    }
    r
}

/// Whether an occupied port is one of the first two compatibility ports, whose
/// listener may be cleaned up.
pub fn should_cleanup_websocket_port(port: u16) -> (r: bool)
    ensures
        r == (port == 6677 || port == 6678),
{
    port == 6677 || port == 6678
}

/// Whether an endpoint `host:port` names `port`: what follows its last `:` reads as
/// that port number.
pub open spec fn endpoint_matches_spec(endpoint: Seq<char>, port: u16) -> bool {
    let ps = split_pieces(endpoint, Some(':'));
    ps.len() > 1 && parse_unsigned(ps.last(), 65535) == Some(port as int)
}

fn endpoint_matches_chars(endpoint: &Vec<char>, port: u16) -> (r: bool)
    ensures
        r == endpoint_matches_spec(endpoint@, port),
{
    let ps = split_chars(endpoint, Some(':'), false);
    proof {
        lemma_split_nonempty(endpoint@, Some(':'));
    }
    if ps.len() <= 1 {
        return false;
    }
    let last = &ps[ps.len() - 1];
    assert(last@ == piece_views(ps@).last());
    match parse_unsigned_chars(last, 65535) {
        Some(v) => v == port as u64,
        None => false,
    }
}

/// Whether a local endpoint `host:port` names `port`.
pub fn local_endpoint_matches_port(endpoint: &str, port: u16) -> (r: bool)
    ensures
        r == endpoint_matches_spec(endpoint@, port),
{
    let e = str_chars(endpoint);
    endpoint_matches_chars(&e, port)
}

/// The process id on a `netstat -ano` line for a TCP socket whose local endpoint is on
/// `port`: the line has at least five words, the first `TCP`, the second the local
/// endpoint, and the last the process id.
pub open spec fn netstat_pid_spec(line: Seq<char>, port: u16) -> Option<int> {
    let parts = words(line);
    if parts.len() < 5 || parts[0] != "TCP"@ {
        None
    } else if endpoint_matches_spec(parts[1], port) {
        parse_unsigned(parts.last(), 4294967295)
    } else {
        None
    }
}

fn netstat_pid_chars(line: &Vec<char>, port: u16) -> (r: Option<u32>)
    ensures
        match netstat_pid_spec(line@, port) {
            None => r is None,
            Some(p) => 0 <= p <= u32::MAX && r == Some(p as u32),
        },
{
    let parts = split_chars(line, None, true);
    let ghost views = piece_views(parts@);
    assert(views == words(line@));
    if parts.len() < 5 {
        return None;
    }
    let tcp = str_chars("TCP");
    assert(parts@[0]@ == views[0]);
    if !chars_eq(&parts[0], &tcp) {
        return None;
    }
    assert(parts@[1]@ == views[1]);
    if !endpoint_matches_chars(&parts[1], port) {
        return None;
    }
    let last = &parts[parts.len() - 1];
    assert(last@ == views.last());
    match parse_unsigned_chars(last, 4294967295) {
        Some(v) => Some(v as u32),
        None => None,
    }
}

/// The process id on a `netstat -ano` line for a TCP listener on `port`, if any.
pub fn tcp_listener_pid_from_netstat_line(line: &str, port: u16) -> (r: Option<u32>)
    ensures
        match netstat_pid_spec(line@, port) {
            None => r is None,
            Some(p) => r == Some(p as u32),
        },
{
    let l = str_chars(line);
    netstat_pid_chars(&l, port)
}

pub open spec fn strictly_ascending(s: Seq<u32>) -> bool {
    forall|i: int, j: int| 0 <= i < j < s.len() ==> s[i] < s[j]
}

/// Whether some line of `netstat` output names `pid` as the owner of `port`.
pub open spec fn listed_pid(output: Seq<char>, port: u16, pid: u32) -> bool {
    let lines = split_pieces(output, Some('\n'));
    exists|i: int| 0 <= i < lines.len() && #[trigger] netstat_pid_spec(lines[i], port) == Some(pid as int)
}

fn insert_sorted(v: Vec<u32>, x: u32) -> (r: Vec<u32>)
    requires
        strictly_ascending(v@),
    ensures
        strictly_ascending(r@),
        forall|y: u32| r@.contains(y) <==> (v@.contains(y) || y == x),
{
    let mut v = v;
    let mut k: usize = 0;
    while k < v.len() && v[k] < x
        invariant
            k <= v@.len(),
            forall|i: int| 0 <= i < k ==> #[trigger] v@[i] < x,
        decreases v@.len() - k,
    {
        k = k + 1;
    }
    if k < v.len() && v[k] == x {
        assert(v@[k as int] == x);
        assert(v@.contains(x));
        return v;
    }
    let ghost before = v@;
    v.insert(k, x);
    assert(v@ =~= before.insert(k as int, x));
    assert forall|y: u32| #[trigger] v@.contains(y) implies (before.contains(y) || y == x) by {
        let i = choose|i: int| 0 <= i < v@.len() && v@[i] == y;
        if i < k {
            assert(before[i] == y);
        } else if i > k {
            assert(before[i - 1] == y);
        }
    }
    assert forall|y: u32| #[trigger] before.contains(y) implies v@.contains(y) by {
        let i = choose|i: int| 0 <= i < before.len() && before[i] == y;
        if i < k {
            assert(v@[i] == y);
        } else {
            assert(v@[i + 1] == y);
        }
    }
    assert(v@[k as int] == x);
    assert(v@.contains(x));
    v
}

/// The distinct process ids, ascending, that `netstat -ano -p tcp` output names as
/// listening on `port`, one line of output after another.
pub fn tcp_listener_pids(netstat_output: &str, port: u16) -> (r: Vec<u32>)
    ensures
        strictly_ascending(r@),
        forall|pid: u32| r@.contains(pid) <==> listed_pid(netstat_output@, port, pid),
{
    let text = str_chars(netstat_output);
    let lines = split_chars(&text, Some('\n'), false);
    let ghost views = piece_views(lines@);
    let mut r: Vec<u32> = Vec::new();
    let mut j: usize = 0;
    while j < lines.len()
        invariant
            j <= lines@.len(),
            views == piece_views(lines@),
            views == split_pieces(netstat_output@, Some('\n')),
            strictly_ascending(r@),
            forall|pid: u32|
                r@.contains(pid) <==> exists|i: int|
                    0 <= i < j && #[trigger] netstat_pid_spec(views[i], port) == Some(pid as int),
        decreases lines@.len() - j,
    {
        assert(lines@[j as int]@ == views[j as int]);
        let found = netstat_pid_chars(&lines[j], port);
        let ghost before = r@;
        match found {
            Some(pid) => {
                r = insert_sorted(r, pid);
            },
            None => {},
        }
        assert forall|pid: u32|
            r@.contains(pid) <==> exists|i: int|
                0 <= i < j + 1 && #[trigger] netstat_pid_spec(views[i], port) == Some(pid as int) by {
            if r@.contains(pid) && !before.contains(pid) {
                assert(netstat_pid_spec(views[j as int], port) == Some(pid as int));
            }
            if exists|i: int| 0 <= i < j + 1 && #[trigger] netstat_pid_spec(views[i], port) == Some(pid as int) {
                let i = choose|i: int| 0 <= i < j + 1 && #[trigger] netstat_pid_spec(views[i], port) == Some(pid as int);
                if i == j {
                    assert(r@.contains(pid));
                } else {
                    assert(before.contains(pid));
                }
            }
        }
        j = j + 1;
    }
    r
}

/// The listeners of an occupied port to terminate: every owner but this process.
pub fn owners_to_terminate(pids: &Vec<u32>, current_pid: u32) -> (r: Vec<u32>)
    ensures
        r@ == pids@.filter(|p: u32| p != current_pid),
{
    let mut r: Vec<u32> = Vec::new();
    let mut i: usize = 0;
    while i < pids.len()
        invariant
            i <= pids@.len(),
            r@ == pids@.take(i as int).filter(|p: u32| p != current_pid),
        decreases pids@.len() - i,
    {
        let p = pids[i];
        proof {
            assert(pids@.take(i as int + 1).drop_last() =~= pids@.take(i as int));
            reveal(Seq::filter);
        }
        if p != current_pid {
            r.push(p);
        }
        i = i + 1;
    }
    assert(pids@.take(pids@.len() as int) =~= pids@);
    r
}

/// A detected LAN address worth announcing: neither unspecified nor loopback.
pub fn usable_lan_ipv4(host: &BindHost) -> (r: Option<Ipv4>)
    ensures
        match *host {
            BindHost::V4(ip) => if !ip.unspecified() && !ip.loopback() {
                r == Some(ip)
            } else {
                r is None
            },
            _ => r is None,
        },
{
    match host {
        BindHost::V4(ip) => {
            if !ip.is_unspecified() && !ip.is_loopback() {
                Some(*ip)
            } else {
                None
            }
        },
        _ => None,
    }
}

/// The URL announced for other machines on the LAN: on an unspecified IPv4 bind, the
/// detected LAN address; on another IPv4 address that is not loopback, that address;
/// otherwise none. `detected` is the LAN address found, where one was.
pub fn local_lan_url_with_detector(bind_addr: &BindAddr, detected: Option<Ipv4>) -> (r: Option<String>)
    ensures
        match bind_addr.host {
            BindHost::V4(ip) => {
                let chosen = if ip.unspecified() {
                    detected
                } else if !ip.loopback() {
                    Some(ip)
                } else {
                    None
                };
                match chosen {
                    None => r is None,
                    Some(a) => r matches Some(s) && s@ == "http://"@ + ipv4_text(a) + ":"@ + decimal(
                        bind_addr.port as nat,
                    ) + "/"@,
                }
            },
            _ => r is None,
        },
{
    let ip = match &bind_addr.host {
        BindHost::V4(ip) => {
            if ip.is_unspecified() {
                match detected {
                    Some(d) => d,
                    None => {
                        return None;
                    },
                }
            } else if !ip.is_loopback() {
                *ip
            } else {
                return None;
            }
        },
        _ => {
            return None;
        },
    };
    let mut v: Vec<char> = Vec::new();
    extend_str(&mut v, "http://");
    push_ipv4(&mut v, ip);
    extend_str(&mut v, ":");
    let p = decimal_chars(bind_addr.port as u64);
    extend_chars(&mut v, &p);
    extend_str(&mut v, "/");
    Some(chars_to_string(v.as_slice()))
}

} // verus!
