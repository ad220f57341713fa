//! The ports in use, read from `lsof` output or from rows the platform listed.
use vstd::prelude::*;
use crate::models::PortUsage;
use crate::text::{
    before_first, before_first_chars, chars_of, contains, contains_str, equals_str,
    last_index_of, last_index_of_char, lines, lines_of, owned, parse_unsigned,
    parse_unsigned_chars, seqs_of, skip_chars, slice_chars, split, split_on, split_whitespace,
    string_of, words,
};

verus! {

/// A port in use as values.
pub struct PortView {
    pub protocol: Seq<char>,
    pub local_address: Seq<char>,
    pub local_port: u16,
    pub remote_address: Option<Seq<char>>,
    pub remote_port: Option<u16>,
    pub state: Seq<char>,
    pub pid: Option<u32>,
    pub process_name: Seq<char>,
    pub process_path: Option<Seq<char>>,
}

pub open spec fn opt_text(o: Option<String>) -> Option<Seq<char>> {
    match o {
        Some(s) => Some(s@),
        None => None,
    }
}

pub open spec fn port_view(p: PortUsage) -> PortView {
    PortView {
        protocol: p.protocol@,
        local_address: p.local_address@,
        local_port: p.local_port,
        remote_address: opt_text(p.remote_address),
        remote_port: p.remote_port,
        state: p.state@,
        pid: p.pid,
        process_name: p.process_name@,
        process_path: opt_text(p.process_path),
    }
}

pub open spec fn port_views(v: Seq<PortUsage>) -> Seq<PortView> {
    v.map_values(|p: PortUsage| port_view(p))
}

/// An address as shown: the wildcard addresses as all interfaces, the loopback ones as localhost.
pub open spec fn normalized_address(a: Seq<char>) -> Seq<char> {
    if a == "0.0.0.0"@ || a == "::"@ || a == "*"@ {
        "All interfaces"@
    } else if a == "127.0.0.1"@ || a == "::1"@ {
        "localhost"@
    } else {
        a
    }
}

/// An `address:port` endpoint, split at its last `:`; the port must be a `u16`.
pub open spec fn endpoint_of(e: Seq<char>) -> Option<(Seq<char>, u16)> {
    match last_index_of(e, ':') {
        Some(i) => match parse_unsigned(e.skip(i + 1), u16::MAX as int) {
            Some(port) => Some((normalized_address(e.take(i)), port as u16)),
            None => None,
        },
        None => None,
    }
}

/// The port a line of `lsof -nP -iTCP -iUDP` lists: at least nine columns,
/// the command first, the pid second, the protocol eighth and the local
/// endpoint ninth (before any `->`); the state is what the line holds in
/// parentheses, else `Open` for UDP and `Unknown` for TCP.
pub open spec fn lsof_port(line: Seq<char>) -> Option<PortView> {
    let cols = words(line);
    if cols.len() < 9 {
        None
    } else {
        let protocol = cols[7];
        let udp = contains(protocol, "UDP"@);
        match endpoint_of(before_first(cols[8], "->"@)) {
            None => None,
            Some(endpoint) => {
                let pieces = split(line, '(');
                Some(PortView {
                    protocol: if udp { "UDP"@ } else { "TCP"@ },
                    local_address: endpoint.0,
                    local_port: endpoint.1,
                    remote_address: None,
                    remote_port: None,
                    state: if pieces.len() > 1 {
                        split(pieces[1], ')')[0]
                    } else if udp {
                        "Open"@
                    } else {
                        "Unknown"@
                    },
                    pid: match parse_unsigned(cols[1], u32::MAX as int) {
                        Some(n) => Some(n as u32),
                        None => None,
                    },
                    process_name: cols[0],
                    process_path: None,
                })
            },
        }
    }
}

/// The ports the lines list, in order.
pub open spec fn lsof_ports_of(ls: Seq<Seq<char>>) -> Seq<PortView>
    decreases ls.len(),
{
    if ls.len() == 0 {
        Seq::empty()
    } else {
        let rest = lsof_ports_of(ls.drop_last());
        match lsof_port(ls.last()) {
            Some(p) => rest.push(p),
            None => rest,
        }
    }
}

/// The lines after the header line.
pub open spec fn after_header(ls: Seq<Seq<char>>) -> Seq<Seq<char>> {
    if ls.len() > 0 {
        ls.drop_first()
    } else {
        ls
    }
}

/// A row of the platform's connection listing, as the caller read it.
pub struct PortRow {
    pub protocol: String,
    pub local_address: String,
    pub local_port: u16,
    pub remote_address: Option<String>,
    pub remote_port: Option<u16>,
    pub state: String,
    pub pid: Option<u32>,
    pub process_name: Option<String>,
    pub process_path: Option<String>,
}

/// An address as shown (see `normalized_address`).
pub fn normalize_address(address: String) -> (r: String)
    ensures
        r@ == normalized_address(address@),
{
    let a = chars_of(address.as_str());
    if equals_str(&a, "0.0.0.0") || equals_str(&a, "::") || equals_str(&a, "*") {
        return owned("All interfaces");
    }
    if equals_str(&a, "127.0.0.1") || equals_str(&a, "::1") {
        return owned("localhost");
    }
    address
}

/// Splits an endpoint into its shown address and its port (see `endpoint_of`).
pub fn split_endpoint(endpoint: &Vec<char>) -> (r: Option<(String, u16)>)
    ensures
        match endpoint_of(endpoint@) {
            Some(e) => r matches Some(p) && p.0@ == e.0 && p.1 == e.1,
            None => r is None,
        },
{
    let i = match last_index_of_char(endpoint, ':') {
        Some(i) => i,
        None => {
            return None;
        },
    };
    let n = endpoint.len();
    assert(i < n);
    let port_text = skip_chars(endpoint, i + 1);
    let port = match parse_unsigned_chars(&port_text, 65535) {
        Some(p) => p,
        None => {
            return None;
        },
    };
    let address = slice_chars(endpoint, 0, i);
    assert(address@ =~= endpoint@.take(i as int));
    assert(last_index_of(endpoint@, ':') == Some(i as int));
    assert(port_text@ == endpoint@.skip(i + 1));
    assert(parse_unsigned(endpoint@.skip(i + 1), u16::MAX as int) == Some(port as int));
    assert(port <= 65535);
    Some((normalize_address(string_of(&address)), port as u16))
}

/// The port a line of `lsof` output lists, if any (see `lsof_port`).
pub fn parse_lsof_port_line(line: &str) -> (r: Option<PortUsage>)
    ensures
        match lsof_port(line@) {
            Some(p) => r matches Some(u) && port_view(u) == p,
            None => r is None,
        },
{
    let text = chars_of(line);
    let columns = split_whitespace(&text);
    if columns.len() < 9 {
        return None;
    }
    assert(forall|i: int| 0 <= i < columns@.len() ==> columns@[i]@ == #[trigger] words(line@)[i]);
    let arrow = chars_of("->");
    let endpoint = before_first_chars(&columns[8], &arrow);
    let (local_address, local_port) = match split_endpoint(&endpoint) {
        Some(e) => e,
        None => {
            return None;
        },
    };
    let udp = contains_str(&columns[7], "UDP");
    assert(endpoint@ == before_first(words(line@)[8], "->"@));
    let pieces = split_on(&text, '(');
    assert(forall|i: int| 0 <= i < pieces@.len() ==> pieces@[i]@ == #[trigger] split(line@, '(')[i]);
    let state = if pieces.len() > 1 {
        let inner = split_on(&pieces[1], ')');
        assert(inner@[0]@ == split(pieces@[1]@, ')')[0]);
        string_of(&inner[0])
    } else if udp {
        owned("Open")
    } else {
        owned("Unknown")
    };
    let pid = match parse_unsigned_chars(&columns[1], 4294967295) {
        Some(n) => Some(n as u32),
        None => None,
    };
    Some(PortUsage {
        protocol: if udp {
            owned("UDP")
        } else {
            owned("TCP")
        },
        local_address,
        local_port,
        remote_address: None,
        remote_port: None,
        state,
        pid,
        process_name: string_of(&columns[0]),
        process_path: None,
    })
}

/// The ports listed by `lsof` output: every line after the header that lists one.
pub fn lsof_ports(output: &str) -> (r: Vec<PortUsage>)
    ensures
        port_views(r@) == lsof_ports_of(after_header(lines(output@))),
{
    let text = chars_of(output);
    let all = lines_of(&text);
    let mut ports: Vec<PortUsage> = Vec::new();
    let ghost body = after_header(seqs_of(all@));
    let mut k: usize = 1;
    assert(body.take(0) =~= Seq::<Seq<char>>::empty());
    while k < all.len()
        invariant
            1 <= k,
            k <= all.len() || (all.len() == 0 && k == 1),
            body == after_header(seqs_of(all@)),
            port_views(ports@) == lsof_ports_of(body.take(k - 1)),
        decreases all.len() - k,
    {
        assert(body.take(k as int).drop_last() =~= body.take(k - 1));
        assert(body.take(k as int).last() == all@[k as int]@);
        let line = string_of(&all[k]);
        let ghost before = port_views(ports@);
        match parse_lsof_port_line(line.as_str()) {
            Some(p) => {
                ports.push(p);
                assert(port_views(ports@) =~= before.push(lsof_port(all@[k as int]@)->0));
            },
            None => {},
        }
        k = k + 1;
    }
    if all.len() > 0 {
        assert(k == all.len());
        assert(body.len() == all.len() - 1);
        assert(body.take(all.len() - 1) =~= body);
        assert(body.take(k - 1) =~= body);
    } else {
        assert(body.len() == 0);
        assert(body.take(k - 1) =~= body);
    }
    assert(seqs_of(all@) == lines(output@));
    assert(body == after_header(lines(output@)));
    ports
}

/// The port a row of the platform's listing describes: addresses as shown, an
/// unnamed process as `Unknown`.
pub fn port_from_row(row: PortRow) -> (r: PortUsage)
    ensures
        r.protocol@ == row.protocol@,
        r.local_address@ == normalized_address(row.local_address@),
        r.local_port == row.local_port,
        opt_text(r.remote_address) == match row.remote_address {
            Some(a) => Some(normalized_address(a@)),
            None => None,
        },
        r.remote_port == row.remote_port,
        r.state@ == row.state@,
        r.pid == row.pid,
        r.process_name@ == match row.process_name {
            Some(n) => n@,
            None => "Unknown"@,
        },
        opt_text(r.process_path) == opt_text(row.process_path),
{
    let remote_address = match row.remote_address {
        Some(a) => Some(normalize_address(a)),
        None => None,
    };
    let process_name = match row.process_name {
        Some(n) => n,
        None => owned("Unknown"),
    };
    PortUsage {
        protocol: row.protocol,
        local_address: normalize_address(row.local_address),
        local_port: row.local_port,
        remote_address,
        remote_port: row.remote_port,
        state: row.state,
        pid: row.pid,
        process_name,
        process_path: row.process_path,
    }
}

} // verus!
