//! macOS: the field-tagged output of `lsof -F pcfnTu`, read by a small state machine.
use vstd::prelude::*;
use crate::text::{
    chars_of, contains, eq_str, find, find_in, lemma_find_bounds, lemma_rfind_in_bounds, lines,
    opt_seq, owned, parse_unsigned, parse_unsigned_in, rfind, rfind_in, slice, split_lines,
    starts_with, string_of, tail, to_u16, views,
};
use crate::types::{output_text, PortError, PortInfo, PortRecord, PortScanner, SystemAccess, records};

verus! {

/// The scanner for macOS.
pub struct MacOSScanner;

/// The fields gathered so far for the current process and descriptor.
pub struct ParseState {
    pub pid: Option<u32>,
    pub process_name: Option<String>,
    pub user: Option<String>,
    pub fd: Option<u32>,
    pub address: Option<String>,
    pub status: Option<String>,
}

pub struct StateView {
    pub pid: Option<u32>,
    pub process_name: Option<Seq<char>>,
    pub user: Option<Seq<char>>,
    pub fd: Option<u32>,
    pub address: Option<Seq<char>>,
    pub status: Option<Seq<char>>,
}

pub open spec fn opt_view(o: Option<String>) -> Option<Seq<char>> {
    match o {
        Some(s) => Some(s@),
        None => None,
    }
}

impl View for ParseState {
    type V = StateView;

    open spec fn view(&self) -> StateView {
        StateView {
            pid: self.pid,
            process_name: opt_view(self.process_name),
            user: opt_view(self.user),
            fd: self.fd,
            address: opt_view(self.address),
            status: opt_view(self.status),
        }
    }
}

pub open spec fn empty_state() -> StateView {
    StateView { pid: None, process_name: None, user: None, fd: None, address: None, status: None }
}

/// A record can be made once the pid, the name, the descriptor and the address are known.
pub open spec fn complete(s: StateView) -> bool {
    s.pid is Some && s.process_name is Some && s.fd is Some && s.address is Some
}

/// The local part of an `lsof` address, before `->`.
pub open spec fn local_part(a: Seq<char>) -> Seq<char> {
    match find(a, "->"@) {
        Some(i) => a.subrange(0, i),
        None => a,
    }
}

/// The local port of an `lsof` address; none for `*:*` or a local part without `:`.
pub open spec fn lsof_port(a: Seq<char>) -> Option<nat> {
    let local = local_part(a);
    if local == "*:*"@ || !contains(local, ":"@) {
        None
    } else if local.len() > 0 && local[0] == '[' {
        match rfind(local, "]:"@) {
            Some(p) => parse_unsigned(tail(local, p + 2), 10, 65535),
            None => None,
        }
    } else {
        match rfind(local, ":"@) {
            Some(p) => parse_unsigned(tail(local, p + 1), 10, 65535),
            None => None,
        }
    }
}

/// The local and the remote address: split at `->` where it occurs exactly once; else the
/// whole text and an empty remote.
pub open spec fn lsof_addresses(a: Seq<char>) -> (Seq<char>, Seq<char>) {
    match find(a, "->"@) {
        Some(i) => {
            let rest = tail(a, i + 2);
            if find(rest, "->"@) is None {
                (a.subrange(0, i), rest)
            } else {
                (a, Seq::empty())
            }
        },
        None => (a, Seq::empty()),
    }
}

/// The status where `lsof` gave none.
pub open spec fn default_status(protocol: Seq<char>, a: Seq<char>) -> Seq<char> {
    if protocol == "UDP"@ {
        "*"@
    } else if contains(a, "->"@) {
        "ESTABLISHED"@
    } else {
        "LISTEN"@
    }
}

/// The record that a state yields, and the state after: the descriptor's fields cleared
/// where a record came out, unchanged where none did.
pub open spec fn create_port(s: StateView, protocol: Seq<char>) -> (StateView, Option<PortRecord>) {
    if !complete(s) {
        (s, None)
    } else {
        let a = s.address->0;
        match lsof_port(a) {
            None => (s, None),
            Some(port) => {
                let status = match s.status {
                    Some(st) => st,
                    None => default_status(protocol, a),
                };
                (
                    StateView { status: None, fd: None, address: None, ..s },
                    Some(
                        PortRecord {
                            port: port as u16,
                            protocol,
                            pid: s.pid->0,
                            process_name: s.process_name->0,
                            status,
                            process_name_unknown: false,
                            local_addr: lsof_addresses(a).0,
                            remote_addr: lsof_addresses(a).1,
                            user: match s.user {
                                Some(u) => u,
                                None => Seq::empty(),
                            },
                        },
                    ),
                )
            },
        }
    }
}

/// Clears the fields of the process context; the user stays.
pub open spec fn reset(s: StateView) -> StateView {
    StateView { pid: None, process_name: None, fd: None, address: None, status: None, ..s }
}

pub open spec fn number_field(v: Seq<char>) -> Option<u32> {
    match parse_unsigned(v, 10, u32::MAX as nat) {
        Some(n) => Some(n as u32),
        None => None,
    }
}

/// One line of `lsof` output: the state after it, and the record it completes, if any.
pub open spec fn step(s: StateView, line: Seq<char>, protocol: Seq<char>) -> (StateView, Option<PortRecord>) {
    if line.len() == 0 {
        (s, None)
    } else {
        let tag = line[0];
        let value = line.drop_first();
        if tag == 'p' {
            let (s1, out) = create_port(s, protocol);
            (StateView { pid: number_field(value), user: None, ..reset(s1) }, out)
        } else if tag == 'c' {
            (StateView { process_name: Some(value), ..s }, None)
        } else if tag == 'u' {
            (StateView { user: Some(value), ..s }, None)
        } else if tag == 'f' {
            let (s1, out) = create_port(s, protocol);
            (StateView { address: None, status: None, fd: number_field(value), ..s1 }, out)
        } else if tag == 'n' {
            (StateView { address: Some(value), ..s }, None)
        } else if tag == 'T' && value.len() >= 3 && value.subrange(0, 3) == "ST="@ {
            (StateView { status: Some(tail(value, 3)), ..s }, None)
        } else {
            (s, None)
        }
    }
}

/// The state after some lines, and the records they completed.
pub open spec fn run_lines(ls: Seq<Seq<char>>, protocol: Seq<char>) -> (StateView, Seq<PortRecord>)
    decreases ls.len(),
{
    if ls.len() == 0 {
        (empty_state(), Seq::empty())
    } else {
        let (s, rows) = run_lines(ls.drop_last(), protocol);
        let (s2, out) = step(s, ls.last(), protocol);
        (s2, rows + opt_seq(out))
    }
}

/// The records in the output of `lsof`, the last one completed at the end of the text.
pub open spec fn lsof_records(output: Seq<char>, protocol: Seq<char>) -> Seq<PortRecord> {
    let (s, rows) = run_lines(lines(output), protocol);
    rows + opt_seq(create_port(s, protocol).1)
}

fn local_part_of(a: &Vec<char>) -> (r: Vec<char>)
    ensures
        r@ == local_part(a@),
{
    match find_in(a, "->") {
        Some(i) => {
            proof {
                lemma_find_bounds(a@, "->"@);
            }
            slice(a, 0, i)
        },
        None => slice(a, 0, a.len()),
    }
}

fn lsof_port_of(a: &Vec<char>) -> (r: Option<u16>)
    ensures
        r == to_u16(lsof_port(a@)),
{
    let local = local_part_of(a);
    let n = local.len();
    if eq_str(&local, "*:*") {
        return None;
    }
    match find_in(&local, ":") {
        Some(_) => {},
        None => return None,
    }
    if n > 0 && local[0] == '[' {
        match rfind_in(&local, "]:") {
            Some(p) => {
                proof {
                    assert(p + 2 <= local@.len()) by {
                        reveal_strlit("]:");
                        lemma_rfind_in_bounds(local@, "]:"@);
                    }
                }
                match parse_unsigned_in(&local, p + 2, n, 10, 65535) {
                    Some(v) => Some(v as u16),
                    None => None,
                }
            },
            None => None,
        }
    } else {
        match rfind_in(&local, ":") {
            Some(p) => {
                proof {
                    assert(p + 1 <= local@.len()) by {
                        reveal_strlit(":");
                        lemma_rfind_in_bounds(local@, ":"@);
                    }
                }
                match parse_unsigned_in(&local, p + 1, n, 10, 65535) {
                    Some(v) => Some(v as u16),
                    None => None,
                }
            },
            None => None,
        }
    }
}

/// The local port of an `lsof` address.
pub fn extract_port(address: &str) -> (r: Option<u16>)
    ensures
        r == to_u16(lsof_port(address@)),
{
    lsof_port_of(&chars_of(address))
}

fn addresses_of(a: &Vec<char>) -> (r: (Vec<char>, Vec<char>))
    ensures
        r.0@ == lsof_addresses(a@).0,
        r.1@ == lsof_addresses(a@).1,
{
    let n = a.len();
    match find_in(a, "->") {
        Some(i) => {
            proof {
                assert(i + 2 <= a@.len()) by {
                    reveal_strlit("->");
                    lemma_find_bounds(a@, "->"@);
                }
            }
            let rest = slice(a, i + 2, n);
            match find_in(&rest, "->") {
                None => (slice(a, 0, i), rest),
                Some(_) => (slice(a, 0, n), Vec::new()),
            }
        },
        None => (slice(a, 0, n), Vec::new()),
    }
}

/// The local and the remote part of an `lsof` address.
pub fn extract_addresses(address: &str) -> (r: (String, String))
    ensures
        r.0@ == lsof_addresses(address@).0,
        r.1@ == lsof_addresses(address@).1,
{
    let (l, rm) = addresses_of(&chars_of(address));
    (string_of(&l), string_of(&rm))
}

fn number_field_of(v: &Vec<char>, lo: usize) -> (r: Option<u32>)
    requires
        lo <= v@.len(),
    ensures
        r == number_field(tail(v@, lo as int)),
{
    match parse_unsigned_in(v, lo, v.len(), 10, 0xffff_ffff) {
        Some(n) => Some(n as u32),
        None => None,
    }
}

fn copy_opt(o: &Option<String>) -> (r: Option<String>)
    ensures
        opt_view(r) == opt_view(*o),
{
    match o {
        Some(s) => Some(s.clone()),
        None => None,
    }
}

impl ParseState {
    /// The state before any field.
    pub fn new() -> (r: ParseState)
        ensures
            r@ == empty_state(),
    {
        ParseState { pid: None, process_name: None, user: None, fd: None, address: None, status: None }
    }

    /// Whether a record can be made from the fields gathered.
    pub fn is_complete(&self) -> (r: bool)
        ensures
            r == complete(self@),
    {
        self.pid.is_some() && self.process_name.is_some() && self.fd.is_some()
            && self.address.is_some()
    }

    /// Makes the record of the current descriptor, if the fields allow one.
    pub fn try_create_port(&mut self, protocol: &str) -> (r: Option<PortInfo>)
        ensures
            final(self)@ == create_port(old(self)@, protocol@).0,
            r matches Some(p) ==> create_port(old(self)@, protocol@).1 == Some(p@),
            r is None ==> create_port(old(self)@, protocol@).1 is None,
    {
        if !self.is_complete() {
            return None;
        }
        let pid = match self.pid {
            Some(p) => p,
            None => return None,
        };
        let process_name = match &self.process_name {
            Some(n) => n.clone(),
            None => return None,
        };
        let address = match &self.address {
            Some(a) => chars_of(a.as_str()),
            None => return None,
        };
        let user = match &self.user {
            Some(u) => u.clone(),
            None => String::new(),
        };
        let (local, remote) = addresses_of(&address);
        let port = match lsof_port_of(&address) {
            Some(p) => p,
            None => return None,
        };
        let status = match self.status.take() {
            Some(s) => s,
            None => {
                if eq_str(&chars_of(protocol), "UDP") {
                    owned("*")
                } else {
                    match find_in(&address, "->") {
                        Some(_) => owned("ESTABLISHED"),
                        None => owned("LISTEN"),
                    }
                }
            },
        };
        self.fd = None;
        self.address = None;
        Some(
            PortInfo {
                port,
                protocol: owned(protocol),
                pid,
                process_name,
                status,
                process_name_unknown: false,
                local_addr: string_of(&local),
                remote_addr: string_of(&remote),
                user,
            },
        )
    }

    /// Clears the process context for a new `p` field.
    pub fn reset_process(&mut self)
        ensures
            final(self)@ == reset(old(self)@),
    {
        self.pid = None;
        self.process_name = None;
        self.fd = None;
        self.address = None;
        self.status = None;
    }
}

impl MacOSScanner {
    /// The records in the output of `lsof -F pcfnTu` for one protocol.
    pub fn parse_lsof_output(&self, output: &str, protocol: &str) -> (r: Vec<PortInfo>)
        ensures
            records(r@) == lsof_records(output@, protocol@),
    {
        let all = split_lines(&chars_of(output));
        let ghost ls = lines(output@);
        let mut state = ParseState::new();
        let mut ports: Vec<PortInfo> = Vec::new();
        let mut i: usize = 0;
        assert(ls.subrange(0, 0) =~= Seq::<Seq<char>>::empty());
        while i < all.len()
            invariant
                i <= all@.len(),
                ls == views(all@),
                run_lines(ls.subrange(0, i as int), protocol@) == (state@, records(ports@)),
            decreases all@.len() - i,
        {
            let ghost before = records(ports@);
            let ghost s0 = state@;
            assert(ls.subrange(0, i + 1).drop_last() =~= ls.subrange(0, i as int));
            let line = &all[i];
            assert(ls.subrange(0, i + 1).last() == line@);
            let mut out: Option<PortInfo> = None;
            if line.len() > 0 {
                let tag = line[0];
                assert(tail(line@, 1) =~= line@.drop_first());
                if tag == 'p' {
                    out = state.try_create_port(protocol);
                    state.reset_process();
                    state.pid = number_field_of(line, 1);
                    state.user = None;
                } else if tag == 'c' {
                    state.process_name = Some(string_of(&slice(line, 1, line.len())));
                } else if tag == 'u' {
                    state.user = Some(string_of(&slice(line, 1, line.len())));
                } else if tag == 'f' {
                    out = state.try_create_port(protocol);
                    state.address = None;
                    state.status = None;
                    state.fd = number_field_of(line, 1);
                } else if tag == 'n' {
                    state.address = Some(string_of(&slice(line, 1, line.len())));
                } else if tag == 'T' {
                    let value = slice(line, 1, line.len());
                    if starts_with(&value, "ST=") {
                        proof {
                            reveal_strlit("ST=");
                        }
                        state.status = Some(string_of(&slice(&value, 3, value.len())));
                    }
                }
            }
            match out {
                Some(p) => {
                    ports.push(p);
                    assert(records(ports@) =~= before + seq![ports@.last()@]);
                },
                None => {
                    assert(before + Seq::<PortRecord>::empty() =~= before);
                },
            }
            proof {
                let (s2, o2) = step(s0, line@, protocol@);
                assert(state@ == s2);
            }
            i = i + 1;
        }
        assert(ls.subrange(0, all@.len() as int) =~= ls);
        let ghost before = records(ports@);
        match state.try_create_port(protocol) {
            Some(p) => {
                ports.push(p);
                assert(records(ports@) =~= before + seq![ports@.last()@]);
            },
            None => {
                assert(before + Seq::<PortRecord>::empty() =~= before);
            },
        }
        ports
    }
}

impl MacOSScanner {
    /// The records of the TCP output of `lsof`, then those of its UDP output.
    pub fn parse_lsof_pair(&self, tcp_output: &str, udp_output: &str) -> (r: Vec<PortInfo>)
        ensures
            records(r@) == lsof_records(tcp_output@, "TCP"@) + lsof_records(udp_output@, "UDP"@),
    {
        let mut tcp_ports = self.parse_lsof_output(tcp_output, "TCP");
        let mut udp_ports = self.parse_lsof_output(udp_output, "UDP");
        let ghost a = tcp_ports@;
        let ghost b = udp_ports@;
        tcp_ports.append(&mut udp_ports);
        assert(records(tcp_ports@) =~= records(a) + records(b));
        tcp_ports
    }
}

/// The list is what some TCP and some UDP output of `lsof` give, TCP first.
pub open spec fn is_lsof_scan(rs: Seq<PortRecord>) -> bool {
    exists|t: Seq<char>, u: Seq<char>| rs == lsof_records(t, "TCP"@) + lsof_records(u, "UDP"@)
}

impl MacOSScanner {
    /// The scan's result from what the two runs of `lsof` gave: the first error unchanged,
    /// or the records of both outputs.
    pub fn lsof_result(&self, tcp: Result<String, PortError>, udp: Result<String, PortError>) -> (r: Result<Vec<PortInfo>, PortError>)
        ensures
            match (tcp, udp) {
                (Err(e), _) => r == Err::<Vec<PortInfo>, PortError>(e),
                (Ok(_), Err(e)) => r == Err::<Vec<PortInfo>, PortError>(e),
                (Ok(t), Ok(u)) => r matches Ok(v) && records(v@) == lsof_records(t@, "TCP"@)
                    + lsof_records(u@, "UDP"@),
            },
    {
        match tcp {
            Err(e) => Err(e),
            Ok(t) => match udp {
                Err(e) => Err(e),
                Ok(u) => Ok(self.parse_lsof_pair(t.as_str(), u.as_str())),
            },
        }
    }
}

impl PortScanner for MacOSScanner {
    /// Runs `lsof` once for TCP and, where that worked, once for UDP, and reads both outputs.
    fn scan<S: SystemAccess>(&self, sys: &S) -> (r: Result<Vec<PortInfo>, PortError>)
        ensures
            r matches Ok(v) ==> is_lsof_scan(records(v@)),
    {
        let tcp_args = vec![owned("-P"), owned("-n"), owned("-iTCP"), owned("-F"), owned("pcfnTu")];
        let tcp = sys.run_command("lsof", &tcp_args);
        let udp = match tcp {
            Ok(_) => {
                let udp_args = vec![owned("-P"), owned("-n"), owned("-iUDP"), owned("-F"), owned("pcfnTu")];
                sys.run_command("lsof", &udp_args)
            },
            Err(_) => Ok(String::new()),
        };
        let ghost t = output_text(tcp);
        let ghost u = output_text(udp);
        let r = self.lsof_result(tcp, udp);
        proof {
            if r is Ok {
                assert(records(r->Ok_0@) == lsof_records(t, "TCP"@) + lsof_records(u, "UDP"@));
            }
        }
        r
    }
}

/// A descriptor whose address has no port that parses yields no record, and leaves the
/// state as it was.
pub proof fn law_lsof_without_port_dropped(s: StateView, protocol: Seq<char>)
    requires
        s.address matches Some(a) ==> lsof_port(a) is None,
    ensures
        create_port(s, protocol) == (s, Option::<PortRecord>::None),
{
}

} // verus!
