//! Windows: the connection table that `netstat -ano` prints.
use vstd::prelude::*;
use crate::text::{
    chars_of, eq_str, lemma_rfind_in_bounds, lines, opt_seq, owned, parse_unsigned,
    parse_unsigned_in, rfind, rfind_in, slice, split_lines, split_words, starts_with, string_of,
    tail, to_u16, trim, trim_chars, views, words,
};
use crate::types::{output_text, PortError, PortInfo, PortRecord, PortScanner, SystemAccess, records};

verus! {

/// The scanner for Windows.
pub struct WindowsScanner;

/// What `str::to_uppercase` gives for a text.
pub uninterp spec fn uppercase_of(s: Seq<char>) -> Seq<char>;

/// Relies on `str::to_uppercase`: the result depends on the characters alone.
#[verifier::external_body]
fn to_uppercase(s: &str) -> (r: String)
    ensures
        r@ == uppercase_of(s@),
{
    s.to_uppercase()
}

/// The port of a local address as `netstat` prints it: after `]` and one more character
/// for `[v6]:port`, after the last `:` otherwise.
pub open spec fn netstat_port(addr: Seq<char>) -> Option<nat> {
    if addr.len() > 0 && addr[0] == '[' {
        match rfind(addr, "]"@) {
            Some(e) => if e + 2 <= addr.len() {
                parse_unsigned(tail(addr, e + 2), 10, 65535)
            } else {
                None
            },
            None => None,
        }
    } else {
        match rfind(addr, ":"@) {
            Some(p) => parse_unsigned(tail(addr, p + 1), 10, 65535),
            None => None,
        }
    }
}

pub open spec fn starts_with_seq(s: Seq<char>, p: Seq<char>) -> bool {
    p.len() <= s.len() && s.subrange(0, p.len() as int) == p
}

pub open spec fn pid_value(s: Seq<char>) -> u32 {
    match parse_unsigned(s, 10, u32::MAX as nat) {
        Some(n) => n as u32,
        None => 0,
    }
}

/// The record of a data row of `netstat -ano` whose protocol column, upper-cased, is
/// `protocol`.
pub open spec fn netstat_row(line: Seq<char>, protocol: Seq<char>) -> Option<PortRecord> {
    let parts = words(line);
    if parts.len() < 5 || !(starts_with_seq(protocol, "TCP"@) || starts_with_seq(
        protocol,
        "UDP"@,
    )) {
        None
    } else {
        match netstat_port(parts[1]) {
            None => None,
            Some(port) => {
                let tcp = starts_with_seq(protocol, "TCP"@);
                let status = if tcp {
                    parts[3]
                } else {
                    "-"@
                };
                let pid = if tcp {
                    pid_value(parts[4])
                } else {
                    pid_value(parts[3])
                };
                Some(
                    PortRecord {
                        port: port as u16,
                        protocol,
                        pid,
                        process_name: Seq::empty(),
                        status: if status == "LISTENING"@ {
                            "LISTEN"@
                        } else {
                            status
                        },
                        process_name_unknown: false,
                        local_addr: Seq::empty(),
                        remote_addr: Seq::empty(),
                        user: Seq::empty(),
                    },
                )
            },
        }
    }
}

/// Whether the header row has been seen after these lines, and the records so far.
pub open spec fn netstat_scan(ls: Seq<Seq<char>>) -> (bool, Seq<PortRecord>)
    decreases ls.len(),
{
    if ls.len() == 0 {
        (false, Seq::empty())
    } else {
        let (started, rows) = netstat_scan(ls.drop_last());
        let line = ls.last();
        let t = trim(line);
        if t.len() == 0 {
            (started, rows)
        } else if !started {
            (starts_with_seq(t, "Proto"@), rows)
        } else {
            let parts = words(line);
            if parts.len() < 5 {
                (started, rows)
            } else {
                (started, rows + opt_seq(netstat_row(line, uppercase_of(parts[0]))))
            }
        }
    }
}

/// The records in the output of `netstat -ano`.
pub open spec fn netstat_records(output: Seq<char>) -> Seq<PortRecord> {
    netstat_scan(lines(output)).1
}

fn netstat_port_of(addr: &Vec<char>) -> (r: Option<u16>)
    ensures
        r == to_u16(netstat_port(addr@)),
{
    let n = addr.len();
    if n > 0 && addr[0] == '[' {
        match rfind_in(addr, "]") {
            Some(e) => {
                if n >= 2 && e <= n - 2 {
                    match parse_unsigned_in(addr, e + 2, n, 10, 65535) {
                        Some(p) => Some(p as u16),
                        None => None,
                    }
                } else {
                    None
                }
            },
            None => None,
        }
    } else {
        match rfind_in(addr, ":") {
            Some(p) => {
                proof {
                    assert(p + 1 <= addr@.len()) by {
                        reveal_strlit(":");
                        lemma_rfind_in_bounds(addr@, ":"@);
                    }
                }
                match parse_unsigned_in(addr, p + 1, n, 10, 65535) {
                    Some(v) => Some(v as u16),
                    None => None,
                }
            },
            None => None,
        }
    }
}

/// The port of a local address as `netstat` prints it.
pub fn parse_port_from_addr(addr: &str) -> (r: Option<u16>)
    ensures
        r == to_u16(netstat_port(addr@)),
{
    netstat_port_of(&chars_of(addr))
}

fn pid_of(s: &Vec<char>) -> (r: u32)
    ensures
        r == pid_value(s@),
{
    assert(s@.subrange(0, s@.len() as int) =~= s@);
    match parse_unsigned_in(s, 0, s.len(), 10, 0xffff_ffff) {
        Some(n) => n as u32,
        None => 0,
    }
}

fn row_of(parts: &Vec<Vec<char>>, protocol: String) -> (r: Option<PortInfo>)
    requires
        parts@.len() >= 5,
    ensures
        forall|line: Seq<char>|
            words(line) == views(parts@) ==> (r matches Some(p) ==> netstat_row(line, protocol@)
                == Some(p@)) && (r is None ==> netstat_row(line, protocol@) is None),
{
    let pchars = chars_of(protocol.as_str());
    let tcp = starts_with(&pchars, "TCP");
    if !tcp && !starts_with(&pchars, "UDP") {
        return None;
    }
    assert(views(parts@)[1] == parts@[1]@ && views(parts@)[3] == parts@[3]@ && views(parts@)[4]
        == parts@[4]@);
    let port = match netstat_port_of(&parts[1]) {
        Some(p) => p,
        None => return None,
    };
    let status = if tcp {
        slice(&parts[3], 0, parts[3].len())
    } else {
        chars_of("-")
    };
    assert(parts@[3]@.subrange(0, parts@[3]@.len() as int) =~= parts@[3]@);
    assert(status@ == (if tcp {
        parts@[3]@
    } else {
        "-"@
    }));
    let pid = if tcp {
        pid_of(&parts[4])
    } else {
        pid_of(&parts[3])
    };
    let status_text = if eq_str(&status, "LISTENING") {
        owned("LISTEN")
    } else {
        string_of(&status)
    };
    Some(
        PortInfo {
            port,
            protocol,
            pid,
            process_name: String::new(),
            status: status_text,
            process_name_unknown: false,
            local_addr: String::new(),
            remote_addr: String::new(),
            user: String::new(),
        },
    )
}

/// The record of one data row of `netstat -ano`, given its protocol column upper-cased.
pub fn netstat_record(line: &str, protocol: &str) -> (r: Option<PortInfo>)
    ensures
        r matches Some(p) ==> netstat_row(line@, protocol@) == Some(p@),
        r is None ==> netstat_row(line@, protocol@) is None,
{
    let parts = split_words(&chars_of(line));
    if parts.len() < 5 {
        return None;
    }
    row_of(&parts, owned(protocol))
}

/// The records in the output of `netstat -ano`: the rows after the `Proto` header whose
/// protocol is TCP or UDP and whose local port parses.
pub fn parse_netstat_output(output: &str) -> (r: Vec<PortInfo>)
    ensures
        records(r@) == netstat_records(output@),
{
    let all = split_lines(&chars_of(output));
    let ghost ls = lines(output@);
    let mut out: Vec<PortInfo> = Vec::new();
    let mut started = false;
    let mut i: usize = 0;
    assert(ls.subrange(0, 0) =~= Seq::<Seq<char>>::empty());
    while i < all.len()
        invariant
            i <= all@.len(),
            ls == views(all@),
            netstat_scan(ls.subrange(0, i as int)) == (started, records(out@)),
        decreases all@.len() - i,
    {
        let ghost before = records(out@);
        assert(ls.subrange(0, i + 1).drop_last() =~= ls.subrange(0, i as int));
        assert(ls.subrange(0, i + 1).last() == all@[i as int]@);
        let line = &all[i];
        let trimmed = trim_chars(line);
        if trimmed.len() == 0 {
        } else if !started {
            started = starts_with(&trimmed, "Proto");
        } else {
            let parts = split_words(line);
            if parts.len() >= 5 {
                assert(views(parts@)[0] == parts@[0]@);
                let protocol = to_uppercase(string_of(&parts[0]).as_str());
                match row_of(&parts, protocol) {
                    Some(p) => {
                        out.push(p);
                        assert(records(out@) =~= before + seq![out@.last()@]);
                    },
                    None => {
                        assert(before + Seq::<PortRecord>::empty() =~= before);
                    },
                }
            }
        }
        i = i + 1;
    }
    assert(ls.subrange(0, all@.len() as int) =~= ls);
    out
}

/// The list is what some output of `netstat -ano` gives.
pub open spec fn is_netstat_scan(rs: Seq<PortRecord>) -> bool {
    exists|o: Seq<char>| rs == netstat_records(o)
}

/// The scan's result from what running `netstat -ano` gave: the tool's error unchanged, or
/// the records of its output.
pub fn netstat_result(out: Result<String, PortError>) -> (r: Result<Vec<PortInfo>, PortError>)
    ensures
        match out {
            Ok(o) => r matches Ok(v) && records(v@) == netstat_records(o@),
            Err(e) => r == Err::<Vec<PortInfo>, PortError>(e),
        },
{
    match out {
        Ok(o) => Ok(parse_netstat_output(o.as_str())),
        Err(e) => Err(e),
    }
}

impl PortScanner for WindowsScanner {
    /// Runs `netstat -ano` and reads its rows.
    fn scan<S: SystemAccess>(&self, sys: &S) -> (r: Result<Vec<PortInfo>, PortError>)
        ensures
            r matches Ok(v) ==> is_netstat_scan(records(v@)),
    {
        let args = vec![owned("-ano")];
        let out = sys.run_command("netstat", &args);
        let ghost text = output_text(out);
        let r = netstat_result(out);
        proof {
            if r is Ok {
                assert(records(r->Ok_0@) == netstat_records(text));
            }
        }
        r
    }
}

/// A data row whose local address has no port that parses yields no record.
pub proof fn law_netstat_row_without_port_dropped(line: Seq<char>, protocol: Seq<char>)
    requires
        words(line).len() >= 5 ==> netstat_port(words(line)[1]) is None,
    ensures
        netstat_row(line, protocol) is None,
{
}

} // verus!
