//! Choosing the scanner for the running system, listing ports, and stopping the process
//! behind a port.
use vstd::prelude::*;
use crate::linux::LinuxScanner;
use crate::macos::MacOSScanner;
use crate::text::{dec_text, push_radix, push_str, string_of};
use crate::types::{
    PortError, PortInfo, PortRecord, PortScanner, SystemAccess, dedup_ports, keys_unique,
    law_normalized_fields_nonempty, law_normalized_keys_unique, normalize, records,
};
use crate::linux::is_linux_scan;
use crate::macos::is_lsof_scan;
use crate::windows::is_netstat_scan;
use crate::windows::WindowsScanner;

verus! {

/// The operating systems that have a scanner, and the rest.
#[derive(Debug, Clone, Copy, PartialEq, Eq)]
pub enum Platform {
    Windows,
    MacOS,
    Linux,
    Other,
}

/// The scanner of one platform.
pub enum Scanner {
    Windows(WindowsScanner),
    MacOS(MacOSScanner),
    Linux(LinuxScanner),
}

/// The scanner for a platform; `UnsupportedPlatform` where there is none.
pub fn get_platform_scanner(platform: Platform) -> (r: Result<Scanner, PortError>)
    ensures
        platform == Platform::Windows ==> r matches Ok(Scanner::Windows(_)),
        platform == Platform::MacOS ==> r matches Ok(Scanner::MacOS(_)),
        platform == Platform::Linux ==> r matches Ok(Scanner::Linux(_)),
        platform == Platform::Other ==> r matches Err(PortError::UnsupportedPlatform),
{
    match platform {
        Platform::Windows => Ok(Scanner::Windows(WindowsScanner)),
        Platform::MacOS => Ok(Scanner::MacOS(MacOSScanner)),
        Platform::Linux => Ok(Scanner::Linux(LinuxScanner)),
        Platform::Other => Err(PortError::UnsupportedPlatform),
    }
}

/// The list is what the scanner of `platform` can give: the parse of its tools' output.
pub open spec fn scanned_on(platform: Platform, rs: Seq<PortRecord>) -> bool {
    match platform {
        Platform::Windows => is_netstat_scan(rs),
        Platform::MacOS => is_lsof_scan(rs),
        Platform::Linux => is_linux_scan(rs),
        Platform::Other => false,
    }
}

pub open spec fn platform_of(s: Scanner) -> Platform {
    match s {
        Scanner::Windows(_) => Platform::Windows,
        Scanner::MacOS(_) => Platform::MacOS,
        Scanner::Linux(_) => Platform::Linux,
    }
}

impl PortScanner for Scanner {
    fn scan<S: SystemAccess>(&self, sys: &S) -> (r: Result<Vec<PortInfo>, PortError>)
        ensures
            r matches Ok(v) ==> scanned_on(platform_of(*self), records(v@)),
            r matches Err(e) ==> (platform_of(*self) == Platform::Linux ==> e matches PortError::CommandFailed { .. }),
    {
        match self {
            Scanner::Windows(s) => s.scan(sys),
            Scanner::MacOS(s) => s.scan(sys),
            Scanner::Linux(s) => s.scan(sys),
        }
    }
}

/// The open ports of the running system, normalized: sentinels filled and one record per
/// `(port, protocol, pid)`.
pub fn get_port_list<S: SystemAccess>(platform: Platform, sys: &S) -> (r: Result<Vec<PortInfo>, PortError>)
    ensures
        platform == Platform::Other ==> r matches Err(PortError::UnsupportedPlatform),
        r matches Err(e) ==> (platform == Platform::Linux ==> e matches PortError::CommandFailed { .. }),
        r matches Ok(v) ==> exists|raw: Seq<PortRecord>|
            records(v@) == normalize(raw) && scanned_on(platform, raw),
        r matches Ok(v) ==> keys_unique(records(v@)),
        r matches Ok(v) ==> forall|k: int|
            0 <= k < v@.len() ==> (#[trigger] v@[k]).process_name@.len() > 0 && v@[k].user@.len()
                > 0,
{
    let scanner = match get_platform_scanner(platform) {
        Ok(s) => s,
        Err(e) => return Err(e),
    };
    let ports = match scanner.scan(sys) {
        Ok(p) => p,
        Err(e) => return Err(e),
    };
    let ghost raw = records(ports@);
    let out = dedup_ports(ports);
    assert(records(out@) == normalize(raw) && scanned_on(platform, raw));
    proof {
        law_normalized_keys_unique(raw);
        law_normalized_fields_nonempty(raw);
        assert forall|k: int| 0 <= k < out@.len() implies (#[trigger] out@[k]).process_name@.len()
            > 0 && out@[k].user@.len() > 0 by {
            assert(records(out@)[k] == out@[k]@);
        }
    }
    Ok(out)
}

/// The index of the first record for a port.
pub open spec fn first_on_port(ports: Seq<PortRecord>, port: u16) -> Option<int>
    decreases ports.len(),
{
    if ports.len() == 0 {
        None
    } else {
        match first_on_port(ports.drop_last(), port) {
            Some(i) => Some(i),
            None => if ports.last().port == port {
                Some(ports.len() - 1)
            } else {
                None
            },
        }
    }
}

pub open spec fn killed_text(pid: u32, port: u16) -> Seq<char> {
    "Successfully killed process "@ + dec_text(pid as nat) + " on port "@ + dec_text(port as nat)
}

/// Relies on sysinfo's `System::new`, `System::refresh_processes`, `System::process`,
/// `Pid::from_u32` and `Process::kill`: a fresh snapshot of the process table, then the kill
/// signal to `pid`. `None` where no such process is running, else whether the signal was
/// sent.
#[verifier::external_body]
fn kill_live_process(pid: u32) -> (r: Option<bool>) {
    let mut system = sysinfo::System::new();
    system.refresh_processes(sysinfo::ProcessesToUpdate::All, true);
    match system.process(sysinfo::Pid::from_u32(pid)) {
        Some(process) => Some(process.kill()),
        None => None,
    }
}

/// The result of a kill request for `pid` on `port`, given what the live process table
/// gave: `None` for no such process, else whether the signal was sent.
pub fn kill_outcome(port: u16, pid: u32, outcome: Option<bool>) -> (r: Result<String, PortError>)
    ensures
        outcome == Some(true) ==> (r matches Ok(m) && m@ == killed_text(pid, port)),
        outcome != Some(true) ==> (r matches Err(PortError::ProcessKillFailed(p)) && p == pid),
{
    match outcome {
        Some(true) => {
            let mut out: Vec<char> = Vec::new();
            push_str(&mut out, "Successfully killed process ");
            push_radix(&mut out, pid as u64, 10);
            push_str(&mut out, " on port ");
            push_radix(&mut out, port as u64, 10);
            assert(out@ =~= killed_text(pid, port));
            Ok(string_of(&out))
        },
        _ => Err(PortError::ProcessKillFailed(pid)),
    }
}

/// Stops the process that owns `port` according to the last scan: `ProcessNotFound` where
/// no record has the port; `ProcessKillFailed` for a record without a pid, for a process
/// that is gone, or for a signal that failed.
pub fn kill_process(port: u16, ports: &[PortInfo]) -> (r: Result<String, PortError>)
    ensures
        first_on_port(records(ports@), port) is None <==> (r matches Err(
            PortError::ProcessNotFound(p),
        ) && p == port),
        first_on_port(records(ports@), port) matches Some(i) ==> {
            let pid = ports@[i].pid;
            &&& pid == 0 ==> (r matches Err(PortError::ProcessKillFailed(p)) && p == 0)
            &&& r matches Ok(m) ==> m@ == killed_text(pid, port)
            &&& r matches Err(e) ==> (e matches PortError::ProcessKillFailed(p) && p == pid)
        },
{
    let ghost all = records(ports@);
    let mut i: usize = 0;
    assert(all.subrange(0, 0) =~= Seq::<PortRecord>::empty());
    while i < ports.len()
        invariant
            i <= ports@.len(),
            all == records(ports@),
            first_on_port(all.subrange(0, i as int), port) is None,
        decreases ports@.len() - i,
    {
        assert(all.subrange(0, i + 1).drop_last() =~= all.subrange(0, i as int));
        if ports[i].port == port {
            proof {
                lemma_first_on_port_prefix(all, port, i as int + 1);
            }
            let pid = ports[i].pid;
            if pid == 0 {
                return Err(PortError::ProcessKillFailed(pid));
            }
            return kill_outcome(port, pid, kill_live_process(pid));
        }
        i = i + 1;
    }
    assert(all.subrange(0, ports@.len() as int) =~= all);
    Err(PortError::ProcessNotFound(port))
}

proof fn lemma_first_on_port_prefix(s: Seq<PortRecord>, port: u16, k: int)
    requires
        0 < k <= s.len(),
        first_on_port(s.subrange(0, k - 1), port) is None,
        s[k - 1].port == port,
    ensures
        first_on_port(s, port) == Some(k - 1),
{
    assert(s.subrange(0, k).drop_last() =~= s.subrange(0, k - 1));
    lemma_first_on_port_extend(s, port, k, k - 1);
}

proof fn lemma_first_on_port_extend(s: Seq<PortRecord>, port: u16, k: int, j: int)
    requires
        0 < k <= s.len(),
        first_on_port(s.subrange(0, k), port) == Some(j),
    ensures
        first_on_port(s, port) == Some(j),
    decreases s.len() - k,
{
    if k < s.len() {
        assert(s.subrange(0, k + 1).drop_last() =~= s.subrange(0, k));
        lemma_first_on_port_extend(s, port, k + 1, j);
    } else {
        assert(s.subrange(0, k) =~= s);
    }
}

} // verus!
