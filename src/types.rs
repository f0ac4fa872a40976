//! The port record, the errors, the scanner interface and the dedup stage.
use vstd::prelude::*;
use crate::text::{dec_text, owned, push_radix, push_str, string_of};

verus! {

/// One open socket and the process that owns it.
#[derive(Debug, Clone)]
pub struct PortInfo {
    pub port: u16,
    pub protocol: String,
    pub pid: u32,
    pub process_name: String,
    pub status: String,
    pub process_name_unknown: bool,
    pub local_addr: String,
    pub remote_addr: String,
    pub user: String,
}

/// The mathematical content of a `PortInfo`.
pub struct PortRecord {
    pub port: u16,
    pub protocol: Seq<char>,
    pub pid: u32,
    pub process_name: Seq<char>,
    pub status: Seq<char>,
    pub process_name_unknown: bool,
    pub local_addr: Seq<char>,
    pub remote_addr: Seq<char>,
    pub user: Seq<char>,
}

impl View for PortInfo {
    type V = PortRecord;

    open spec fn view(&self) -> PortRecord {
        PortRecord {
            port: self.port,
            protocol: self.protocol@,
            pid: self.pid,
            process_name: self.process_name@,
            status: self.status@,
            process_name_unknown: self.process_name_unknown,
            local_addr: self.local_addr@,
            remote_addr: self.remote_addr@,
            user: self.user@,
        }
    }
}

impl PortInfo {
    /// A field-for-field copy.
    pub fn duplicate(&self) -> (r: PortInfo)
        ensures
            r@ == self@,
    {
        PortInfo {
            port: self.port,
            protocol: self.protocol.clone(),
            pid: self.pid,
            process_name: self.process_name.clone(),
            status: self.status.clone(),
            process_name_unknown: self.process_name_unknown,
            local_addr: self.local_addr.clone(),
            remote_addr: self.remote_addr.clone(),
            user: self.user.clone(),
        }
    }
}

pub open spec fn records(v: Seq<PortInfo>) -> Seq<PortRecord> {
    v.map_values(|p: PortInfo| p@)
}

/// What can go wrong while listing ports or stopping a process.
#[derive(Debug, Clone)]
pub enum PortError {
    CommandFailed { cmd: String, reason: String },
    ProcessNotFound(u16),
    ProcessKillFailed(u32),
    UnsupportedPlatform,
}

pub open spec fn error_text(e: PortError) -> Seq<char> {
    match e {
        PortError::CommandFailed { cmd, reason } => "Command '"@ + cmd@ + "' failed: "@
            + reason@,
        PortError::ProcessNotFound(port) => "Port "@ + dec_text(port as nat) + " not found"@,
        PortError::ProcessKillFailed(pid) => "Failed to kill process "@ + dec_text(pid as nat),
        PortError::UnsupportedPlatform => "Unsupported operating system"@,
    }
}

impl PortError {
    /// The message shown to a user.
    pub fn message(&self) -> (r: String)
        ensures
            r@ == error_text(*self),
    {
        let mut out: Vec<char> = Vec::new();
        match self {
            PortError::CommandFailed { cmd, reason } => {
                push_str(&mut out, "Command '");
                push_str(&mut out, cmd.as_str());
                push_str(&mut out, "' failed: ");
                push_str(&mut out, reason.as_str());
            },
            PortError::ProcessNotFound(port) => {
                push_str(&mut out, "Port ");
                push_radix(&mut out, *port as u64, 10);
                push_str(&mut out, " not found");
            },
            PortError::ProcessKillFailed(pid) => {
                push_str(&mut out, "Failed to kill process ");
                push_radix(&mut out, *pid as u64, 10);
            },
            PortError::UnsupportedPlatform => {
                push_str(&mut out, "Unsupported operating system");
            },
        }
        assert(out@ =~= error_text(*self));
        string_of(&out)
    }
}

/// What the platform scanners need from the running system: files and external tools.
pub trait SystemAccess {
    /// The contents of a file, or `None` where it cannot be read.
    fn read_file(&self, path: &str) -> Option<String>;

    /// The standard output of a tool that ran and exited with success.
    fn run_command(&self, cmd: &str, args: &Vec<String>) -> Result<String, PortError>;
}

/// A source of socket records for one operating system.
pub trait PortScanner {
    fn scan<S: SystemAccess>(&self, sys: &S) -> Result<Vec<PortInfo>, PortError>;
}

/// The final normalization of a list of socket records.
pub trait Enhance {
    fn enhance(self) -> Result<Vec<PortInfo>, PortError>;
}

/// The text of a tool's output; empty where it failed.
pub open spec fn output_text(o: Result<String, PortError>) -> Seq<char> {
    match o {
        Ok(t) => t@,
        Err(_) => Seq::empty(),
    }
}

pub open spec fn unknown() -> Seq<char> {
    "unknown"@
}

/// A record with its unresolved owner fields set to `"unknown"`: the name where the pid is
/// unknown or no name was found, the user where none was found.
pub open spec fn with_sentinels(r: PortRecord) -> PortRecord {
    let named = if r.pid == 0 || r.process_name.len() == 0 {
        PortRecord { process_name: unknown(), process_name_unknown: true, ..r }
    } else {
        r
    };
    if named.user.len() == 0 {
        PortRecord { user: unknown(), ..named }
    } else {
        named
    }
}

pub open spec fn same_key(a: PortRecord, b: PortRecord) -> bool {
    a.port == b.port && a.protocol == b.protocol && a.pid == b.pid
}

/// The first index at or after `i` of a record with the key of `r`.
pub open spec fn key_index_from(s: Seq<PortRecord>, r: PortRecord, i: int) -> Option<int>
    decreases s.len() - i,
{
    if i < 0 || i >= s.len() {
        None
    } else if same_key(s[i], r) {
        Some(i)
    } else {
        key_index_from(s, r, i + 1)
    }
}

pub open spec fn key_index(s: Seq<PortRecord>, r: PortRecord) -> Option<int> {
    key_index_from(s, r, 0)
}

/// Records keyed by `(port, protocol, pid)`: a later record replaces an earlier one with
/// the same key in its place, a new key is added at the end.
pub open spec fn dedup(s: Seq<PortRecord>) -> Seq<PortRecord>
    decreases s.len(),
{
    if s.len() == 0 {
        Seq::empty()
    } else {
        let d = dedup(s.drop_last());
        match key_index(d, s.last()) {
            Some(j) => d.update(j, s.last()),
            None => d.push(s.last()),
        }
    }
}

/// The normalization stage: sentinels first, then dedup.
pub open spec fn normalize(s: Seq<PortRecord>) -> Seq<PortRecord> {
    dedup(s.map_values(|r: PortRecord| with_sentinels(r)))
}

pub open spec fn keys_unique(s: Seq<PortRecord>) -> bool {
    forall|i: int, j: int| 0 <= i < j < s.len() ==> !same_key(#[trigger] s[i], #[trigger] s[j])
}

/// Sets the sentinel values on a record whose owner could not be resolved.
pub fn fill_sentinels(p: &mut PortInfo)
    ensures
        final(p)@ == with_sentinels(old(p)@),
{
    if p.pid == 0 || p.process_name.as_str().is_empty() {
        p.process_name = owned("unknown");
        p.process_name_unknown = true;
    }
    if p.user.as_str().is_empty() {
        p.user = owned("unknown");
    }
}

fn find_key(out: &Vec<PortInfo>, p: &PortInfo) -> (r: Option<usize>)
    ensures
        r matches Some(j) ==> j < out@.len() && key_index(records(out@), p@) == Some(j as int),
        r is None ==> key_index(records(out@), p@) is None,
{
    let ghost s = records(out@);
    let mut i: usize = 0;
    while i < out.len()
        invariant
            i <= out@.len(),
            s == records(out@),
            key_index(s, p@) == key_index_from(s, p@, i as int),
        decreases out@.len() - i,
    {
        let q = &out[i];
        if q.port == p.port && q.pid == p.pid && q.protocol == p.protocol {
            return Some(i);
        }
        i = i + 1;
    }
    None
}

/// Fills the sentinels and keeps one record per `(port, protocol, pid)`, the last one.
pub fn dedup_ports(ports: Vec<PortInfo>) -> (r: Vec<PortInfo>)
    ensures
        records(r@) == normalize(records(ports@)),
{
    let ghost filled = records(ports@).map_values(|r: PortRecord| with_sentinels(r));
    let mut out: Vec<PortInfo> = Vec::new();
    let mut i: usize = 0;
    while i < ports.len()
        invariant
            i <= ports@.len(),
            filled == records(ports@).map_values(|r: PortRecord| with_sentinels(r)),
            records(out@) == dedup(filled.subrange(0, i as int)),
        decreases ports@.len() - i,
    {
        let mut p = ports[i].duplicate();
        fill_sentinels(&mut p);
        let ghost prefix = filled.subrange(0, i as int);
        let ghost next = filled.subrange(0, i as int + 1);
        assert(next.drop_last() =~= prefix);
        assert(next.last() == p@);
        let ghost before = records(out@);
        match find_key(&out, &p) {
            Some(j) => {
                out.set(j, p);
                assert(records(out@) =~= before.update(j as int, next.last()));
            },
            None => {
                out.push(p);
                assert(records(out@) =~= before.push(next.last()));
            },
        }
        i = i + 1;
    }
    assert(filled.subrange(0, ports@.len() as int) =~= filled);
    out
}

proof fn lemma_key_index_from(s: Seq<PortRecord>, r: PortRecord, i: int)
    requires
        0 <= i,
    ensures
        key_index_from(s, r, i) matches Some(j) ==> i <= j < s.len() && same_key(s[j], r),
        key_index_from(s, r, i) is None ==> forall|k: int|
            i <= k < s.len() ==> !same_key(#[trigger] s[k], r),
    decreases s.len() - i,
{
    if i < s.len() && !same_key(s[i], r) {
        lemma_key_index_from(s, r, i + 1);
    }
}

proof fn lemma_dedup_from_input(s: Seq<PortRecord>)
    ensures
        keys_unique(dedup(s)),
        forall|k: int|
            0 <= k < dedup(s).len() ==> exists|i: int| 0 <= i < s.len() && #[trigger] dedup(s)[k] == s[i],
    decreases s.len(),
{
    if s.len() > 0 {
        let t = s.drop_last();
        lemma_dedup_from_input(t);
        let d = dedup(t);
        lemma_key_index_from(d, s.last(), 0);
        assert forall|k: int| 0 <= k < dedup(s).len() implies exists|i: int|
            0 <= i < s.len() && #[trigger] dedup(s)[k] == s[i] by {
            if dedup(s)[k] == s.last() {
                assert(dedup(s)[k] == s[s.len() - 1]);
            } else {
                assert(dedup(s)[k] == d[k]);
                let i = choose|i: int| 0 <= i < t.len() && d[k] == t[i];
                assert(s[i] == t[i]);
            }
        }
    }
}

proof fn lemma_dedup_unique(s: Seq<PortRecord>)
    requires
        keys_unique(s),
    ensures
        dedup(s) == s,
    decreases s.len(),
{
    if s.len() > 0 {
        let t = s.drop_last();
        assert(keys_unique(t)) by {
            assert forall|i: int, j: int| 0 <= i < j < t.len() implies !same_key(
                #[trigger] t[i],
                #[trigger] t[j],
            ) by {
                assert(t[i] == s[i] && t[j] == s[j]);
            }
        }
        lemma_dedup_unique(t);
        lemma_key_index_from(t, s.last(), 0);
        if key_index(t, s.last()) is Some {
            let j = key_index(t, s.last())->0;
            assert(same_key(s[j], s[s.len() - 1]));
        }
        assert(t.push(s.last()) =~= s);
    }
}

proof fn lemma_sentinels_fixed(r: PortRecord)
    ensures
        with_sentinels(with_sentinels(r)) == with_sentinels(r),
        with_sentinels(r).user.len() > 0,
        with_sentinels(r).process_name.len() > 0,
        r.pid != 0 && r.process_name.len() > 0 ==> with_sentinels(r).process_name
            == r.process_name,
        same_key(with_sentinels(r), r),
{
    reveal_strlit("unknown");
}

/// Normalizing a list that normalization produced changes nothing.
pub proof fn law_normalize_idempotent(s: Seq<PortRecord>)
    ensures
        normalize(normalize(s)) == normalize(s),
{
    let f = s.map_values(|r: PortRecord| with_sentinels(r));
    let d = dedup(f);
    lemma_dedup_from_input(f);
    let g = d.map_values(|r: PortRecord| with_sentinels(r));
    assert forall|k: int| 0 <= k < d.len() implies g[k] == d[k] by {
        let i = choose|i: int| 0 <= i < f.len() && d[k] == f[i];
        lemma_sentinels_fixed(s[i]);
    }
    assert(g =~= d);
    lemma_dedup_unique(d);
}

/// Every normalized record names a process and a user: a resolved one or `"unknown"`.
pub proof fn law_normalized_fields_nonempty(s: Seq<PortRecord>)
    ensures
        forall|k: int| 0 <= k < normalize(s).len() ==> (#[trigger] normalize(s)[k]).process_name.len()
            > 0 && normalize(s)[k].user.len() > 0,
{
    let f = s.map_values(|r: PortRecord| with_sentinels(r));
    lemma_dedup_from_input(f);
    assert forall|k: int| 0 <= k < normalize(s).len() implies (#[trigger] normalize(
        s,
    )[k]).process_name.len() > 0 && normalize(s)[k].user.len() > 0 by {
        let i = choose|i: int| 0 <= i < f.len() && normalize(s)[k] == f[i];
        lemma_sentinels_fixed(s[i]);
    }
}

/// No two normalized records share a `(port, protocol, pid)` key.
pub proof fn law_normalized_keys_unique(s: Seq<PortRecord>)
    ensures
        keys_unique(normalize(s)),
{
    lemma_dedup_from_input(s.map_values(|r: PortRecord| with_sentinels(r)));
}

/// Two records with the same `(port, protocol, pid)` become one: the later one.
pub proof fn law_same_key_keeps_later(a: PortRecord, b: PortRecord)
    requires
        same_key(a, b),
    ensures
        normalize(seq![a, b]) == seq![with_sentinels(b)],
{
    let f = seq![a, b].map_values(|r: PortRecord| with_sentinels(r));
    lemma_sentinels_fixed(a);
    lemma_sentinels_fixed(b);
    assert(f.drop_last() =~= seq![with_sentinels(a)]);
    assert(f.drop_last().drop_last() =~= Seq::<PortRecord>::empty());
    let e = f.drop_last().drop_last();
    assert(dedup(e) == Seq::<PortRecord>::empty());
    assert(key_index(dedup(e), with_sentinels(a)) is None);
    let d1 = dedup(f.drop_last());
    assert(d1 =~= seq![with_sentinels(a)]);
    assert(key_index(d1, with_sentinels(b)) == Some(0int));
    assert(dedup(f) =~= seq![with_sentinels(b)]);
}

impl Enhance for Vec<PortInfo> {
    fn enhance(self) -> (r: Result<Vec<PortInfo>, PortError>)
        ensures
            r matches Ok(v) && records(v@) == normalize(records(self@)),
    {
        Ok(dedup_ports(self))
    }
}

} // verus!
