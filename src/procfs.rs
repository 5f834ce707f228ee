//! Turning the text that the kernel reports under `/proc` into rows.
use vstd::prelude::*;
use vstd::string::*;
use crate::rows::{FileItem, NetItem, OSVersion, ProcMapItem};
use crate::text::parse_u32;
use crate::text::parse_u32_spec;

verus! {

/// The groups of the leftmost match of the regular expression `pattern` in
/// `text` (group 0 is the whole match, an unmatched optional group is absent);
/// none when the pattern does not compile or does not match.
pub uninterp spec fn regex_captures(pattern: Seq<char>, text: Seq<char>) -> Option<
    Seq<Option<Seq<char>>>,
>;

/// A UTC time, given as seconds and nanoseconds since the Unix epoch, written
/// as `day/month/year hours:minutes:seconds`; none when out of range.
pub uninterp spec fn utc_time_text(secs: int, nanos: nat) -> Option<Seq<char>>;

pub open spec fn group_views(v: Seq<Option<String>>) -> Seq<Option<Seq<char>>> {
    v.map_values(
        |g: Option<String>|
            match g {
                Some(s) => Some(s@),
                None => None,
            },
    )
}

/// Relies on `regex::Regex::new` and `Regex::captures`: the groups of the leftmost
/// match of `pattern` in `text`, or none if the pattern is invalid or no match exists.
#[verifier::external_body]
fn captures(pattern: &str, text: &str) -> (r: Option<Vec<Option<String>>>)
    ensures
        r matches Some(v) ==> regex_captures(pattern@, text@) == Some(group_views(v@)),
        r is None ==> regex_captures(pattern@, text@) is None,
{
    let re = regex::Regex::new(pattern).ok()?;
    let caps = re.captures(text)?;
    Some(caps.iter().map(|g| g.map(|m| m.as_str().to_string())).collect())
}

/// Relies on `chrono::DateTime::<Utc>::from_timestamp` and its `format` with
/// `%d/%m/%Y %T`: the time written out, or none when the timestamp is out of range.
#[verifier::external_body]
fn format_utc(secs: i64, nanos: u32) -> (r: Option<String>)
    ensures
        r matches Some(t) ==> utc_time_text(secs as int, nanos as nat) == Some(t@),
        r is None ==> utc_time_text(secs as int, nanos as nat) is None,
{
    chrono::DateTime::<chrono::Utc>::from_timestamp(secs, nanos).map(
        |d| d.format("%d/%m/%Y %T").to_string(),
    )
}

/// A line of `/proc/<pid>/maps`: address range, permissions, offset, device,
/// inode, and the mapped file if there is one.
pub const MAPS_LINE: &'static str = r"([0-9a-f]+)-([0-9a-f]+)\s(\S{4})\s([0-9a-f]+)\s(\d+:\d+)\s(\d+)\s+(\S+)?$";

/// A line of `/proc/net/tcp` or `/proc/net/udp`: addresses, state, uid, timeout,
/// inode and reference count.
pub const NET_LINE: &'static str = r"\d+:\s([0-9A-F]+:[0-9A-F]+)\s([0-9A-F]+:[0-9A-F]+)\s([0-9A-F]+)\s[0-9A-F]+:[0-9A-F]+\s[0-9A-F]+:[0-9A-F]+\s\d+\s+(\d+)\s+(\d+)\s(\d+)\s(\d+)";

/// A process directory under `/proc`.
pub const PROC_DIR: &'static str = r"/proc/(\d+)";

/// The kernel release in the kernel's version line, with the word `version` before it.
pub const KERNEL_VERSION: &'static str = r"version\s([0-9\.-]+[-[a-z]+]?)";

/// The build host, `(user@host)`, in the kernel's version line.
pub const KERNEL_BUILD: &'static str = r"\(([a-z\-@0-9]+)\)";

/// The compiler description, in its parentheses, in the kernel's version line.
pub const KERNEL_GCC: &'static str = r"\((gcc.+)\)";

/// Group `i` of a match, if the match has it.
pub open spec fn group(gs: Seq<Option<Seq<char>>>, i: int) -> Option<Seq<char>> {
    if 0 <= i < gs.len() {
        gs[i]
    } else {
        None
    }
}

fn group_at(gs: &Vec<Option<String>>, i: usize) -> (r: Option<String>)
    ensures
        r matches Some(s) ==> group(group_views(gs@), i as int) == Some(s@),
        r is None ==> group(group_views(gs@), i as int) is None,
{
    if i < gs.len() {
        match &gs[i] {
            Some(s) => Some(s.clone()),
            None => None,
        }
    } else {
        None
    }
}

/// Whether the groups of a match of `MAPS_LINE` describe a mapping: groups 1 to
/// 6 are present and group 6 reads as a number.
pub open spec fn map_groups_ok(g: Seq<Option<Seq<char>>>) -> bool {
    (forall|i: int| 1 <= i <= 6 ==> #[trigger] group(g, i) is Some) && parse_u32_spec(
        group(g, 6)->0,
    ) is Some
}

/// `m` is the mapping that the groups describe; an absent file name reads `n/a`.
pub open spec fn map_from_groups(g: Seq<Option<Seq<char>>>, m: &ProcMapItem) -> bool {
    &&& group(g, 1) == Some(m.start_addr@)
    &&& group(g, 2) == Some(m.end_addr@)
    &&& group(g, 3) == Some(m.permissions@)
    &&& group(g, 4) == Some(m.size_maybe@)
    &&& group(g, 5) == Some(m.start_time@)
    &&& parse_u32_spec(group(g, 6)->0) == Some(m.file_desc)
    &&& m.file_name@ == match group(g, 7) {
        Some(f) => f,
        None => "n/a"@,
    }
}

/// The mapping described by the groups of a match of `MAPS_LINE`.
pub fn proc_map_item_of(gs: &Vec<Option<String>>) -> (r: Option<ProcMapItem>)
    ensures
        r is Some <==> map_groups_ok(group_views(gs@)),
        r matches Some(m) ==> map_from_groups(group_views(gs@), &m),
{
    let ghost g = group_views(gs@);
    let start_addr = match group_at(gs, 1) {
        Some(s) => s,
        None => return None,
    };
    let end_addr = match group_at(gs, 2) {
        Some(s) => s,
        None => return None,
    };
    let permissions = match group_at(gs, 3) {
        Some(s) => s,
        None => return None,
    };
    let size_maybe = match group_at(gs, 4) {
        Some(s) => s,
        None => return None,
    };
    let start_time = match group_at(gs, 5) {
        Some(s) => s,
        None => return None,
    };
    let desc = match group_at(gs, 6) {
        Some(s) => s,
        None => return None,
    };
    let file_desc = match parse_u32(desc.as_str()) {
        Some(n) => n,
        None => return None,
    };
    let file_name = match group_at(gs, 7) {
        Some(s) => s,
        None => String::from_str("n/a"),
    };
    assert(forall|i: int| 1 <= i <= 6 ==> #[trigger] group(g, i) is Some);
    Some(
        ProcMapItem {
            start_addr,
            end_addr,
            permissions,
            size_maybe,
            start_time,
            file_desc,
            file_name,
        },
    )
}

/// The mapping described by a line of `/proc/<pid>/maps`, if the line is one.
pub fn parse_maps_line(line: &str) -> (r: Option<ProcMapItem>)
    ensures
        match regex_captures(MAPS_LINE@, line@) {
            None => r is None,
            Some(g) => (r is Some <==> map_groups_ok(g)) && (r matches Some(m) ==> map_from_groups(
                g,
                &m,
            )),
        },
{
    match captures(MAPS_LINE, line) {
        Some(gs) => proc_map_item_of(&gs),
        None => None,
    }
}

/// Whether the groups of a match of `NET_LINE` describe a socket: groups 1 to 7
/// are present and groups 4 to 7 read as numbers.
pub open spec fn net_groups_ok(g: Seq<Option<Seq<char>>>) -> bool {
    (forall|i: int| 1 <= i <= 7 ==> #[trigger] group(g, i) is Some) && (forall|i: int|
        4 <= i <= 7 ==> parse_u32_spec(#[trigger] group(g, i)->0) is Some)
}

/// `n` is the socket that the groups describe, of protocol `protocol`.
pub open spec fn net_from_groups(g: Seq<Option<Seq<char>>>, protocol: Seq<char>, n: &NetItem) -> bool {
    &&& group(g, 1) == Some(n.local_address@)
    &&& group(g, 2) == Some(n.remote_address@)
    &&& group(g, 3) == Some(n.st@)
    &&& parse_u32_spec(group(g, 4)->0) == Some(n.uid)
    &&& parse_u32_spec(group(g, 5)->0) == Some(n.timeout)
    &&& parse_u32_spec(group(g, 6)->0) == Some(n.inode)
    &&& parse_u32_spec(group(g, 7)->0) == Some(n.ref_cnt)
    &&& n.protocol@ == protocol
}

/// The socket described by the groups of a match of `NET_LINE`.
pub fn net_item_of(gs: &Vec<Option<String>>, protocol: &str) -> (r: Option<NetItem>)
    ensures
        r is Some <==> net_groups_ok(group_views(gs@)),
        r matches Some(n) ==> net_from_groups(group_views(gs@), protocol@, &n),
{
    let ghost g = group_views(gs@);
    let local_address = match group_at(gs, 1) {
        Some(s) => s,
        None => return None,
    };
    let remote_address = match group_at(gs, 2) {
        Some(s) => s,
        None => return None,
    };
    let st = match group_at(gs, 3) {
        Some(s) => s,
        None => return None,
    };
    let t4 = match group_at(gs, 4) {
        Some(s) => s,
        None => return None,
    };
    let t5 = match group_at(gs, 5) {
        Some(s) => s,
        None => return None,
    };
    let t6 = match group_at(gs, 6) {
        Some(s) => s,
        None => return None,
    };
    let t7 = match group_at(gs, 7) {
        Some(s) => s,
        None => return None,
    };
    assert(forall|i: int| 1 <= i <= 7 ==> #[trigger] group(g, i) is Some);
    let uid = match parse_u32(t4.as_str()) {
        Some(n) => n,
        None => return None,
    };
    let timeout = match parse_u32(t5.as_str()) {
        Some(n) => n,
        None => return None,
    };
    let inode = match parse_u32(t6.as_str()) {
        Some(n) => n,
        None => return None,
    };
    let ref_cnt = match parse_u32(t7.as_str()) {
        Some(n) => n,
        None => return None,
    };
    assert(forall|i: int| 4 <= i <= 7 ==> parse_u32_spec(#[trigger] group(g, i)->0) is Some);
    Some(
        NetItem {
            uid,
            local_address,
            remote_address,
            st,
            timeout,
            inode,
            ref_cnt,
            protocol: String::from_str(protocol),
        },
    )
}

/// The socket described by a line of `/proc/net/tcp` or `/proc/net/udp`, if the line is one.
pub fn parse_net_line(line: &str, protocol: &str) -> (r: Option<NetItem>)
    ensures
        match regex_captures(NET_LINE@, line@) {
            None => r is None,
            Some(g) => (r is Some <==> net_groups_ok(g)) && (r matches Some(n) ==> net_from_groups(
                g,
                protocol@,
                &n,
            )),
        },
{
    match captures(NET_LINE, line) {
        Some(gs) => net_item_of(&gs, protocol),
        None => None,
    }
}

/// The number after `/proc/` in a path, if there is one and it fits in 32 bits.
pub open spec fn pid_of_path(path: Seq<char>) -> Option<u32> {
    match regex_captures(PROC_DIR@, path) {
        Some(g) => match group(g, 1) {
            Some(d) => parse_u32_spec(d),
            None => None,
        },
        None => None,
    }
}

/// The process id of a `/proc/<pid>` directory path.
pub fn get_pids(path: &str) -> (r: Option<u32>)
    ensures
        r == pid_of_path(path@),
{
    match captures(PROC_DIR, path) {
        Some(gs) => match group_at(&gs, 1) {
            Some(d) => parse_u32(d.as_str()),
            None => None,
        },
        None => None,
    }
}

/// The leftmost match as a whole, or the empty text.
pub open spec fn match_or_empty(pattern: Seq<char>, text: Seq<char>) -> Seq<char> {
    match regex_captures(pattern, text) {
        Some(g) => match group(g, 0) {
            Some(t) => t,
            None => Seq::empty(),
        },
        None => Seq::empty(),
    }
}

fn whole_match(pattern: &str, text: &str) -> (r: String)
    ensures
        r@ == match_or_empty(pattern@, text@),
{
    match captures(pattern, text) {
        Some(gs) => match group_at(&gs, 0) {
            Some(t) => t,
            None => String::new(),
        },
        None => String::new(),
    }
}

/// The kernel version, build host and compiler as the kernel's version line
/// (`/proc/version`) writes them; a part that cannot be found is empty.
pub fn get_os_version_info(text: &str) -> (r: OSVersion)
    ensures
        r.kernel_version@ == match_or_empty(KERNEL_VERSION@, text@),
        r.build_id@ == match_or_empty(KERNEL_BUILD@, text@),
        r.gcc_version@ == match_or_empty(KERNEL_GCC@, text@),
{
    OSVersion {
        kernel_version: whole_match(KERNEL_VERSION, text),
        build_id: whole_match(KERNEL_BUILD, text),
        gcc_version: whole_match(KERNEL_GCC, text),
    }
}

/// The creation time as a file listing shows it: the written-out time, or `??`
/// when the time is unknown or out of range.
pub open spec fn created_text(created: Option<(i64, u32)>) -> Seq<char> {
    match created {
        Some((s, n)) => match utc_time_text(s as int, n as nat) {
            Some(t) => t,
            None => "??"@,
        },
        None => "??"@,
    }
}

/// A directory entry, its creation time given as seconds and nanoseconds since the Unix epoch.
pub fn file_item(name: String, is_dir: bool, owner: u32, created: Option<(i64, u32)>) -> (r: FileItem)
    ensures
        r.name == name,
        r.is_dir == is_dir,
        r.file_owner == owner,
        r.file_creation_time@ == created_text(created),
{
    let file_creation_time = match created {
        Some((s, n)) => match format_utc(s, n) {
            Some(t) => t,
            None => String::from_str("??"),
        },
        None => String::from_str("??"),
    };
    FileItem { name, is_dir, file_owner: owner, file_creation_time }
}

} // verus!
