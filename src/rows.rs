//! Entity rows: one type per table kind, each answering attribute lookups by name.
use vstd::prelude::*;
use vstd::string::*;
use crate::text::{dec, str_eq, u32_to_string};

verus! {

/// What every row kind offers to the filter and the projector: a numeric and a
/// textual lookup by attribute name, and its own rendering of all its columns.
pub trait HasLookup {
    /// The numeric value of `attribute`; 0 for a name the row does not know.
    spec fn num_attr(&self, attribute: Seq<char>) -> u32;

    /// The text of `attribute`; the sentinel `unsupported` for a name the row does not know.
    spec fn str_attr(&self, attribute: Seq<char>) -> Seq<char>;

    /// The row with every column, in the table's column order, as one delimited line.
    spec fn native_row(&self) -> Seq<char>;

    fn lookup(&self, attribute: &String) -> (r: u32)
        ensures
            r == self.num_attr(attribute@),
    ;

    fn lookup_str(&self, attribute: &String) -> (r: String)
        ensures
            r@ == self.str_attr(attribute@),
    ;

    fn render_row(&self) -> (r: String)
        ensures
            r@ == self.native_row(),
    ;
}

/// The text that a lookup of an unknown attribute gives.
pub open spec fn unsupported() -> Seq<char> {
    "unsupported"@
}

fn unsupported_string() -> (r: String)
    ensures
        r@ == unsupported(),
{
    String::from_str("unsupported")
}

fn bool_text(b: bool) -> (r: String)
    ensures
        r@ == bool_spec(b),
{
    if b {
        String::from_str("true")
    } else {
        String::from_str("false")
    }
}

pub open spec fn bool_spec(b: bool) -> Seq<char> {
    if b {
        "true"@
    } else {
        "false"@
    }
}

/// A running process.
pub struct ProcItem {
    pub pid: u32,
    pub ppid: u32,
    pub cmdline: String,
    pub owner: u32,
}

impl HasLookup for ProcItem {
    open spec fn num_attr(&self, attribute: Seq<char>) -> u32 {
        if attribute == "pid"@ {
            self.pid
        } else if attribute == "ppid"@ {
            self.ppid
        } else if attribute == "uid"@ {
            self.owner
        } else {
            0
        }
    }

    open spec fn str_attr(&self, attribute: Seq<char>) -> Seq<char> {
        if attribute == "pid"@ {
            dec(self.pid as nat)
        } else if attribute == "ppid"@ {
            dec(self.ppid as nat)
        } else if attribute == "cmdline"@ {
            self.cmdline@
        } else if attribute == "uid"@ {
            dec(self.owner as nat)
        } else {
            unsupported()
        }
    }

    open spec fn native_row(&self) -> Seq<char> {
        "|"@ + self.cmdline@ + "|"@ + dec(self.pid as nat) + "|"@ + dec(self.ppid as nat) + "|"@
            + dec(self.owner as nat) + "|\n"@
    }

    fn lookup(&self, attribute: &String) -> (r: u32) {
        let a = attribute.as_str();
        if str_eq(a, "pid") {
            self.pid
        } else if str_eq(a, "ppid") {
            self.ppid
        } else if str_eq(a, "uid") {
            self.owner
        } else {
            0
        }
    }

    fn lookup_str(&self, attribute: &String) -> (r: String) {
        let a = attribute.as_str();
        if str_eq(a, "pid") {
            u32_to_string(self.pid)
        } else if str_eq(a, "ppid") {
            u32_to_string(self.ppid)
        } else if str_eq(a, "cmdline") {
            self.cmdline.clone()
        } else if str_eq(a, "uid") {
            u32_to_string(self.owner)
        } else {
            unsupported_string()
        }
    }

    fn render_row(&self) -> (r: String) {
        let mut r = String::from_str("|");
        r.append(self.cmdline.as_str());
        r.append("|");
        r.append(u32_to_string(self.pid).as_str());
        r.append("|");
        r.append(u32_to_string(self.ppid).as_str());
        r.append("|");
        r.append(u32_to_string(self.owner).as_str());
        r.append("|\n");
        r
    }
}

impl ProcItem {
    /// All columns of the process, in the table's column order.
    pub fn to_row(self) -> (r: String)
        ensures
            r@ == self.native_row(),
    {
        self.render_row()
    }
}

/// An entry of a directory.
pub struct FileItem {
    pub name: String,
    pub is_dir: bool,
    pub file_owner: u32,
    pub file_creation_time: String,
}

impl HasLookup for FileItem {
    open spec fn num_attr(&self, attribute: Seq<char>) -> u32 {
        if attribute == "uid"@ {
            self.file_owner
        } else if attribute == "dir"@ {
            if self.is_dir {
                1
            } else {
                0
            }
        } else {
            0
        }
    }

    open spec fn str_attr(&self, attribute: Seq<char>) -> Seq<char> {
        if attribute == "name"@ {
            self.name@
        } else if attribute == "dir"@ {
            bool_spec(self.is_dir)
        } else if attribute == "uid"@ {
            dec(self.file_owner as nat)
        } else if attribute == "created"@ {
            self.file_creation_time@
        } else {
            unsupported()
        }
    }

    open spec fn native_row(&self) -> Seq<char> {
        "|"@ + self.file_creation_time@ + "|"@ + bool_spec(self.is_dir) + "|"@ + self.name@ + "|"@
            + dec(self.file_owner as nat) + "|\n"@
    }

    fn lookup(&self, attribute: &String) -> (r: u32) {
        let a = attribute.as_str();
        if str_eq(a, "uid") {
            self.file_owner
        } else if str_eq(a, "dir") {
            if self.is_dir {
                1
            } else {
                0
            }
        } else {
            0
        }
    }

    fn lookup_str(&self, attribute: &String) -> (r: String) {
        let a = attribute.as_str();
        if str_eq(a, "name") {
            self.name.clone()
        } else if str_eq(a, "dir") {
            bool_text(self.is_dir)
        } else if str_eq(a, "uid") {
            u32_to_string(self.file_owner)
        } else if str_eq(a, "created") {
            self.file_creation_time.clone()
        } else {
            unsupported_string()
        }
    }

    fn render_row(&self) -> (r: String) {
        let mut r = String::from_str("|");
        r.append(self.file_creation_time.as_str());
        r.append("|");
        r.append(bool_text(self.is_dir).as_str());
        r.append("|");
        r.append(self.name.as_str());
        r.append("|");
        r.append(u32_to_string(self.file_owner).as_str());
        r.append("|\n");
        r
    }
}

impl FileItem {
    /// All columns of the entry, in the table's column order.
    pub fn to_row(self) -> (r: String)
        ensures
            r@ == self.native_row(),
    {
        self.render_row()
    }
}

/// A socket of `/proc/net/tcp` or `/proc/net/udp`.
pub struct NetItem {
    pub uid: u32,
    pub local_address: String,
    pub remote_address: String,
    pub st: String,
    pub timeout: u32,
    pub inode: u32,
    pub ref_cnt: u32,
    pub protocol: String,
}

impl HasLookup for NetItem {
    open spec fn num_attr(&self, attribute: Seq<char>) -> u32 {
        if attribute == "uid"@ {
            self.uid
        } else if attribute == "timeout"@ {
            self.timeout
        } else if attribute == "inode"@ {
            self.inode
        } else if attribute == "ref_cnt"@ {
            self.ref_cnt
        } else {
            0
        }
    }

    open spec fn str_attr(&self, attribute: Seq<char>) -> Seq<char> {
        if attribute == "uid"@ {
            dec(self.uid as nat)
        } else if attribute == "timeout"@ {
            dec(self.timeout as nat)
        } else if attribute == "local_address"@ {
            self.local_address@
        } else if attribute == "remote_address"@ {
            self.remote_address@
        } else if attribute == "state"@ {
            self.st@
        } else if attribute == "inode"@ {
            dec(self.inode as nat)
        } else if attribute == "ref_cnt"@ {
            dec(self.ref_cnt as nat)
        } else if attribute == "protocol"@ {
            self.protocol@
        } else {
            unsupported()
        }
    }

    open spec fn native_row(&self) -> Seq<char> {
        "|"@ + dec(self.inode as nat) + "|"@ + self.local_address@ + "|"@ + self.protocol@ + "|"@
            + dec(self.ref_cnt as nat) + "|"@ + self.remote_address@ + "|"@ + self.st@ + "|"@
            + dec(self.timeout as nat) + "|"@ + dec(self.uid as nat) + "|\n"@
    }

    fn lookup(&self, attribute: &String) -> (r: u32) {
        let a = attribute.as_str();
        if str_eq(a, "uid") {
            self.uid
        } else if str_eq(a, "timeout") {
            self.timeout
        } else if str_eq(a, "inode") {
            self.inode
        } else if str_eq(a, "ref_cnt") {
            self.ref_cnt
        } else {
            0
        }
    }

    fn lookup_str(&self, attribute: &String) -> (r: String) {
        let a = attribute.as_str();
        if str_eq(a, "uid") {
            u32_to_string(self.uid)
        } else if str_eq(a, "timeout") {
            u32_to_string(self.timeout)
        } else if str_eq(a, "local_address") {
            self.local_address.clone()
        } else if str_eq(a, "remote_address") {
            self.remote_address.clone()
        } else if str_eq(a, "state") {
            self.st.clone()
        } else if str_eq(a, "inode") {
            u32_to_string(self.inode)
        } else if str_eq(a, "ref_cnt") {
            u32_to_string(self.ref_cnt)
        } else if str_eq(a, "protocol") {
            self.protocol.clone()
        } else {
            unsupported_string()
        }
    }

    fn render_row(&self) -> (r: String) {
        let mut r = String::from_str("|");
        r.append(u32_to_string(self.inode).as_str());
        r.append("|");
        r.append(self.local_address.as_str());
        r.append("|");
        r.append(self.protocol.as_str());
        r.append("|");
        r.append(u32_to_string(self.ref_cnt).as_str());
        r.append("|");
        r.append(self.remote_address.as_str());
        r.append("|");
        r.append(self.st.as_str());
        r.append("|");
        r.append(u32_to_string(self.timeout).as_str());
        r.append("|");
        r.append(u32_to_string(self.uid).as_str());
        r.append("|\n");
        r
    }
}

impl NetItem {
    /// All columns of the socket, in the table's column order.
    pub fn to_row(self) -> (r: String)
        ensures
            r@ == self.native_row(),
    {
        self.render_row()
    }
}

/// One mapping of a process's memory, as `/proc/<pid>/maps` lists it.
pub struct ProcMapItem {
    pub start_addr: String,
    pub end_addr: String,
    pub permissions: String,
    pub size_maybe: String,
    pub start_time: String,
    pub file_desc: u32,
    pub file_name: String,
}

impl HasLookup for ProcMapItem {
    open spec fn num_attr(&self, attribute: Seq<char>) -> u32 {
        if attribute == "file_desc"@ {
            self.file_desc
        } else {
            0
        }
    }

    open spec fn str_attr(&self, attribute: Seq<char>) -> Seq<char> {
        if attribute == "start_addr"@ {
            self.start_addr@
        } else if attribute == "end_addr"@ {
            self.end_addr@
        } else if attribute == "permissions"@ {
            self.permissions@
        } else if attribute == "size"@ {
            self.size_maybe@
        } else if attribute == "start_time"@ {
            self.start_time@
        } else if attribute == "file_desc"@ {
            dec(self.file_desc as nat)
        } else if attribute == "file_name"@ {
            self.file_name@
        } else {
            unsupported()
        }
    }

    open spec fn native_row(&self) -> Seq<char> {
        "|"@ + self.end_addr@ + "|"@ + dec(self.file_desc as nat) + "|"@ + self.file_name@ + "|"@
            + self.permissions@ + "|"@ + self.size_maybe@ + "|"@ + self.start_addr@ + "|"@
            + self.start_time@ + "|\n"@
    }

    fn lookup(&self, attribute: &String) -> (r: u32) {
        if str_eq(attribute.as_str(), "file_desc") {
            self.file_desc
        } else {
            0
        }
    }

    fn lookup_str(&self, attribute: &String) -> (r: String) {
        let a = attribute.as_str();
        if str_eq(a, "start_addr") {
            self.start_addr.clone()
        } else if str_eq(a, "end_addr") {
            self.end_addr.clone()
        } else if str_eq(a, "permissions") {
            self.permissions.clone()
        } else if str_eq(a, "size") {
            self.size_maybe.clone()
        } else if str_eq(a, "start_time") {
            self.start_time.clone()
        } else if str_eq(a, "file_desc") {
            u32_to_string(self.file_desc)
        } else if str_eq(a, "file_name") {
            self.file_name.clone()
        } else {
            unsupported_string()
        }
    }

    fn render_row(&self) -> (r: String) {
        let mut r = String::from_str("|");
        r.append(self.end_addr.as_str());
        r.append("|");
        r.append(u32_to_string(self.file_desc).as_str());
        r.append("|");
        r.append(self.file_name.as_str());
        r.append("|");
        r.append(self.permissions.as_str());
        r.append("|");
        r.append(self.size_maybe.as_str());
        r.append("|");
        r.append(self.start_addr.as_str());
        r.append("|");
        r.append(self.start_time.as_str());
        r.append("|\n");
        r
    }
}

impl ProcMapItem {
    /// All columns of the mapping, in the table's column order.
    pub fn to_row(self) -> (r: String)
        ensures
            r@ == self.native_row(),
    {
        self.render_row()
    }
}

/// The running kernel's version line, taken apart.
pub struct OSVersion {
    pub kernel_version: String,
    pub build_id: String,
    pub gcc_version: String,
}

} // verus!
