//! Table schemas and the projection of rows onto requested columns.
use vstd::prelude::*;
use vstd::string::*;
use crate::rows::{FileItem, HasLookup, NetItem, OSVersion, ProcItem, ProcMapItem};
use crate::text::{join, join_with, str_eq, views};

verus! {

/// The names of a schema's columns, in its order.
pub open spec fn key_views(schema: Seq<String>) -> Seq<Seq<char>> {
    views(schema)
}

/// Whether the requested columns ask for every column: none given, or `*` alone.
pub open spec fn wants_all(cols: Seq<Seq<char>>) -> bool {
    cols.len() == 0 || (cols.len() == 1 && cols[0] == "*"@)
}

/// The requested columns that the schema has, in the requested order.
pub open spec fn chosen(cols: Seq<Seq<char>>, keys: Seq<Seq<char>>) -> Seq<Seq<char>>
    decreases cols.len(),
{
    if cols.len() == 0 {
        cols
    } else {
        let r = chosen(cols.drop_last(), keys);
        if keys.contains(cols.last()) {
            r.push(cols.last())
        } else {
            r
        }
    }
}

/// The row's texts for `cols`, leaving out every empty one.
pub open spec fn cells<T: HasLookup>(row: &T, cols: Seq<Seq<char>>) -> Seq<Seq<char>>
    decreases cols.len(),
{
    if cols.len() == 0 {
        Seq::empty()
    } else {
        let r = cells(row, cols.drop_last());
        let v = row.str_attr(cols.last());
        if v.len() == 0 {
            r
        } else {
            r.push(v)
        }
    }
}

/// One rendered row: the row's own rendering when every column is asked for,
/// else its non-empty texts for the requested columns that the schema has.
pub open spec fn row_line<T: HasLookup>(row: &T, cols: Seq<Seq<char>>, keys: Seq<Seq<char>>) -> Seq<
    char,
> {
    if wants_all(cols) {
        row.native_row()
    } else {
        "|"@ + join(cells(row, chosen(cols, keys)), "|"@) + "|\n"@
    }
}

/// The rendered rows, one line each, in order.
pub open spec fn body<T: HasLookup>(rows: Seq<T>, cols: Seq<Seq<char>>, keys: Seq<Seq<char>>) -> Seq<
    char,
>
    decreases rows.len(),
{
    if rows.len() == 0 {
        Seq::empty()
    } else {
        body(rows.drop_last(), cols, keys) + row_line(&rows.last(), cols, keys)
    }
}

/// The columns that a header shows.
pub open spec fn header_columns(cols: Seq<Seq<char>>, keys: Seq<Seq<char>>) -> Seq<Seq<char>> {
    if wants_all(cols) {
        keys
    } else {
        chosen(cols, keys)
    }
}

pub open spec fn rule(n: nat) -> Seq<char>
    decreases n,
{
    if n == 0 {
        Seq::empty()
    } else {
        rule((n - 1) as nat) + "|:-"@
    }
}

/// A header naming `shown`, between two alignment rules.
pub open spec fn header(shown: Seq<Seq<char>>) -> Seq<char> {
    rule(shown.len()) + "|\n|**"@ + join(shown, "**|**"@) + "**|\n"@ + rule(shown.len()) + "|\n"@
}

/// The header and rows of a projected table.
pub open spec fn rendered<T: HasLookup>(rows: Seq<T>, cols: Seq<Seq<char>>, keys: Seq<Seq<char>>) -> Seq<
    char,
> {
    header(header_columns(cols, keys)) + body(rows, cols, keys)
}

/// The kinds of table that can be queried.
#[derive(Clone, Copy, Debug, PartialEq, Eq, Structural)]
pub enum TableKind {
    Procs,
    Fs,
    ProcMaps,
    Net,
    OsVersion,
}

/// The column names of each table kind, in their canonical (sorted) order.
pub open spec fn schema_keys(kind: TableKind) -> Seq<Seq<char>> {
    match kind {
        TableKind::Procs => seq!["cmdline"@, "pid"@, "ppid"@, "uid"@],
        TableKind::Fs => seq!["created"@, "dir"@, "name"@, "uid"@],
        TableKind::ProcMaps => seq![
            "end_addr"@,
            "file_desc"@,
            "file_name"@,
            "permissions"@,
            "size"@,
            "start_addr"@,
            "start_time"@,
        ],
        TableKind::Net => seq![
            "inode"@,
            "local_address"@,
            "protocol"@,
            "ref_cnt"@,
            "remote_address"@,
            "state"@,
            "timeout"@,
            "uid"@,
        ],
        TableKind::OsVersion => seq!["build_id"@, "gcc_version"@, "kernel_version"@],
    }
}

/// The schema of a table kind: its column names, in canonical order.
pub fn schema_of(kind: TableKind) -> (r: Vec<String>)
    ensures
        key_views(r@) == schema_keys(kind),
{
    let mut v: Vec<String> = Vec::new();
    match kind {
        TableKind::Procs => {
            v.push(String::from_str("cmdline"));
            v.push(String::from_str("pid"));
            v.push(String::from_str("ppid"));
            v.push(String::from_str("uid"));
        },
        TableKind::Fs => {
            v.push(String::from_str("created"));
            v.push(String::from_str("dir"));
            v.push(String::from_str("name"));
            v.push(String::from_str("uid"));
        },
        TableKind::ProcMaps => {
            v.push(String::from_str("end_addr"));
            v.push(String::from_str("file_desc"));
            v.push(String::from_str("file_name"));
            v.push(String::from_str("permissions"));
            v.push(String::from_str("size"));
            v.push(String::from_str("start_addr"));
            v.push(String::from_str("start_time"));
        },
        TableKind::Net => {
            v.push(String::from_str("inode"));
            v.push(String::from_str("local_address"));
            v.push(String::from_str("protocol"));
            v.push(String::from_str("ref_cnt"));
            v.push(String::from_str("remote_address"));
            v.push(String::from_str("state"));
            v.push(String::from_str("timeout"));
            v.push(String::from_str("uid"));
        },
        TableKind::OsVersion => {
            v.push(String::from_str("build_id"));
            v.push(String::from_str("gcc_version"));
            v.push(String::from_str("kernel_version"));
        },
    }
    assert(key_views(v@) =~= schema_keys(kind));
    v
}

/// Whether the requested columns ask for every column.
pub fn wants_all_columns(cols: &Vec<String>) -> (r: bool)
    ensures
        r == wants_all(views(cols@)),
{
    cols.len() == 0 || (cols.len() == 1 && str_eq(cols[0].as_str(), "*"))
}

fn has_key(schema: &Vec<String>, c: &String) -> (r: bool)
    ensures
        r == key_views(schema@).contains(c@),
{
    let mut i: usize = 0;
    while i < schema.len()
        invariant
            i <= schema.len(),
            forall|k: int| 0 <= k < i ==> key_views(schema@)[k] != c@,
        decreases schema.len() - i,
    {
        if schema[i] == *c {
            assert(key_views(schema@)[i as int] == c@);
            return true;
        }
        i = i + 1;
    }
    false
}

/// The requested columns that the schema has, in the requested order.
pub fn chosen_columns(cols: &Vec<String>, schema: &Vec<String>) -> (r: Vec<String>)
    ensures
        views(r@) == chosen(views(cols@), key_views(schema@)),
{
    let ghost cs = views(cols@);
    let ghost keys = key_views(schema@);
    let mut r: Vec<String> = Vec::new();
    let mut i: usize = 0;
    while i < cols.len()
        invariant
            cs == views(cols@),
            keys == key_views(schema@),
            i <= cols.len(),
            views(r@) == chosen(cs.take(i as int), keys),
        decreases cols.len() - i,
    {
        assert(cs.take(i + 1).drop_last() == cs.take(i as int));
        assert(cs.take(i + 1).last() == cols@[i as int]@);
        if has_key(schema, &cols[i]) {
            let ghost before = r@;
            r.push(cols[i].clone());
            assert(views(r@) == views(before).push(cols@[i as int]@));
        }
        i = i + 1;
    }
    assert(cs.take(cols.len() as int) == cs);
    r
}

fn row_cells<T: HasLookup>(row: &T, cols: &Vec<String>) -> (r: Vec<String>)
    ensures
        views(r@) == cells(row, views(cols@)),
{
    let ghost cs = views(cols@);
    let mut r: Vec<String> = Vec::new();
    let mut i: usize = 0;
    while i < cols.len()
        invariant
            cs == views(cols@),
            i <= cols.len(),
            views(r@) == cells(row, cs.take(i as int)),
        decreases cols.len() - i,
    {
        assert(cs.take(i + 1).drop_last() == cs.take(i as int));
        assert(cs.take(i + 1).last() == cols@[i as int]@);
        let v = row.lookup_str(&cols[i]);
        if !v.as_str().is_empty() {
            let ghost before = r@;
            r.push(v);
            assert(views(r@) == views(before).push(row.str_attr(cs[i as int])));
        }
        i = i + 1;
    }
    assert(cs.take(cols.len() as int) == cs);
    r
}

/// One rendered row for the requested columns.
pub fn render_line<T: HasLookup>(row: &T, cols: &Vec<String>, schema: &Vec<String>) -> (r:
    String)
    ensures
        r@ == row_line(row, views(cols@), key_views(schema@)),
{
    if wants_all_columns(cols) {
        row.render_row()
    } else {
        let shown = chosen_columns(cols, schema);
        let parts = row_cells(row, &shown);
        let mut r = String::from_str("|");
        r.append(join_with(&parts, "|").as_str());
        r.append("|\n");
        r
    }
}

/// The rendered rows, one line each, in order.
pub fn render_body<T: HasLookup>(rows: &Vec<T>, cols: &Vec<String>, schema: &Vec<String>) -> (r:
    String)
    ensures
        r@ == body(rows@, views(cols@), key_views(schema@)),
{
    let mut r = String::new();
    let mut i: usize = 0;
    while i < rows.len()
        invariant
            i <= rows.len(),
            r@ == body(rows@.take(i as int), views(cols@), key_views(schema@)),
        decreases rows.len() - i,
    {
        assert(rows@.take(i + 1).drop_last() == rows@.take(i as int));
        assert(rows@.take(i + 1).last() == rows@[i as int]);
        let line = render_line(&rows[i], cols, schema);
        r.append(line.as_str());
        i = i + 1;
    }
    assert(rows@.take(rows.len() as int) == rows@);
    r
}

fn rule_text(n: usize) -> (r: String)
    ensures
        r@ == rule(n as nat),
{
    let mut r = String::new();
    let mut i: usize = 0;
    while i < n
        invariant
            i <= n,
            r@ == rule(i as nat),
        decreases n - i,
    {
        r.append("|:-");
        i = i + 1;
    }
    r
}

/// The header of a projected table: the columns shown, between two alignment rules.
pub fn render_header(cols: &Vec<String>, schema: &Vec<String>) -> (r: String)
    ensures
        r@ == header(header_columns(views(cols@), key_views(schema@))),
{
    let shown: Vec<String> = if wants_all_columns(cols) {
        let mut all: Vec<String> = Vec::new();
        let mut i: usize = 0;
        while i < schema.len()
            invariant
                i <= schema.len(),
                views(all@) == key_views(schema@).take(i as int),
            decreases schema.len() - i,
        {
            let ghost before = all@;
            all.push(schema[i].clone());
            assert(views(all@) == views(before).push(schema@[i as int]@));
            assert(key_views(schema@).take(i + 1) == key_views(schema@).take(i as int).push(
                schema@[i as int]@,
            ));
            i = i + 1;
        }
        assert(key_views(schema@).take(schema.len() as int) == key_views(schema@));
        all
    } else {
        chosen_columns(cols, schema)
    };
    let n = shown.len();
    let mut r = rule_text(n);
    r.append("|\n|**");
    r.append(join_with(&shown, "**|**").as_str());
    r.append("**|\n");
    r.append(rule_text(n).as_str());
    r.append("|\n");
    r
}

/// A table that can be projected: a schema and rows.
pub trait HasSchema {
    spec fn keys(&self) -> Seq<Seq<char>>;

    spec fn body_spec(&self, cols: Seq<Seq<char>>) -> Seq<char>;

    fn get_schema(&self) -> (r: &Vec<String>)
        ensures
            key_views(r@) == self.keys(),
    ;

    fn get_table_body(self, cols: &Vec<String>) -> (r: String)
        ensures
            r@ == self.body_spec(views(cols@)),
    ;
}

/// The table rendered for the requested columns: header, then one line per row.
pub fn export<T: HasSchema>(table: T, cols: &Vec<String>) -> (r: String)
    ensures
        r@ == header(header_columns(views(cols@), table.keys())) + table.body_spec(views(cols@)),
{
    let mut r = render_header(cols, table.get_schema());
    let body = table.get_table_body(cols);
    r.append(body.as_str());
    r
}

/// The processes of one query.
pub struct ProcTable {
    pub table: Vec<ProcItem>,
    pub schema: Vec<String>,
}

impl ProcTable {
    pub fn new() -> (r: ProcTable)
        ensures
            r.table@.len() == 0,
            key_views(r.schema@) == schema_keys(TableKind::Procs),
    {
        ProcTable { table: Vec::new(), schema: schema_of(TableKind::Procs) }
    }

    pub fn add_row(&mut self, item: ProcItem)
        ensures
            final(self).table@ == old(self).table@.push(item),
            final(self).schema == old(self).schema,
    {
        self.table.push(item);
    }

    pub fn get_body(self, cols: &Vec<String>) -> (r: String)
        ensures
            r@ == body(self.table@, views(cols@), key_views(self.schema@)),
    {
        render_body(&self.table, cols, &self.schema)
    }
}

impl HasSchema for ProcTable {
    open spec fn keys(&self) -> Seq<Seq<char>> {
        key_views(self.schema@)
    }

    open spec fn body_spec(&self, cols: Seq<Seq<char>>) -> Seq<char> {
        body(self.table@, cols, key_views(self.schema@))
    }

    fn get_schema(&self) -> (r: &Vec<String>) {
        &self.schema
    }

    fn get_table_body(self, cols: &Vec<String>) -> (r: String) {
        self.get_body(cols)
    }
}

/// The entries of one directory.
pub struct FileTable {
    pub table: Vec<FileItem>,
    pub schema: Vec<String>,
}

impl FileTable {
    pub fn new() -> (r: FileTable)
        ensures
            r.table@.len() == 0,
            key_views(r.schema@) == schema_keys(TableKind::Fs),
    {
        FileTable { table: Vec::new(), schema: schema_of(TableKind::Fs) }
    }

    pub fn add_row(&mut self, item: FileItem)
        ensures
            final(self).table@ == old(self).table@.push(item),
            final(self).schema == old(self).schema,
    {
        self.table.push(item);
    }

    pub fn get_body(self, cols: &Vec<String>) -> (r: String)
        ensures
            r@ == body(self.table@, views(cols@), key_views(self.schema@)),
    {
        render_body(&self.table, cols, &self.schema)
    }
}

impl HasSchema for FileTable {
    open spec fn keys(&self) -> Seq<Seq<char>> {
        key_views(self.schema@)
    }

    open spec fn body_spec(&self, cols: Seq<Seq<char>>) -> Seq<char> {
        body(self.table@, cols, key_views(self.schema@))
    }

    fn get_schema(&self) -> (r: &Vec<String>) {
        &self.schema
    }

    fn get_table_body(self, cols: &Vec<String>) -> (r: String) {
        self.get_body(cols)
    }
}

/// The sockets of one query.
pub struct NetTable {
    pub table: Vec<NetItem>,
    pub schema: Vec<String>,
}

impl NetTable {
    pub fn new() -> (r: NetTable)
        ensures
            r.table@.len() == 0,
            key_views(r.schema@) == schema_keys(TableKind::Net),
    {
        NetTable { table: Vec::new(), schema: schema_of(TableKind::Net) }
    }

    pub fn add_row(&mut self, item: NetItem)
        ensures
            final(self).table@ == old(self).table@.push(item),
            final(self).schema == old(self).schema,
    {
        self.table.push(item);
    }

    pub fn get_body(self, cols: &Vec<String>) -> (r: String)
        ensures
            r@ == body(self.table@, views(cols@), key_views(self.schema@)),
    {
        render_body(&self.table, cols, &self.schema)
    }
}

impl HasSchema for NetTable {
    open spec fn keys(&self) -> Seq<Seq<char>> {
        key_views(self.schema@)
    }

    open spec fn body_spec(&self, cols: Seq<Seq<char>>) -> Seq<char> {
        body(self.table@, cols, key_views(self.schema@))
    }

    fn get_schema(&self) -> (r: &Vec<String>) {
        &self.schema
    }

    fn get_table_body(self, cols: &Vec<String>) -> (r: String) {
        self.get_body(cols)
    }
}

/// The memory mappings of one process.
pub struct ProcMapTable {
    pub table: Vec<ProcMapItem>,
    pub schema: Vec<String>,
}

impl ProcMapTable {
    pub fn new() -> (r: ProcMapTable)
        ensures
            r.table@.len() == 0,
            key_views(r.schema@) == schema_keys(TableKind::ProcMaps),
    {
        ProcMapTable { table: Vec::new(), schema: schema_of(TableKind::ProcMaps) }
    }

    pub fn add_row(&mut self, item: ProcMapItem)
        ensures
            final(self).table@ == old(self).table@.push(item),
            final(self).schema == old(self).schema,
    {
        self.table.push(item);
    }

    pub fn get_body(self, cols: &Vec<String>) -> (r: String)
        ensures
            r@ == body(self.table@, views(cols@), key_views(self.schema@)),
    {
        render_body(&self.table, cols, &self.schema)
    }
}

impl HasSchema for ProcMapTable {
    open spec fn keys(&self) -> Seq<Seq<char>> {
        key_views(self.schema@)
    }

    open spec fn body_spec(&self, cols: Seq<Seq<char>>) -> Seq<char> {
        body(self.table@, cols, key_views(self.schema@))
    }

    fn get_schema(&self) -> (r: &Vec<String>) {
        &self.schema
    }

    fn get_table_body(self, cols: &Vec<String>) -> (r: String) {
        self.get_body(cols)
    }
}

/// The OS version columns, by name, in the order the table lists them.
pub open spec fn os_pairs(os: &OSVersion) -> Seq<(Seq<char>, Seq<char>)> {
    seq![
        ("kernel_version"@, os.kernel_version@),
        ("build_id"@, os.build_id@),
        ("gcc_version"@, os.gcc_version@),
    ]
}

pub open spec fn os_value(os: &OSVersion, name: Seq<char>) -> Option<Seq<char>> {
    if name == "kernel_version"@ {
        Some(os.kernel_version@)
    } else if name == "build_id"@ {
        Some(os.build_id@)
    } else if name == "gcc_version"@ {
        Some(os.gcc_version@)
    } else {
        None
    }
}

pub open spec fn pair_names(ps: Seq<(Seq<char>, Seq<char>)>) -> Seq<Seq<char>> {
    ps.map_values(|p: (Seq<char>, Seq<char>)| p.0)
}

/// The requested OS version columns that exist, with their values, in the order
/// first requested; a column requested again is listed once.
pub open spec fn os_chosen(cols: Seq<Seq<char>>, os: &OSVersion) -> Seq<(Seq<char>, Seq<char>)>
    decreases cols.len(),
{
    if cols.len() == 0 {
        Seq::empty()
    } else {
        let r = os_chosen(cols.drop_last(), os);
        match os_value(os, cols.last()) {
            Some(v) => if pair_names(r).contains(cols.last()) {
                r
            } else {
                r.push((cols.last(), v))
            },
            None => r,
        }
    }
}

pub open spec fn os_selected(cols: Seq<Seq<char>>, os: &OSVersion) -> Seq<(Seq<char>, Seq<char>)> {
    if wants_all(cols) {
        os_pairs(os)
    } else {
        os_chosen(cols, os)
    }
}

pub open spec fn pair_views(v: Seq<(String, String)>) -> Seq<(Seq<char>, Seq<char>)> {
    v.map_values(|p: (String, String)| (p.0@, p.1@))
}

/// The OS version table: one column per entry.
pub struct OSVersionTable {
    pub columns: Vec<(String, String)>,
}

fn has_name(pairs: &Vec<(String, String)>, c: &String) -> (r: bool)
    ensures
        r == pair_names(pair_views(pairs@)).contains(c@),
{
    let ghost names = pair_names(pair_views(pairs@));
    let mut i: usize = 0;
    while i < pairs.len()
        invariant
            names == pair_names(pair_views(pairs@)),
            i <= pairs.len(),
            forall|k: int| 0 <= k < i ==> names[k] != c@,
        decreases pairs.len() - i,
    {
        if pairs[i].0 == *c {
            assert(names[i as int] == c@);
            return true;
        }
        i = i + 1;
    }
    false
}

fn os_lookup(os: &OSVersion, name: &String) -> (r: Option<String>)
    ensures
        r matches Some(v) ==> os_value(os, name@) == Some(v@),
        r is None ==> os_value(os, name@) is None,
{
    let a = name.as_str();
    if str_eq(a, "kernel_version") {
        Some(os.kernel_version.clone())
    } else if str_eq(a, "build_id") {
        Some(os.build_id.clone())
    } else if str_eq(a, "gcc_version") {
        Some(os.gcc_version.clone())
    } else {
        None
    }
}

/// The OS version columns asked for, with their values: all of them when every
/// column is asked for, else the requested ones that exist, each once, in
/// requested order.
pub fn do_get_os_version_info(cols: &Vec<String>, os: &OSVersion) -> (r: OSVersionTable)
    ensures
        pair_views(r.columns@) == os_selected(views(cols@), os),
{
    let mut out: Vec<(String, String)> = Vec::new();
    if wants_all_columns(cols) {
        out.push((String::from_str("kernel_version"), os.kernel_version.clone()));
        out.push((String::from_str("build_id"), os.build_id.clone()));
        out.push((String::from_str("gcc_version"), os.gcc_version.clone()));
        assert(pair_views(out@) =~= os_pairs(os));
        return OSVersionTable { columns: out };
    }
    let ghost cs = views(cols@);
    let mut i: usize = 0;
    while i < cols.len()
        invariant
            cs == views(cols@),
            i <= cols.len(),
            pair_views(out@) == os_chosen(cs.take(i as int), os),
        decreases cols.len() - i,
    {
        assert(cs.take(i + 1).drop_last() == cs.take(i as int));
        assert(cs.take(i + 1).last() == cols@[i as int]@);
        match os_lookup(os, &cols[i]) {
            Some(v) => {
                if !has_name(&out, &cols[i]) {
                    let ghost before = out@;
                    out.push((cols[i].clone(), v));
                    assert(pair_views(out@) == pair_views(before).push((cs[i as int], v@)));
                }
            },
            None => {},
        }
        i = i + 1;
    }
    assert(cs.take(cols.len() as int) == cs);
    OSVersionTable { columns: out }
}

/// A two-column listing: each name in bold beside its value.
pub open spec fn pairs_text(pairs: Seq<(Seq<char>, Seq<char>)>) -> Seq<char>
    decreases pairs.len(),
{
    if pairs.len() == 0 {
        "|:-|:-|\n"@
    } else {
        pairs_text(pairs.drop_last()) + "|**"@ + pairs.last().0 + "**|"@ + pairs.last().1 + "|\n"@
    }
}

impl OSVersionTable {
    /// The table as a two-column listing.
    pub fn render(&self) -> (r: String)
        ensures
            r@ == pairs_text(pair_views(self.columns@)),
    {
        let ghost ps = pair_views(self.columns@);
        let mut r = String::from_str("|:-|:-|\n");
        let mut i: usize = 0;
        while i < self.columns.len()
            invariant
                ps == pair_views(self.columns@),
                i <= self.columns.len(),
                r@ == pairs_text(ps.take(i as int)),
            decreases self.columns.len() - i,
        {
            assert(ps.take(i + 1).drop_last() == ps.take(i as int));
            assert(ps.take(i + 1).last() == ps[i as int]);
            r.append("|**");
            r.append(self.columns[i].0.as_str());
            r.append("**|");
            r.append(self.columns[i].1.as_str());
            r.append("|\n");
            i = i + 1;
        }
        assert(ps.take(self.columns.len() as int) == ps);
        r
    }
}

proof fn lemma_chosen_concat(a: Seq<Seq<char>>, b: Seq<Seq<char>>, keys: Seq<Seq<char>>)
    ensures
        chosen(a + b, keys) == chosen(a, keys) + chosen(b, keys),
    decreases b.len(),
{
    if b.len() == 0 {
        assert(a + b == a);
        assert(chosen(a, keys) + chosen(b, keys) == chosen(a, keys));
    } else {
        assert((a + b).drop_last() == a + b.drop_last());
        assert((a + b).last() == b.last());
        lemma_chosen_concat(a, b.drop_last(), keys);
        if keys.contains(b.last()) {
            assert(chosen(a, keys) + chosen(b.drop_last(), keys).push(b.last()) == (chosen(
                a,
                keys,
            ) + chosen(b.drop_last(), keys)).push(b.last()));
        }
    }
}

proof fn lemma_chosen_in_keys(cols: Seq<Seq<char>>, keys: Seq<Seq<char>>)
    ensures
        forall|i: int|
            0 <= i < chosen(cols, keys).len() ==> keys.contains(#[trigger] chosen(cols, keys)[i]),
    decreases cols.len(),
{
    if cols.len() > 0 {
        lemma_chosen_in_keys(cols.drop_last(), keys);
        let r = chosen(cols.drop_last(), keys);
        if keys.contains(cols.last()) {
            assert forall|i: int| 0 <= i < r.push(cols.last()).len() implies keys.contains(
                #[trigger] r.push(cols.last())[i],
            ) by {
                if i < r.len() {
                    assert(r.push(cols.last())[i] == r[i]);
                }
            }
        }
    }
}

proof fn lemma_body_same_lines<T: HasLookup>(
    rows: Seq<T>,
    c1: Seq<Seq<char>>,
    c2: Seq<Seq<char>>,
    keys: Seq<Seq<char>>,
)
    requires
        forall|i: int| 0 <= i < rows.len() ==> row_line(&#[trigger] rows[i], c1, keys) == row_line(
            &rows[i],
            c2,
            keys,
        ),
    ensures
        body(rows, c1, keys) == body(rows, c2, keys),
    decreases rows.len(),
{
    if rows.len() > 0 {
        assert forall|i: int| 0 <= i < rows.drop_last().len() implies row_line(
            &#[trigger] rows.drop_last()[i],
            c1,
            keys,
        ) == row_line(&rows.drop_last()[i], c2, keys) by {
            assert(rows.drop_last()[i] == rows[i]);
        }
        lemma_body_same_lines(rows.drop_last(), c1, c2, keys);
        assert(rows.last() == rows[rows.len() - 1]);
    }
}

/// Asking for every column (no column, or `*` alone) shows every schema column
/// in the header, in schema order, and renders each row in full.
pub proof fn lemma_all_columns_shown<T: HasLookup>(
    rows: Seq<T>,
    cols: Seq<Seq<char>>,
    keys: Seq<Seq<char>>,
)
    requires
        wants_all(cols),
    ensures
        header_columns(cols, keys) == keys,
        forall|i: int|
            0 <= i < rows.len() ==> row_line(&#[trigger] rows[i], cols, keys)
                == rows[i].native_row(),
{
}

/// A requested column that the schema does not have is left out without error:
/// it is not in the header, and the header and every row are the same as if it
/// had not been asked for.
pub proof fn lemma_unknown_column_omitted<T: HasLookup>(
    rows: Seq<T>,
    before: Seq<Seq<char>>,
    after: Seq<Seq<char>>,
    c: Seq<char>,
    keys: Seq<Seq<char>>,
)
    requires
        !keys.contains(c),
        !wants_all(before + after),
        !wants_all(before + seq![c] + after),
    ensures
        !header_columns(before + seq![c] + after, keys).contains(c),
        header_columns(before + seq![c] + after, keys) == header_columns(before + after, keys),
        body(rows, before + seq![c] + after, keys) == body(rows, before + after, keys),
{
    let with_c = before + seq![c] + after;
    lemma_chosen_concat(before + seq![c], after, keys);
    lemma_chosen_concat(before, seq![c], keys);
    lemma_chosen_concat(before, after, keys);
    assert(seq![c].drop_last() == Seq::<Seq<char>>::empty());
    assert(seq![c].last() == c);
    assert(chosen(seq![c].drop_last(), keys) == Seq::<Seq<char>>::empty());
    assert(chosen(seq![c], keys) == Seq::<Seq<char>>::empty());
    assert(chosen(before, keys) + Seq::<Seq<char>>::empty() == chosen(before, keys));
    lemma_chosen_in_keys(with_c, keys);
    lemma_body_same_lines(rows, with_c, before + after, keys);
}

} // verus!
