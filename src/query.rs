//! Statements: their grammar, and the dispatch of a statement to its table.
use vstd::prelude::*;
use vstd::string::*;
use crate::predicate::{
    first_target, holds, lemma_eq_own_text_matches, satisfies_all, is_identifier, kept, lemma_quoted_eq_parses, quoted_eq_text, parse_filter_spec, select_rows, vector_selector, without, FilterItems,
    FilterOp,
};
use crate::rows::{FileItem, NetItem, OSVersion, ProcItem, ProcMapItem};
use crate::table::{
    do_get_os_version_info, export, header, os_selected, pairs_text, render_header,
    rendered, schema_keys, schema_of, FileTable, NetTable, ProcMapTable, ProcTable, TableKind,
};
use crate::text::{chars_of, dec, str_eq, substring, views};
use crate::rows::HasLookup;

verus! {

/// Why a statement could not be answered.
pub enum QueryError {
    /// The statement matches neither statement form.
    Syntax,
    /// No table has this name.
    UnknownTable(String),
    /// The table needs a predicate on this field, and the statement has none.
    MissingParameter(String),
    /// The data of the table could not be read.
    Io(String),
}

pub open spec fn message_spec(e: &QueryError) -> Seq<char> {
    match e {
        QueryError::Syntax => "Expected query syntax is select <cols> from <table> where <cond>;"@,
        QueryError::UnknownTable(name) => "Table "@ + name@ + " does not exist."@,
        QueryError::MissingParameter(field) => "You must specify "@ + field@,
        QueryError::Io(msg) => msg@,
    }
}

impl QueryError {
    /// A message for the user.
    pub fn message(&self) -> (r: String)
        ensures
            r@ == message_spec(self),
    {
        match self {
            QueryError::Syntax => String::from_str(
                "Expected query syntax is select <cols> from <table> where <cond>;",
            ),
            QueryError::UnknownTable(name) => {
                let mut r = String::from_str("Table ");
                r.append(name.as_str());
                r.append(" does not exist.");
                r
            },
            QueryError::MissingParameter(field) => {
                let mut r = String::from_str("You must specify ");
                r.append(field.as_str());
                r
            },
            QueryError::Io(msg) => msg.clone(),
        }
    }
}

pub open spec fn is_name_char(c: char) -> bool {
    ('a' <= c <= 'z') || ('A' <= c <= 'Z') || c == '_'
}

pub open spec fn is_name(s: Seq<char>) -> bool {
    s.len() > 0 && forall|i: int| 0 <= i < s.len() ==> is_name_char(#[trigger] s[i])
}

pub open spec fn is_col_char(c: char) -> bool {
    is_name_char(c) || c == '*' || c == ',' || c == ' '
}

/// The table named by `show <table>.schema;`.
pub open spec fn schema_statement(s: Seq<char>) -> Option<Seq<char>> {
    if s.len() > 13 && s.subrange(0, 5) == "show "@ && s.subrange(s.len() - 8, s.len() as int)
        == ".schema;"@ && is_name(s.subrange(5, s.len() - 8)) {
        Some(s.subrange(5, s.len() - 8))
    } else {
        None
    }
}

/// The first position at or after `i` where `pat` occurs in `s`.
pub open spec fn first_at(s: Seq<char>, pat: Seq<char>, i: int) -> Option<int>
    decreases s.len() - i,
{
    if i < 0 || i >= s.len() || i + pat.len() > s.len() {
        None
    } else if s.subrange(i, i + pat.len()) == pat {
        Some(i)
    } else {
        first_at(s, pat, i + 1)
    }
}

/// The position just past the run of name characters that starts at `i`.
pub open spec fn name_end(s: Seq<char>, i: int) -> int
    decreases s.len() - i,
{
    if 0 <= i < s.len() && is_name_char(s[i]) {
        name_end(s, i + 1)
    } else {
        i
    }
}

/// The column text, table name and optional filter text of
/// `select <columns> from <table> [where <filter>];`, the column text running to
/// the first ` from `.
pub open spec fn select_statement(s: Seq<char>) -> Option<
    (Seq<char>, Seq<char>, Option<Seq<char>>),
> {
    if s.len() >= 8 && s.subrange(0, 7) == "select "@ && s.last() == ';' {
        match first_at(s, " from "@, 7) {
            None => None,
            Some(k) => {
                let cols = s.subrange(7, k);
                let t0 = k + 6;
                let t1 = name_end(s, t0);
                if cols.len() > 0 && (forall|i: int| 0 <= i < cols.len() ==> is_col_char(
                    #[trigger] cols[i],
                )) && t0 < t1 {
                    if t1 == s.len() - 1 {
                        Some((cols, s.subrange(t0, t1), None))
                    } else if t1 + 7 <= s.len() - 1 && s.subrange(t1, t1 + 7) == " where "@ {
                        Some((cols, s.subrange(t0, t1), Some(s.subrange(t1 + 7, s.len() - 1))))
                    } else {
                        None
                    }
                } else {
                    None
                }
            },
        }
    } else {
        None
    }
}

/// The pieces of `s` between commas.
pub open spec fn split_commas(s: Seq<char>) -> Seq<Seq<char>>
    decreases s.len(),
{
    if s.len() == 0 {
        seq![Seq::empty()]
    } else {
        let r = split_commas(s.drop_last());
        if s.last() == ',' {
            r.push(Seq::empty())
        } else {
            r.update(r.len() - 1, r.last().push(s.last()))
        }
    }
}

/// `s` without the spaces at its two ends.
pub open spec fn trim_spaces(s: Seq<char>) -> Seq<char>
    decreases s.len(),
{
    if s.len() > 0 && s[0] == ' ' {
        trim_spaces(s.drop_first())
    } else if s.len() > 0 && s.last() == ' ' {
        trim_spaces(s.drop_last())
    } else {
        s
    }
}

/// The requested columns written in `text`: split on commas, each trimmed.
pub open spec fn columns_of(text: Seq<char>) -> Seq<Seq<char>> {
    split_commas(text).map_values(|c: Seq<char>| trim_spaces(c))
}

pub open spec fn kind_of(name: Seq<char>) -> Option<TableKind> {
    if name == "procs"@ {
        Some(TableKind::Procs)
    } else if name == "fs"@ {
        Some(TableKind::Fs)
    } else if name == "proc_maps"@ {
        Some(TableKind::ProcMaps)
    } else if name == "net"@ {
        Some(TableKind::Net)
    } else if name == "os_version"@ {
        Some(TableKind::OsVersion)
    } else {
        None
    }
}

/// The field that a table kind needs a predicate on: where to look, or which process.
pub open spec fn required_field(kind: TableKind) -> Option<Seq<char>> {
    match kind {
        TableKind::Fs => Some("path"@),
        TableKind::ProcMaps => Some("pid"@),
        _ => None,
    }
}

/// A data query as written: table name, requested columns, filter text.
pub struct UserInput {
    pub table_name: String,
    pub params: Vec<String>,
    pub filter_string: String,
}

fn all_chars_in_range(cs: &Vec<char>, a: usize, b: usize, cols: bool) -> (r: bool)
    requires
        a <= b <= cs.len(),
    ensures
        !cols ==> r == (forall|i: int| a <= i < b ==> is_name_char(#[trigger] cs@[i])),
        cols ==> r == (forall|i: int| a <= i < b ==> is_col_char(#[trigger] cs@[i])),
{
    let mut i = a;
    while i < b
        invariant
            a <= i <= b <= cs.len(),
            !cols ==> forall|k: int| a <= k < i ==> is_name_char(#[trigger] cs@[k]),
            cols ==> forall|k: int| a <= k < i ==> is_col_char(#[trigger] cs@[k]),
        decreases b - i,
    {
        let c = cs[i];
        let name_char = ('a' <= c && c <= 'z') || ('A' <= c && c <= 'Z') || c == '_';
        let ok = if cols {
            name_char || c == '*' || c == ',' || c == ' '
        } else {
            name_char
        };
        if !ok {
            return false;
        }
        i = i + 1;
    }
    true
}

/// The table named by a `show <table>.schema;` statement.
pub fn parse_schema_query(input: &str) -> (r: Option<String>)
    ensures
        r matches Some(t) ==> schema_statement(input@) == Some(t@),
        r is None ==> schema_statement(input@) is None,
{
    let cs = chars_of(input);
    let n = cs.len();
    if n <= 13 {
        return None;
    }
    if !str_eq(substring(&cs, 0, 5).as_str(), "show ") {
        return None;
    }
    if !str_eq(substring(&cs, n - 8, n).as_str(), ".schema;") {
        return None;
    }
    if !all_chars_in_range(&cs, 5, n - 8, false) {
        proof {
            let name = cs@.subrange(5, n - 8);
            assert(!is_name(name)) by {
                if is_name(name) {
                    assert forall|i: int| 5 <= i < n - 8 implies is_name_char(#[trigger] cs@[i]) by {
                        assert(cs@[i] == name[i - 5]);
                    }
                }
            }
        }
        return None;
    }
    let name = substring(&cs, 5, n - 8);
    assert(is_name(name@)) by {
        assert forall|i: int| 0 <= i < name@.len() implies is_name_char(#[trigger] name@[i]) by {
            assert(name@[i] == cs@[i + 5]);
        }
    }
    Some(name)
}

fn find_from(cs: &Vec<char>, start: usize) -> (r: Option<usize>)
    requires
        start <= cs.len(),
    ensures
        r matches Some(k) ==> first_at(cs@, " from "@, start as int) == Some(k as int) && start
            <= k && k + 6 <= cs.len(),
        r is None ==> first_at(cs@, " from "@, start as int) is None,
{
    proof {
        reveal_strlit(" from ");
    }
    let n = cs.len();
    let mut k = start;
    while k < n && n - k >= 6
        invariant
            start <= k <= n,
            n == cs.len(),
            " from "@.len() == 6,
            first_at(cs@, " from "@, k as int) == first_at(cs@, " from "@, start as int),
        decreases n - k,
    {
        if str_eq(substring(cs, k, k + 6).as_str(), " from ") {
            return Some(k);
        }
        k = k + 1;
    }
    None
}

fn name_end_exec(cs: &Vec<char>, i: usize) -> (r: usize)
    requires
        i <= cs.len(),
    ensures
        r == name_end(cs@, i as int),
        i <= r <= cs.len(),
{
    let mut k = i;
    while k < cs.len() && (('a' <= cs[k] && cs[k] <= 'z') || ('A' <= cs[k] && cs[k] <= 'Z')
        || cs[k] == '_')
        invariant
            i <= k <= cs.len(),
            name_end(cs@, k as int) == name_end(cs@, i as int),
        decreases cs.len() - k,
    {
        k = k + 1;
    }
    k
}

fn trim_exec(cs: &Vec<char>) -> (r: String)
    ensures
        r@ == trim_spaces(cs@),
{
    let mut a: usize = 0;
    let mut b: usize = cs.len();
    assert(cs@.subrange(0, cs@.len() as int) == cs@);
    while a < b && cs[a] == ' '
        invariant
            a <= b == cs.len(),
            trim_spaces(cs@.subrange(a as int, b as int)) == trim_spaces(cs@),
        decreases b - a,
    {
        assert(cs@.subrange(a as int, b as int).drop_first() == cs@.subrange(a + 1, b as int));
        a = a + 1;
    }
    while a < b && cs[b - 1] == ' '
        invariant
            a <= b <= cs.len(),
            a < b ==> cs@[a as int] != ' ',
            trim_spaces(cs@.subrange(a as int, b as int)) == trim_spaces(cs@),
        decreases b - a,
    {
        assert(cs@.subrange(a as int, b as int).drop_last() == cs@.subrange(a as int, b - 1));
        b = b - 1;
    }
    substring(cs, a, b)
}

/// The requested columns written in `text`: split on commas, each trimmed.
pub fn split_columns(text: &Vec<char>) -> (r: Vec<String>)
    ensures
        views(r@) == columns_of(text@),
{
    let mut pieces: Vec<Vec<char>> = Vec::new();
    let mut cur: Vec<char> = Vec::new();
    let mut i: usize = 0;
    while i < text.len()
        invariant
            i <= text.len(),
            split_commas(text@.take(i as int)) == pieces@.map_values(|p: Vec<char>| p@).push(cur@),
        decreases text.len() - i,
    {
        let ghost before = pieces@.map_values(|p: Vec<char>| p@).push(cur@);
        assert(text@.take(i + 1).drop_last() == text@.take(i as int));
        assert(text@.take(i + 1).last() == text@[i as int]);
        if text[i] == ',' {
            let done = cur;
            pieces.push(done);
            cur = Vec::new();
            assert(pieces@.map_values(|p: Vec<char>| p@).push(cur@) == before.push(
                Seq::<char>::empty(),
            ));
        } else {
            cur.push(text[i]);
            assert(pieces@.map_values(|p: Vec<char>| p@).push(cur@) == before.update(
                before.len() - 1,
                before.last().push(text@[i as int]),
            ));
        }
        i = i + 1;
    }
    pieces.push(cur);
    assert(text@.take(text.len() as int) == text@);
    let ghost split = pieces@.map_values(|p: Vec<char>| p@);
    let mut r: Vec<String> = Vec::new();
    let mut j: usize = 0;
    while j < pieces.len()
        invariant
            j <= pieces.len(),
            split == pieces@.map_values(|p: Vec<char>| p@),
            split == split_commas(text@),
            views(r@) == split.take(j as int).map_values(|c: Seq<char>| trim_spaces(c)),
        decreases pieces.len() - j,
    {
        let ghost before = r@;
        r.push(trim_exec(&pieces[j]));
        assert(split.take(j + 1) == split.take(j as int).push(split[j as int]));
        assert(views(r@) == views(before).push(trim_spaces(split[j as int])));
        assert(split.take(j + 1).map_values(|c: Seq<char>| trim_spaces(c)) == split.take(
            j as int,
        ).map_values(|c: Seq<char>| trim_spaces(c)).push(trim_spaces(split[j as int])));
        j = j + 1;
    }
    assert(split.take(pieces.len() as int) == split);
    r
}

/// A `select <columns> from <table> [where <filter>];` statement, taken apart.
pub fn parse_option(input: &str) -> (r: Option<UserInput>)
    ensures
        r matches Some(ui) ==> (select_statement(input@) matches Some((ct, table, f))
            && ui.table_name@ == table && views(ui.params@) == columns_of(ct) && ui.filter_string@
            == (match f {
            Some(t) => t,
            None => Seq::<char>::empty(),
        })),
        r is None ==> select_statement(input@) is None,
{
    proof {
        reveal_strlit(" from ");
        reveal_strlit(" where ");
    }
    let cs = chars_of(input);
    let n = cs.len();
    if n < 8 || !str_eq(substring(&cs, 0, 7).as_str(), "select ") || cs[n - 1] != ';' {
        return None;
    }
    let k = match find_from(&cs, 7) {
        Some(k) => k,
        None => return None,
    };
    let t0 = k + 6;
    let t1 = name_end_exec(&cs, t0);
    if k <= 7 || !all_chars_in_range(&cs, 7, k, true) || t0 >= t1 {
        proof {
            let cols = cs@.subrange(7, k as int);
            if k > 7 && t0 < t1 && (forall|i: int| 0 <= i < cols.len() ==> is_col_char(
                #[trigger] cols[i],
            )) {
                assert forall|i: int| 7 <= i < k implies is_col_char(#[trigger] cs@[i]) by {
                    assert(cs@[i] == cols[i - 7]);
                }
            }
        }
        return None;
    }
    let ghost cols = cs@.subrange(7, k as int);
    assert forall|i: int| 0 <= i < cols.len() implies is_col_char(#[trigger] cols[i]) by {
        assert(cols[i] == cs@[i + 7]);
    }
    let filter_string = if t1 == n - 1 {
        String::new()
    } else if t1 < n - 1 && n - 1 - t1 >= 7 && str_eq(substring(&cs, t1, t1 + 7).as_str(), " where ") {
        substring(&cs, t1 + 7, n - 1)
    } else {
        return None;
    };
    let col_text = {
        let mut v: Vec<char> = Vec::new();
        let mut i: usize = 7;
        while i < k
            invariant
                7 <= i <= k <= n == cs.len(),
                v@ == cs@.subrange(7, i as int),
            decreases k - i,
        {
            v.push(cs[i]);
            i = i + 1;
            assert(v@ == cs@.subrange(7, i as int));
        }
        v
    };
    Some(
        UserInput {
            table_name: substring(&cs, t0, t1),
            params: split_columns(&col_text),
            filter_string,
        },
    )
}

/// The table kind of a table name.
pub fn table_kind(name: &str) -> (r: Option<TableKind>)
    ensures
        r == kind_of(name@),
{
    if str_eq(name, "procs") {
        Some(TableKind::Procs)
    } else if str_eq(name, "fs") {
        Some(TableKind::Fs)
    } else if str_eq(name, "proc_maps") {
        Some(TableKind::ProcMaps)
    } else if str_eq(name, "net") {
        Some(TableKind::Net)
    } else if str_eq(name, "os_version") {
        Some(TableKind::OsVersion)
    } else {
        None
    }
}

/// The listing of a table's columns: a header naming every column, and no rows.
pub fn get_schema(table: &str) -> (r: Result<String, QueryError>)
    ensures
        r matches Ok(t) ==> (kind_of(table@) matches Some(k) && t@ == header(schema_keys(k))),
        r matches Err(e) ==> kind_of(table@) is None && (e matches QueryError::UnknownTable(n)
            && n@ == table@),
{
    match table_kind(table) {
        Some(k) => {
            let no_cols: Vec<String> = Vec::new();
            let r = render_header(&no_cols, &schema_of(k));
            Ok(r)
        },
        None => Err(QueryError::UnknownTable(String::from_str(table))),
    }
}

/// What a statement comes to before any data is read: a finished listing, the
/// data to collect and how to filter and project it, or an error.
pub enum Outcome {
    Listing(Seq<char>),
    Collect(TableKind, Seq<Seq<char>>, Seq<(Seq<char>, FilterOp, Seq<char>, bool)>, Option<Seq<char>>),
    Syntax,
    UnknownTable(Seq<char>),
    MissingParameter(Seq<char>),
}

/// The outcome of a statement. A schema statement lists the table's columns; a
/// data query names its table kind, requested columns, predicates, and, for a
/// table that needs one, the value of its mandatory predicate, which is taken
/// out of the predicates.
pub open spec fn plan_spec(s: Seq<char>) -> Outcome {
    match schema_statement(s) {
        Some(name) => match kind_of(name) {
            Some(k) => Outcome::Listing(header(schema_keys(k))),
            None => Outcome::UnknownTable(name),
        },
        None => match select_statement(s) {
            None => Outcome::Syntax,
            Some((ct, table, f)) => match kind_of(table) {
                None => Outcome::UnknownTable(table),
                Some(k) => {
                    let ps = parse_filter_spec(
                        match f {
                            Some(t) => t,
                            None => Seq::empty(),
                        },
                    );
                    match required_field(k) {
                        None => Outcome::Collect(k, columns_of(ct), ps, None),
                        Some(field) => match first_target(ps, field) {
                            None => Outcome::MissingParameter(field),
                            Some(v) => Outcome::Collect(
                                k,
                                columns_of(ct),
                                without(ps, field),
                                Some(v),
                            ),
                        },
                    }
                },
            },
        },
    }
}

/// The data to collect for a query, and how to filter and project it.
pub struct Request {
    pub kind: TableKind,
    pub cols: Vec<String>,
    pub filters: FilterItems,
    /// The value of the table's mandatory predicate (a path, a process id).
    pub param: Option<String>,
}

/// What a statement asks for next.
pub enum Step {
    /// The answer, with no data to read.
    Listing(String),
    /// The data to collect before the answer can be given.
    Collect(Request),
}

pub open spec fn step_view(r: Result<Step, QueryError>) -> Option<Outcome> {
    match r {
        Ok(Step::Listing(t)) => Some(Outcome::Listing(t@)),
        Ok(Step::Collect(req)) => Some(
            Outcome::Collect(
                req.kind,
                views(req.cols@),
                req.filters@,
                match req.param {
                    Some(p) => Some(p@),
                    None => None,
                },
            ),
        ),
        Err(QueryError::Syntax) => Some(Outcome::Syntax),
        Err(QueryError::UnknownTable(n)) => Some(Outcome::UnknownTable(n@)),
        Err(QueryError::MissingParameter(f)) => Some(Outcome::MissingParameter(f@)),
        Err(QueryError::Io(_)) => None,
    }
}

fn required_field_exec(kind: TableKind) -> (r: Option<String>)
    ensures
        r matches Some(f) ==> required_field(kind) == Some(f@),
        r is None ==> required_field(kind) is None,
{
    match kind {
        TableKind::Fs => Some(String::from_str("path")),
        TableKind::ProcMaps => Some(String::from_str("pid")),
        _ => None,
    }
}

/// Reads a statement and says what it asks for: a schema listing, or the data
/// to collect for a query; or why it cannot be answered.
pub fn handle_statement(statement: &str) -> (r: Result<Step, QueryError>)
    ensures
        step_view(r) == Some(plan_spec(statement@)),
{
    match parse_schema_query(statement) {
        Some(name) => {
            return match get_schema(name.as_str()) {
                Ok(t) => Ok(Step::Listing(t)),
                Err(e) => Err(e),
            };
        },
        None => {},
    }
    let ui = match parse_option(statement) {
        Some(ui) => ui,
        None => return Err(QueryError::Syntax),
    };
    let kind = match table_kind(ui.table_name.as_str()) {
        Some(k) => k,
        None => return Err(QueryError::UnknownTable(ui.table_name)),
    };
    let mut filters = vector_selector(ui.filter_string.as_str());
    let param = match required_field_exec(kind) {
        None => None,
        Some(field) => {
            let name = field.clone();
            match filters.get_field(field) {
                Some(v) => Some(v),
                None => return Err(QueryError::MissingParameter(name)),
            }
        },
    };
    Ok(Step::Collect(Request { kind, cols: ui.params, filters, param }))
}

/// The rows a collector gathered for a query.
pub enum Collected {
    Procs(Vec<ProcItem>),
    Files(Vec<FileItem>),
    Maps(Vec<ProcMapItem>),
    Net(Vec<NetItem>),
    Os(OSVersion),
}

/// The process table for a query: the candidates that pass the filters, projected.
pub fn query_procs(cols: &Vec<String>, filters: &FilterItems, candidates: Vec<ProcItem>) -> (r:
    String)
    ensures
        r@ == rendered(kept(candidates@, filters@), views(cols@), schema_keys(TableKind::Procs)),
{
    let table = ProcTable { table: select_rows(candidates, filters), schema: schema_of(TableKind::Procs) };
    export(table, cols)
}

/// The directory listing for a query: the entries that pass the filters, projected.
pub fn query_dir(cols: &Vec<String>, filters: &FilterItems, candidates: Vec<FileItem>) -> (r:
    String)
    ensures
        r@ == rendered(kept(candidates@, filters@), views(cols@), schema_keys(TableKind::Fs)),
{
    let table = FileTable { table: select_rows(candidates, filters), schema: schema_of(TableKind::Fs) };
    export(table, cols)
}

/// The memory map listing for a query: the mappings that pass the filters, projected.
pub fn query_proc_maps(cols: &Vec<String>, filters: &FilterItems, candidates: Vec<ProcMapItem>) -> (r:
    String)
    ensures
        r@ == rendered(kept(candidates@, filters@), views(cols@), schema_keys(TableKind::ProcMaps)),
{
    let table = ProcMapTable {
        table: select_rows(candidates, filters),
        schema: schema_of(TableKind::ProcMaps),
    };
    export(table, cols)
}

/// The socket listing for a query: the sockets that pass the filters, projected.
pub fn query_net(cols: &Vec<String>, filters: &FilterItems, candidates: Vec<NetItem>) -> (r:
    String)
    ensures
        r@ == rendered(kept(candidates@, filters@), views(cols@), schema_keys(TableKind::Net)),
{
    let table = NetTable { table: select_rows(candidates, filters), schema: schema_of(TableKind::Net) };
    export(table, cols)
}

/// The answer to a query once its data has been collected; a collector's failure
/// is reported as an I/O error.
pub fn finish(req: Request, collected: Result<Collected, String>) -> (r: Result<String, QueryError>)
    ensures
        collected matches Err(m) ==> (r matches Err(QueryError::Io(e)) && e@ == m@),
        collected matches Ok(Collected::Procs(rows)) ==> (r matches Ok(t) && t@ == rendered(
            kept(rows@, req.filters@),
            views(req.cols@),
            schema_keys(TableKind::Procs),
        )),
        collected matches Ok(Collected::Files(rows)) ==> (r matches Ok(t) && t@ == rendered(
            kept(rows@, req.filters@),
            views(req.cols@),
            schema_keys(TableKind::Fs),
        )),
        collected matches Ok(Collected::Maps(rows)) ==> (r matches Ok(t) && t@ == rendered(
            kept(rows@, req.filters@),
            views(req.cols@),
            schema_keys(TableKind::ProcMaps),
        )),
        collected matches Ok(Collected::Net(rows)) ==> (r matches Ok(t) && t@ == rendered(
            kept(rows@, req.filters@),
            views(req.cols@),
            schema_keys(TableKind::Net),
        )),
        collected matches Ok(Collected::Os(os)) ==> (r matches Ok(t) && t@ == pairs_text(
            os_selected(views(req.cols@), &os),
        )),
{
    match collected {
        Err(m) => Err(QueryError::Io(m)),
        Ok(Collected::Procs(rows)) => Ok(query_procs(&req.cols, &req.filters, rows)),
        Ok(Collected::Files(rows)) => Ok(query_dir(&req.cols, &req.filters, rows)),
        Ok(Collected::Maps(rows)) => Ok(query_proc_maps(&req.cols, &req.filters, rows)),
        Ok(Collected::Net(rows)) => Ok(query_net(&req.cols, &req.filters, rows)),
        Ok(Collected::Os(os)) => Ok(do_get_os_version_info(&req.cols, &os).render()),
    }
}

/// `select * from fs where path = "p";`
pub open spec fn fs_path_statement(p: Seq<char>) -> Seq<char> {
    seq!['s', 'e', 'l', 'e', 'c', 't', ' ', '*', ' ', 'f', 'r', 'o', 'm', ' ', 'f', 's', ' ', 'w', 'h', 'e', 'r', 'e', ' ']
        + quoted_eq_text(seq!['p', 'a', 't', 'h'], p) + seq![';']
}

proof fn lemma_fs_path_statement_parts(p: Seq<char>)
    ensures
        schema_statement(fs_path_statement(p)) is None,
        select_statement(fs_path_statement(p)) == Some(
            (seq!['*'], "fs"@, Some(quoted_eq_text(seq!['p', 'a', 't', 'h'], p))),
        ),
{
    reveal_strlit("show ");
    reveal_strlit("select ");
    reveal_strlit(" from ");
    reveal_strlit(" where ");
    reveal_strlit("fs");
    let s = fs_path_statement(p);
    let f = quoted_eq_text(seq!['p', 'a', 't', 'h'], p);
    assert(s.len() == 24 + f.len());
    assert(f.len() == p.len() + 9);
    assert(s.subrange(0, 5) != "show "@) by {
        assert(s.subrange(0, 5)[1] == 'e');
    }
    assert(s.subrange(0, 7) == "select "@);
    assert(s.last() == ';');
    assert(s.subrange(7, 13) != " from "@) by {
        assert(s.subrange(7, 13)[0] == '*');
    }
    assert(s.subrange(8, 14) == " from "@);
    assert(first_at(s, " from "@, 8) == Some(8int));
    assert(first_at(s, " from "@, 7) == Some(8int));
    assert(s.subrange(7, 8) == seq!['*']);
    assert(name_end(s, 16) == 16);
    assert(name_end(s, 15) == 16);
    assert(name_end(s, 14) == 16);
    assert(s.subrange(14, 16) == "fs"@);
    assert(s.subrange(16, 23) == " where "@);
    assert(s.subrange(23, s.len() - 1) == f);
}

/// A query of every column of the file system table at a quoted path asks for
/// exactly that path to be read, with no other filter; a failure to read it is
/// then reported by `finish` as an I/O error.
pub proof fn lemma_fs_path_query(p: Seq<char>)
    requires
        forall|i: int| 0 <= i < p.len() ==> #[trigger] p[i] != '"',
    ensures
        plan_spec(fs_path_statement(p)) == Outcome::Collect(
            TableKind::Fs,
            seq![seq!['*']],
            Seq::empty(),
            Some(p),
        ),
{
    reveal_strlit("procs");
    reveal_strlit("fs");
    reveal_strlit("path");
    let path = seq!['p', 'a', 't', 'h'];
    lemma_fs_path_statement_parts(p);
    assert("fs"@ != "procs"@) by {
        assert("fs"@.len() != "procs"@.len());
    }
    assert(kind_of("fs"@) == Some(TableKind::Fs));
    assert(is_identifier(path));
    lemma_quoted_eq_parses(path, p);
    let ps = seq![(path, FilterOp::Eq, p, true)];
    assert(path == "path"@);
    assert(ps.drop_first().len() == 0);
    assert(first_target(ps, "path"@) == Some(p));
    assert(without(ps.drop_last(), "path"@) == Seq::<(Seq<char>, FilterOp, Seq<char>, bool)>::empty());
    assert(ps.last().0 == "path"@);
    assert(without(ps, "path"@) == Seq::<(Seq<char>, FilterOp, Seq<char>, bool)>::empty());
    let one = seq!['*'];
    assert(one.drop_last() == Seq::<char>::empty());
    let nothing = Seq::<char>::empty();
    assert(split_commas(one.drop_last()) == seq![nothing]);
    assert(one.last() == '*');
    assert(seq![nothing].update(0, nothing.push('*')) == seq![one]);
    assert(split_commas(one) == seq![one]);
    assert(trim_spaces(one) == one);
    assert(columns_of(one) == seq![one]);
}

proof fn lemma_proc_uid_text(row: ProcItem)
    ensures
        row.str_attr("uid"@) == dec(row.owner as nat),
{
    reveal_strlit("uid");
    reveal_strlit("pid");
    reveal_strlit("ppid");
    reveal_strlit("cmdline");
    assert("uid"@ != "pid"@) by {
        assert("uid"@[0] != "pid"@[0]);
    }
    assert("uid"@ != "ppid"@) by {
        assert("uid"@.len() != "ppid"@.len());
    }
    assert("uid"@ != "cmdline"@) by {
        assert("uid"@.len() != "cmdline"@.len());
    }
}

proof fn lemma_dec_thousand()
    ensures
        dec(1000) == "1000"@,
        dec(0) != "1000"@,
{
    reveal_strlit("1000");
    assert(dec(1) == seq!['1']);
    assert(dec(10) == seq!['1', '0']);
    assert(dec(100) == seq!['1', '0', '0']);
    assert(dec(1000) == seq!['1', '0', '0', '0']);
    assert(dec(0).len() == 1);
}

/// Of three processes owned by users 0, 1000 and 1000, the clause
/// `uid = "1000"` keeps exactly the second and the third, in that order.
pub proof fn lemma_uid_clause_keeps(a: ProcItem, b: ProcItem, c: ProcItem)
    requires
        a.owner == 0,
        b.owner == 1000,
        c.owner == 1000,
    ensures
        kept(seq![a, b, c], parse_filter_spec(quoted_eq_text("uid"@, "1000"@))) == seq![b, c],
{
    reveal_strlit("uid");
    let uid = "uid"@;
    let v = "1000"@;
    assert(uid == seq!['u', 'i', 'd']);
    assert(is_identifier(uid)) by {
        assert(uid[0] == 'u');
    }
    assert forall|i: int| 0 <= i < v.len() implies #[trigger] v[i] != '"' by {
        reveal_strlit("1000");
    }
    lemma_quoted_eq_parses(uid, v);
    lemma_dec_thousand();
    lemma_proc_uid_text(a);
    lemma_proc_uid_text(b);
    lemma_proc_uid_text(c);
    let ps = seq![(uid, FilterOp::Eq, v, true)];
    assert(!satisfies_all(&a, ps)) by {
        assert(ps[0] == (uid, FilterOp::Eq, v, true));
        assert(!holds(&a, ps[0]));
    }
    lemma_eq_own_text_matches(&b, uid, v);
    lemma_eq_own_text_matches(&c, uid, v);
    lemma_kept_three(a, b, c, ps);
}

proof fn lemma_kept_three<T: HasLookup>(
    a: T,
    b: T,
    c: T,
    ps: Seq<(Seq<char>, FilterOp, Seq<char>, bool)>,
)
    requires
        !satisfies_all(&a, ps),
        satisfies_all(&b, ps),
        satisfies_all(&c, ps),
    ensures
        kept(seq![a, b, c], ps) == seq![b, c],
{
    let rows = seq![a, b, c];
    assert(rows.drop_last() == seq![a, b]);
    assert(seq![a, b].drop_last() == seq![a]);
    assert(seq![a].drop_last() == Seq::<T>::empty());
    assert(kept(Seq::<T>::empty(), ps) == Seq::<T>::empty());
    assert(seq![a].last() == a);
    assert(seq![a, b].last() == b);
    assert(rows.last() == c);
    assert(kept(seq![a], ps) == Seq::<T>::empty());
    assert(kept(seq![a, b], ps) == seq![b]);
    assert(seq![b].push(c) == seq![b, c]);
}

} // verus!
