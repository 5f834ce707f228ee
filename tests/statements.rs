use rusty_osquery::query::{
    finish, get_schema, handle_statement, parse_option, parse_schema_query, table_kind,
    Collected, QueryError, Request, Step,
};
use rusty_osquery::rows::{OSVersion, ProcItem};
use rusty_osquery::table::TableKind;

fn synthetic_procs() -> Vec<ProcItem> {
    vec![
        ProcItem { pid: 1, ppid: 0, cmdline: "init".to_string(), owner: 0 },
        ProcItem { pid: 42, ppid: 0, cmdline: "bash".to_string(), owner: 1000 },
        ProcItem { pid: 43, ppid: 0, cmdline: "vim file.txt".to_string(), owner: 1000 },
    ]
}

fn request(statement: &str) -> Request {
    match handle_statement(statement) {
        Ok(Step::Collect(req)) => req,
        Ok(Step::Listing(_)) => panic!("expected a data query"),
        Err(e) => panic!("unexpected error: {}", e.message()),
    }
}

#[test]
fn show_procs_schema_lists_columns() {
    match handle_statement("show procs.schema;") {
        Ok(Step::Listing(t)) => assert_eq!(
            t,
            "|:-|:-|:-|:-|\n|**cmdline**|**pid**|**ppid**|**uid**|\n|:-|:-|:-|:-|\n"
        ),
        _ => panic!("expected a listing"),
    }
}

#[test]
fn show_unknown_schema_is_unknown_table() {
    match handle_statement("show nope.schema;") {
        Err(QueryError::UnknownTable(n)) => assert_eq!(n, "nope"),
        _ => panic!("expected an unknown table"),
    }
    assert!(get_schema("nope").is_err());
    assert_eq!(
        get_schema("os_version").ok().unwrap(),
        "|:-|:-|:-|\n|**build_id**|**gcc_version**|**kernel_version**|\n|:-|:-|:-|\n"
    );
}

#[test]
fn select_uid_keeps_matching_rows_in_order() {
    let req = request("select pid,cmdline from procs where uid = \"1000\";");
    assert_eq!(req.kind, TableKind::Procs);
    assert_eq!(req.cols, vec!["pid".to_string(), "cmdline".to_string()]);
    let out = finish(req, Ok(Collected::Procs(synthetic_procs()))).ok().unwrap();
    assert_eq!(out, "|:-|:-|\n|**pid**|**cmdline**|\n|:-|:-|\n|42|bash|\n|43|vim file.txt|\n");
}

#[test]
fn missing_path_is_io_error() {
    let req = request("select * from fs where path = \"/nonexistent\";");
    assert_eq!(req.kind, TableKind::Fs);
    assert_eq!(req.param, Some("/nonexistent".to_string()));
    assert_eq!(req.filters.filters.len(), 0);
    match finish(req, Err("Path does not exist!".to_string())) {
        Err(QueryError::Io(m)) => assert_eq!(m, "Path does not exist!"),
        _ => panic!("expected an I/O error"),
    }
}

#[test]
fn malformed_where_keeps_all_rows() {
    let req = request("select * from procs where ???;");
    assert_eq!(req.filters.filters.len(), 0);
    let out = finish(req, Ok(Collected::Procs(synthetic_procs()))).ok().unwrap();
    assert_eq!(
        out,
        "|:-|:-|:-|:-|\n|**cmdline**|**pid**|**ppid**|**uid**|\n|:-|:-|:-|:-|\n\
         |init|1|0|0|\n|bash|42|0|1000|\n|vim file.txt|43|0|1000|\n"
    );
}

#[test]
fn statement_errors() {
    assert!(matches!(handle_statement("selec * from procs;"), Err(QueryError::Syntax)));
    assert!(matches!(handle_statement("select * from procs"), Err(QueryError::Syntax)));
    assert!(matches!(handle_statement("select * from procs wher x;"), Err(QueryError::Syntax)));
    match handle_statement("select * from nope;") {
        Err(QueryError::UnknownTable(n)) => assert_eq!(n, "nope"),
        _ => panic!("expected an unknown table"),
    }
    match handle_statement("select * from fs;") {
        Err(QueryError::MissingParameter(f)) => assert_eq!(f, "path"),
        _ => panic!("expected a missing parameter"),
    }
    match handle_statement("select * from proc_maps where uid = 0;") {
        Err(QueryError::MissingParameter(f)) => assert_eq!(f, "pid"),
        _ => panic!("expected a missing parameter"),
    }
}

#[test]
fn mandatory_predicate_is_not_a_filter() {
    let req = request("select start_addr from proc_maps where pid = 12, file_desc >= 3;");
    assert_eq!(req.kind, TableKind::ProcMaps);
    assert_eq!(req.param, Some("12".to_string()));
    assert_eq!(req.filters.filters.len(), 1);
    assert_eq!(req.filters.filters[0].subject, "file_desc");
}

#[test]
fn statement_parts() {
    assert_eq!(parse_schema_query("show net.schema;"), Some("net".to_string()));
    assert_eq!(parse_schema_query("show net.schema"), None);
    assert_eq!(parse_schema_query("show n3t.schema;"), None);
    let ui = parse_option("select  pid , uid,cmdline from procs;").unwrap();
    assert_eq!(ui.table_name, "procs");
    assert_eq!(ui.params, vec!["pid".to_string(), "uid".to_string(), "cmdline".to_string()]);
    assert_eq!(ui.filter_string, "");
    let ui = parse_option("select * from net where protocol = \"tcp\";").unwrap();
    assert_eq!(ui.filter_string, "protocol = \"tcp\"");
    assert!(parse_option("select from procs;").is_none());
    assert!(parse_option("select 1 from procs;").is_none());
    assert_eq!(table_kind("os_version"), Some(TableKind::OsVersion));
    assert_eq!(table_kind("proc"), None);
}

#[test]
fn os_version_query() {
    let os = OSVersion {
        kernel_version: "5.15.0".to_string(),
        build_id: "buildd@host".to_string(),
        gcc_version: "gcc 11.4.0".to_string(),
    };
    let req = request("select kernel_version, nope, kernel_version, build_id from os_version;");
    assert_eq!(req.kind, TableKind::OsVersion);
    assert_eq!(
        finish(req, Ok(Collected::Os(os))).ok().unwrap(),
        "|:-|:-|\n|**kernel_version**|5.15.0|\n|**build_id**|buildd@host|\n"
    );
}

#[test]
fn error_messages() {
    assert_eq!(QueryError::UnknownTable("x".to_string()).message(), "Table x does not exist.");
    assert_eq!(QueryError::MissingParameter("pid".to_string()).message(), "You must specify pid");
    assert_eq!(QueryError::Io("gone".to_string()).message(), "gone");
}
