use rusty_osquery::predicate::FilterItems;
use rusty_osquery::query::{query_dir, query_net, query_proc_maps, query_procs};
use rusty_osquery::rows::{FileItem, NetItem, ProcItem, ProcMapItem};
use rusty_osquery::table::{export, schema_of, wants_all_columns, FileTable, ProcTable, TableKind};

fn cols(names: &[&str]) -> Vec<String> {
    names.iter().map(|s| s.to_string()).collect()
}

fn no_filters() -> FilterItems {
    FilterItems { filters: Vec::new() }
}

fn procs() -> Vec<ProcItem> {
    vec![
        ProcItem { pid: 1, ppid: 0, cmdline: "init".to_string(), owner: 0 },
        ProcItem { pid: 42, ppid: 1, cmdline: "".to_string(), owner: 1000 },
    ]
}

#[test]
fn wildcard_and_empty_columns_show_everything() {
    let expected = "|:-|:-|:-|:-|\n|**cmdline**|**pid**|**ppid**|**uid**|\n|:-|:-|:-|:-|\n\
                    |init|1|0|0|\n||42|1|1000|\n";
    assert_eq!(query_procs(&cols(&["*"]), &no_filters(), procs()), expected);
    assert_eq!(query_procs(&cols(&[]), &no_filters(), procs()), expected);
    assert!(wants_all_columns(&cols(&["*"])));
    assert!(!wants_all_columns(&cols(&["*", "pid"])));
}

#[test]
fn unknown_column_is_omitted() {
    let with = query_procs(&cols(&["pid", "bogus", "uid"]), &no_filters(), procs());
    let without = query_procs(&cols(&["pid", "uid"]), &no_filters(), procs());
    assert_eq!(with, without);
    assert_eq!(with, "|:-|:-|\n|**pid**|**uid**|\n|:-|:-|\n|1|0|\n|42|1000|\n");
}

#[test]
fn empty_cells_are_dropped() {
    let out = query_procs(&cols(&["cmdline", "pid"]), &no_filters(), procs());
    assert_eq!(out, "|:-|:-|\n|**cmdline**|**pid**|\n|:-|:-|\n|init|1|\n|42|\n");
}

#[test]
fn no_rows_gives_header_only() {
    let out = query_procs(&cols(&["pid"]), &no_filters(), Vec::new());
    assert_eq!(out, "|:-|\n|**pid**|\n|:-|\n");
}

#[test]
fn tables_built_row_by_row() {
    let mut t = ProcTable::new();
    for p in procs() {
        t.add_row(p);
    }
    assert_eq!(t.table.len(), 2);
    assert_eq!(t.get_body(&cols(&["uid"])), "|0|\n|1000|\n");
    let mut f = FileTable::new();
    f.add_row(FileItem {
        name: "/tmp/a".to_string(),
        is_dir: true,
        file_owner: 5,
        file_creation_time: "01/01/1970 00:00:00".to_string(),
    });
    assert_eq!(
        export(f, &cols(&["*"])),
        "|:-|:-|:-|:-|\n|**created**|**dir**|**name**|**uid**|\n|:-|:-|:-|:-|\n\
         |01/01/1970 00:00:00|true|/tmp/a|5|\n"
    );
}

#[test]
fn schemas_are_sorted_column_lists() {
    let keys: Vec<String> = schema_of(TableKind::Net);
    assert_eq!(
        keys,
        cols(&[
            "inode",
            "local_address",
            "protocol",
            "ref_cnt",
            "remote_address",
            "state",
            "timeout",
            "uid"
        ])
    );
    let keys: Vec<String> = schema_of(TableKind::ProcMaps);
    assert_eq!(keys.len(), 7);
}

#[test]
fn file_rows_filter_and_project() {
    let files = vec![
        FileItem {
            name: "/tmp/a".to_string(),
            is_dir: true,
            file_owner: 0,
            file_creation_time: "t".to_string(),
        },
        FileItem {
            name: "/tmp/b".to_string(),
            is_dir: false,
            file_owner: 0,
            file_creation_time: "t".to_string(),
        },
    ];
    let f = rusty_osquery::predicate::vector_selector("dir = 1");
    let out = query_dir(&cols(&["name", "dir"]), &f, files);
    assert_eq!(out, "|:-|:-|\n|**name**|**dir**|\n|:-|:-|\n|/tmp/a|true|\n");
}

#[test]
fn net_and_map_rows_render() {
    let net = vec![NetItem {
        uid: 1000,
        local_address: "0100007F:0277".to_string(),
        remote_address: "00000000:0000".to_string(),
        st: "0A".to_string(),
        timeout: 0,
        inode: 12345,
        ref_cnt: 1,
        protocol: "tcp".to_string(),
    }];
    let out = query_net(&cols(&["inode", "state", "protocol"]), &no_filters(), net);
    assert_eq!(out, "|:-|:-|:-|\n|**inode**|**state**|**protocol**|\n|:-|:-|:-|\n|12345|0A|tcp|\n");
    let maps = vec![ProcMapItem {
        start_addr: "1000".to_string(),
        end_addr: "2000".to_string(),
        permissions: "r--p".to_string(),
        size_maybe: "0".to_string(),
        start_time: "08:01".to_string(),
        file_desc: 7,
        file_name: "/bin/x".to_string(),
    }];
    let out = query_proc_maps(&cols(&[]), &no_filters(), maps);
    assert!(out.ends_with("|2000|7|/bin/x|r--p|0|1000|08:01|\n"));
}
