use rusty_osquery::predicate::{vector_selector, FilterItem, FilterItems, FilterOp};
use rusty_osquery::rows::{FileItem, HasLookup, ProcItem};
use rusty_osquery::text::{chars_of, parse_u32, u32_to_string};
use rusty_osquery::predicate::{identifier, label_match, match_op, target_match};

fn proc_row(pid: u32, owner: u32, cmdline: &str) -> ProcItem {
    ProcItem { pid, ppid: 0, cmdline: cmdline.to_string(), owner }
}

fn one(subject: &str, op: FilterOp, target: &str) -> FilterItems {
    FilterItems { filters: vec![FilterItem::new(subject.to_string(), op, target.to_string())] }
}

#[test]
fn empty_set_matches_every_row() {
    let none = FilterItems { filters: Vec::new() };
    assert!(none.check(&proc_row(1, 0, "init")));
    assert!(none.check(&proc_row(0, 0, "")));
}

#[test]
fn quoted_eq_on_own_text_matches() {
    let row = proc_row(7, 1000, "bash");
    assert!(one("cmdline", FilterOp::Eq, "bash").check(&row));
    assert!(one("uid", FilterOp::Eq, "1000").check(&row));
    assert!(one("pid", FilterOp::Eq, "7").check(&row));
    assert!(!one("cmdline", FilterOp::Eq, "bas").check(&row));
}

#[test]
fn eq_numeric_target_compares_numbers() {
    let row = proc_row(7, 1000, "bash");
    assert!(one("uid", FilterOp::Eq, "+1000").check(&row));
    assert!(one("uid", FilterOp::Eq, "01000").check(&row));
    assert!(!one("uid", FilterOp::Eq, "999").check(&row));
}

#[test]
fn geq_is_greater_or_equal() {
    let low = proc_row(1, 100, "a");
    let mid = proc_row(2, 500, "b");
    let high = proc_row(3, 1000, "c");
    let f = one("uid", FilterOp::Geq, "500");
    assert!(!f.check(&low));
    assert!(f.check(&mid));
    assert!(f.check(&high));
}

#[test]
fn leq_is_less_or_equal() {
    let f = one("uid", FilterOp::Leq, "500");
    assert!(f.check(&proc_row(1, 100, "a")));
    assert!(f.check(&proc_row(1, 500, "a")));
    assert!(!f.check(&proc_row(1, 501, "a")));
}

#[test]
fn ordering_with_text_target_never_matches() {
    let row = proc_row(1, 100, "a");
    assert!(!one("uid", FilterOp::Leq, "abc").check(&row));
    assert!(!one("uid", FilterOp::Geq, "abc").check(&row));
    assert!(!one("uid", FilterOp::Geq, "4294967296").check(&row));
}

#[test]
fn like_is_substring_test() {
    let row = proc_row(43, 1000, "vim file.txt");
    assert!(one("cmdline", FilterOp::Like, "file").check(&row));
    assert!(one("cmdline", FilterOp::Like, "vim file.txt").check(&row));
    assert!(!one("cmdline", FilterOp::Like, "emacs").check(&row));
    assert!(one("cmdline", FilterOp::Like, "").check(&row));
    assert!(one("pid", FilterOp::Like, "4").check(&row));
}

#[test]
fn conjunction_needs_every_predicate() {
    let f = FilterItems {
        filters: vec![
            FilterItem::new("uid".to_string(), FilterOp::Eq, "1000".to_string()),
            FilterItem::new("cmdline".to_string(), FilterOp::Like, "vim".to_string()),
        ],
    };
    assert!(f.check(&proc_row(43, 1000, "vim file.txt")));
    assert!(!f.check(&proc_row(42, 1000, "bash")));
    assert!(!f.check(&proc_row(44, 0, "vim")));
}

#[test]
fn unknown_attribute_lookups() {
    let row = proc_row(1, 2, "x");
    assert_eq!(row.lookup(&"nope".to_string()), 0);
    assert_eq!(row.lookup_str(&"nope".to_string()), "unsupported");
    assert_eq!(row.lookup_str(&"uid".to_string()), "2");
}

#[test]
fn extract_field_once() {
    let mut f = vector_selector("path = \"/tmp\", name like \"x\"");
    assert_eq!(f.filters.len(), 2);
    assert_eq!(f.get_field("path".to_string()), Some("/tmp".to_string()));
    assert_eq!(f.filters.len(), 1);
    assert_eq!(f.filters[0].subject, "name");
    assert_eq!(f.get_field("path".to_string()), None);
    assert_eq!(f.filters.len(), 1);
}

#[test]
fn extract_field_removes_every_copy() {
    let mut f = vector_selector("pid = 1, uid = 0, pid = 2");
    let (v, rest) = f.extract_required(&"pid".to_string());
    assert_eq!(v, Some("1".to_string()));
    assert_eq!(rest.filters.len(), 1);
    assert_eq!(f.filters.len(), 3);
    assert_eq!(f.get_field("pid".to_string()), Some("1".to_string()));
    assert_eq!(f.get_field("pid".to_string()), None);
    assert_eq!(f.describe(), "uid EQ 0");
}

#[test]
fn parse_clause_forms() {
    let f = vector_selector("uid = \"1000\",pid>=5 ,  cmdline like \"a b\"");
    assert_eq!(f.filters.len(), 3);
    assert_eq!(f.filters[0].subject, "uid");
    assert_eq!(f.filters[0].op, FilterOp::Eq);
    assert_eq!(f.filters[0].target, "1000");
    assert_eq!(f.filters[1].subject, "pid");
    assert_eq!(f.filters[1].op, FilterOp::Geq);
    assert_eq!(f.filters[1].target, "5");
    assert_eq!(f.filters[2].op, FilterOp::Like);
    assert_eq!(f.filters[2].target, "a b");
    assert_eq!(f.describe(), "uid EQ 1000pid GEQ 5cmdline LIKE a b");
}

#[test]
fn parse_leq_and_empty_target() {
    let f = vector_selector("ppid <= 3, name =");
    assert_eq!(f.filters.len(), 2);
    assert_eq!(f.filters[0].op, FilterOp::Leq);
    assert_eq!(f.filters[1].target, "");
}

#[test]
fn malformed_clause_gives_empty_set() {
    assert_eq!(vector_selector("???").filters.len(), 0);
    assert_eq!(vector_selector("").filters.len(), 0);
    assert_eq!(vector_selector("uid = 5 junk").filters.len(), 0);
    assert_eq!(vector_selector("uid = \"open").filters.len(), 0);
    assert_eq!(vector_selector("uid = 5,").filters.len(), 0);
    assert_eq!(vector_selector("9uid = 5").filters.len(), 0);
}

#[test]
fn grammar_pieces() {
    let s = chars_of("_ab1 like \"q\"");
    assert_eq!(identifier(&s, 0), Some(4));
    assert_eq!(identifier(&s, 4), None);
    assert_eq!(match_op(&s, 5), Some((FilterOp::Like, 9)));
    assert_eq!(match_op(&s, 0), None);
    assert_eq!(target_match(&s, 10), Some(("q".to_string(), true, 13)));
    let open = chars_of("\"a");
    assert_eq!(target_match(&open, 0), Some(("".to_string(), false, 0)));
    let digits = chars_of("12\"");
    assert_eq!(target_match(&digits, 0), Some(("12".to_string(), false, 2)));
    assert_eq!(target_match(&chars_of("abc"), 0), Some(("".to_string(), false, 0)));
    let (p, end) = label_match(&s, 0).unwrap();
    assert_eq!(end, 13);
    assert_eq!(p.describe(), "_ab1 LIKE q");
}

#[test]
fn numbers_read_and_written() {
    assert_eq!(parse_u32("0"), Some(0));
    assert_eq!(parse_u32("+5"), Some(5));
    assert_eq!(parse_u32("4294967295"), Some(4294967295));
    assert_eq!(parse_u32("4294967296"), None);
    assert_eq!(parse_u32(""), None);
    assert_eq!(parse_u32("+"), None);
    assert_eq!(parse_u32("-1"), None);
    assert_eq!(parse_u32("12a"), None);
    assert_eq!(u32_to_string(0), "0");
    assert_eq!(u32_to_string(1000), "1000");
    assert_eq!(u32_to_string(4294967295), "4294967295");
}

#[test]
fn quoted_number_compares_as_text() {
    let file = FileItem {
        name: "123".to_string(),
        is_dir: false,
        file_owner: 0,
        file_creation_time: "??".to_string(),
    };
    assert!(vector_selector("name = \"123\"").check(&file));
    assert!(!vector_selector("name = 123").check(&file));
    let row = proc_row(7, 1000, "42");
    assert!(vector_selector("cmdline = \"42\"").check(&row));
    assert!(vector_selector("uid = \"1000\"").check(&row));
    assert!(!vector_selector("uid = \"01000\"").check(&row));
    assert!(vector_selector("uid = 01000").check(&row));
    let f = vector_selector("uid = \"1000\", pid = 7");
    assert!(f.filters[0].quoted);
    assert!(!f.filters[1].quoted);
    let q = FilterItems {
        filters: vec![FilterItem::new_quoted("name".to_string(), FilterOp::Eq, "123".to_string())],
    };
    assert!(q.check(&file));
}
