use rusty_osquery::procfs::{
    file_item, get_os_version_info, get_pids, net_item_of, parse_maps_line, parse_net_line,
    proc_map_item_of,
};

#[test]
fn maps_line_with_file() {
    let m = parse_maps_line("55d0c1a2b000-55d0c1a4d000 r--p 00000000 08:01 1315    /usr/bin/bash")
        .unwrap();
    assert_eq!(m.start_addr, "55d0c1a2b000");
    assert_eq!(m.end_addr, "55d0c1a4d000");
    assert_eq!(m.permissions, "r--p");
    assert_eq!(m.size_maybe, "00000000");
    assert_eq!(m.start_time, "08:01");
    assert_eq!(m.file_desc, 1315);
    assert_eq!(m.file_name, "/usr/bin/bash");
}

#[test]
fn maps_line_without_file() {
    let m = parse_maps_line("7f2c4a000000-7f2c4a021000 rw-p 00000000 00:00 0   ").unwrap();
    assert_eq!(m.file_desc, 0);
    assert_eq!(m.file_name, "n/a");
    assert!(parse_maps_line("not a mapping").is_none());
}

#[test]
fn map_groups_need_a_number() {
    let gs = vec![
        Some("x".to_string()),
        Some("a".to_string()),
        Some("b".to_string()),
        Some("rw-p".to_string()),
        Some("0".to_string()),
        Some("00:00".to_string()),
        Some("99999999999".to_string()),
        None,
    ];
    assert!(proc_map_item_of(&gs).is_none());
}

#[test]
fn net_line_fields() {
    let line = "   0: 0100007F:0277 00000000:0000 0A 00000000:00000000 00:00000000 00000000     0        0 12345 1 0000000000000000 100 0 0 10 0";
    let n = parse_net_line(line, "tcp").unwrap();
    assert_eq!(n.local_address, "0100007F:0277");
    assert_eq!(n.remote_address, "00000000:0000");
    assert_eq!(n.st, "0A");
    assert_eq!(n.uid, 0);
    assert_eq!(n.timeout, 0);
    assert_eq!(n.inode, 12345);
    assert_eq!(n.ref_cnt, 1);
    assert_eq!(n.protocol, "tcp");
    assert!(parse_net_line("  sl  local_address rem_address   st", "udp").is_none());
    assert!(net_item_of(&vec![None], "udp").is_none());
}

#[test]
fn proc_dir_pids() {
    assert_eq!(get_pids("/proc/1234"), Some(1234));
    assert_eq!(get_pids("/proc/self"), None);
}

#[test]
fn os_version_line() {
    let line = "Linux version 5.15.0-91-generic (buildd@lcy02-amd64-045) (gcc (Ubuntu 11.4.0-1ubuntu1~22.04) 11.4.0, GNU ld (GNU Binutils for Ubuntu) 2.38) #101-Ubuntu SMP Tue Nov 14 13:30:08 UTC 2023";
    let v = get_os_version_info(line);
    assert_eq!(v.kernel_version, "version 5.15.0-91-g");
    assert_eq!(v.build_id, "(buildd@lcy02-amd64-045)");
    assert_eq!(
        v.gcc_version,
        "(gcc (Ubuntu 11.4.0-1ubuntu1~22.04) 11.4.0, GNU ld (GNU Binutils for Ubuntu) 2.38)"
    );
    let empty = get_os_version_info("");
    assert_eq!(empty.kernel_version, "");
}

#[test]
fn file_creation_time_text() {
    let f = file_item("/tmp".to_string(), true, 0, Some((0, 0)));
    assert_eq!(f.file_creation_time, "01/01/1970 00:00:00");
    let f = file_item("/tmp".to_string(), true, 0, Some((1431648000, 0)));
    assert_eq!(f.file_creation_time, "15/05/2015 00:00:00");
    let f = file_item("/tmp".to_string(), false, 3, None);
    assert_eq!(f.file_creation_time, "??");
    assert_eq!(f.file_owner, 3);
}
