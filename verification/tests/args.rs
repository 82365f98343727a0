use nfsdav::args::check_export;
use nfsdav::args::parse_args;
use nfsdav::args::Config;
use nfsdav::args::ExportError;
use nfsdav::text::parse_number;
use nfsdav::text::split_at_commas;

fn parse(args: &[&str]) -> Option<Config> {
    let mut all = vec!["nfsserve".to_string()];
    for arg in args {
        all.push(arg.to_string());
    }
    parse_args(&all)
}

fn strings(parts: &[&str]) -> Vec<String> {
    parts.iter().map(|p| p.to_string()).collect()
}

#[test]
fn no_argument_asks_for_the_usage() {
    assert_eq!(parse(&[]), None);
    assert_eq!(parse_args(&vec![]), None);
}

#[test]
fn directory_alone() {
    let config = parse(&["/data"]).unwrap();
    assert_eq!(config.dir, "/data");
    assert_eq!(config.bind_addr, "0.0.0.0:2049");
    assert!(config.nfs);
    assert_eq!(config.dav_port, None);
    assert!(!config.restricts_ips());
    assert!(!config.restricts_uids());
}

#[test]
fn directory_and_address() {
    let config = parse(&["/data", "127.0.0.1:12049"]).unwrap();
    assert_eq!(config.dir, "/data");
    assert_eq!(config.bind_addr, "127.0.0.1:12049");
}

#[test]
fn allowed_addresses() {
    let config =
        parse(&["/data", "0.0.0.0:2049", "--allow-ip", "192.168.1.41,127.0.0.1"]).unwrap();
    assert_eq!(config.allowed_ips, strings(&["192.168.1.41", "127.0.0.1"]));
    assert!(config.restricts_ips());
    assert!(!config.restricts_uids());
}

#[test]
fn allowed_users() {
    let config = parse(&["/data", "0.0.0.0:2049", "--allow-uid", "0,1000"]).unwrap();
    assert_eq!(config.allowed_uids, vec![0, 1000]);
    assert!(config.restricts_uids());
}

#[test]
fn nfs_mode() {
    let config = parse(&[
        "/data",
        "0.0.0.0:2049",
        "--allow-ip",
        "192.168.1.41",
        "--allow-uid",
        "0,1000",
    ])
    .unwrap();
    assert!(config.nfs);
    assert_eq!(config.dav_port, None);
    assert_eq!(config.allowed_ips, strings(&["192.168.1.41"]));
    assert_eq!(config.allowed_uids, vec![0, 1000]);
}

#[test]
fn webdav_mode() {
    let config = parse(&["/data", "--dav-port", "8080"]).unwrap();
    assert_eq!(config.dir, "/data");
    assert_eq!(config.dav_port, Some(8080));
    assert!(!config.nfs);
}

#[test]
fn both_protocols() {
    let config = parse(&["/data", "0.0.0.0:2049", "--dav-port", "8080"]).unwrap();
    assert_eq!(config.bind_addr, "0.0.0.0:2049");
    assert_eq!(config.dav_port, Some(8080));
    assert!(config.nfs);
}

#[test]
fn options_alone_serve_the_current_directory() {
    let config = parse(&["--allow-uid", "7"]).unwrap();
    assert_eq!(config.dir, ".");
    assert_eq!(config.allowed_uids, vec![7]);
}

#[test]
fn option_without_a_value_says_nothing() {
    let config = parse(&["/data", "--allow-ip"]).unwrap();
    assert!(!config.restricts_ips());
    let config = parse(&["/data", "--dav-port"]).unwrap();
    assert_eq!(config.dav_port, None);
    assert!(config.nfs);
}

#[test]
fn option_takes_the_next_argument_whatever_it_is() {
    let config = parse(&["--allow-ip", "--allow-uid", "/data"]).unwrap();
    assert_eq!(config.allowed_ips, strings(&["--allow-uid"]));
    assert_eq!(config.dir, "/data");
}

#[test]
fn lists_grow_and_the_last_address_counts() {
    let config =
        parse(&["--allow-ip", "a", "/data", "x:1", "--allow-ip", "b,c", "y:2"]).unwrap();
    assert_eq!(config.allowed_ips, strings(&["a", "b", "c"]));
    assert_eq!(config.dir, "/data");
    assert_eq!(config.bind_addr, "y:2");
}

#[test]
fn what_is_no_user_id_is_passed_over() {
    let config = parse(&["/d", "--allow-uid", "1,x,,+2,-3,4294967295,4294967296, 5"]).unwrap();
    assert_eq!(config.allowed_uids, vec![1, 2, 4294967295]);
}

#[test]
fn what_is_no_port_is_passed_over() {
    let config = parse(&["/d", "--dav-port", "65536"]).unwrap();
    assert_eq!(config.dav_port, None);
    let config = parse(&["/d", "--dav-port", "65535", "--dav-port", "no"]).unwrap();
    assert_eq!(config.dav_port, Some(65535));
}

#[test]
fn splitting_at_commas_keeps_empty_parts() {
    assert_eq!(split_at_commas(""), strings(&[""]));
    assert_eq!(split_at_commas("a"), strings(&["a"]));
    assert_eq!(split_at_commas(",a,,\u{e4}b,"), strings(&["", "a", "", "\u{e4}b", ""]));
    assert_eq!(split_at_commas("x,y,z").join(","), "x,y,z");
}

#[test]
fn numbers_agree_with_the_standard_library() {
    for text in ["0", "7", "+7", "007", "", "+", "-1", "1_0", " 1", "4294967295", "4294967296"] {
        assert_eq!(parse_number(text, u32::MAX), text.parse::<u32>().ok());
        assert_eq!(
            parse_number(text, u16::MAX as u32),
            text.parse::<u16>().ok().map(|n| n as u32)
        );
    }
}

#[test]
fn only_a_directory_is_served() {
    assert_eq!(check_export(true, true), Ok(()));
    assert_eq!(check_export(true, false), Err(ExportError::NotADirectory));
    assert_eq!(check_export(false, false), Err(ExportError::Missing));
}
