use voice_pipeline::http::{create_client, update_proxy, ClientError};
use voice_pipeline::listing::sort_listing;
use voice_pipeline::model::{get_parent_dir, parent_or_root, root_drives, FsItem, Modality};
use voice_pipeline::request::{
    accepts_content_type, bearer_header, pick_token, speech_url, speech_url_from_encoded,
    stored_token,
};
use voice_pipeline::telemetry::{parse_decimal, ping_field_chars, ping_latency_windows, ping_status};

#[test]
fn speech_url_encodes_text() {
    assert_eq!(speech_url("hello world!"), "https://text.pollinations.ai/hello%20world%21");
    assert_eq!(speech_url("a-b_c.d~e"), "https://text.pollinations.ai/a-b_c.d~e");
    assert_eq!(speech_url_from_encoded("x%20y"), "https://text.pollinations.ai/x%20y");
}

#[test]
fn bearer_and_token_choice() {
    assert_eq!(bearer_header("abc"), "Bearer abc");
    assert_eq!(pick_token(Some("given".to_string()), "env".to_string()), "given");
    assert_eq!(pick_token(None, "env".to_string()), "env");
}

#[test]
fn content_type_check() {
    assert!(accepts_content_type(None));
    assert!(accepts_content_type(Some("audio/mpeg")));
    assert!(!accepts_content_type(Some("text/html")));
}

#[test]
fn ping_ratings() {
    assert_eq!(ping_status(0), "offline");
    assert_eq!(ping_status(1), "excellent");
    assert_eq!(ping_status(50), "excellent");
    assert_eq!(ping_status(51), "good");
    assert_eq!(ping_status(100), "good");
    assert_eq!(ping_status(101), "average");
    assert_eq!(ping_status(200), "average");
    assert_eq!(ping_status(201), "poor");
    assert_eq!(ping_status(500), "poor");
    assert_eq!(ping_status(501), "timeout");
}

#[test]
fn proxy_addresses() {
    assert!(matches!(create_client(Some("http://[::1")), Err(ClientError::InvalidProxy)));
    assert!(create_client(Some("127.0.0.1:3128")).is_ok());
    let mut client = create_client(None).ok().unwrap();
    assert!(update_proxy(&mut client, Some("http://127.0.0.1:8080")).is_ok());
    assert_eq!(update_proxy(&mut client, Some("http://[::1")), Err(ClientError::InvalidProxy));
}

#[test]
fn modality_names_and_root_drive() {
    assert_eq!(Modality::Text.name(), "text");
    assert_eq!(Modality::Image.name(), "image");
    assert_eq!(Modality::Audio.name(), "audio");
    let drives = root_drives();
    assert_eq!(drives.len(), 1);
    assert_eq!(drives[0].name, "Root");
    assert_eq!(drives[0].path, "/");
    assert!(drives[0].is_dir);
}

fn entry(name: &str, is_dir: bool) -> FsItem {
    FsItem {
        name: name.to_string(),
        path: format!("/tmp/{}", name),
        is_dir,
        size: 0,
        modified: 0,
        icon: None,
    }
}

#[test]
fn listing_puts_directories_first_then_names() {
    let items = vec![
        entry("beta.txt", false),
        entry("Zeta", true),
        entry("Alpha.txt", false),
        entry("alpha", true),
        entry("ab", false),
    ];
    let sorted = sort_listing(items);
    let names: Vec<&str> = sorted.iter().map(|i| i.name.as_str()).collect();
    assert_eq!(names, vec!["alpha", "Zeta", "ab", "Alpha.txt", "beta.txt"]);
}

#[test]
fn listing_keeps_entries_and_handles_empty() {
    assert!(sort_listing(Vec::new()).is_empty());
    let sorted = sort_listing(vec![entry("b", false), entry("B", false), entry("a", false)]);
    let paths: Vec<&str> = sorted.iter().map(|i| i.path.as_str()).collect();
    assert_eq!(paths, vec!["/tmp/a", "/tmp/b", "/tmp/B"]);
}

#[test]
fn windows_ping_report_latency() {
    let report = "Pinging 127.0.0.1 with 32 bytes of data:\r\nReply from 127.0.0.1: bytes=32 time=12ms TTL=128\r\n";
    assert_eq!(ping_latency_windows(report), 12);
    assert_eq!(ping_latency_windows("Reply from 127.0.0.1: bytes=32 time<1ms TTL=128\r\n"), 0);
    assert_eq!(ping_latency_windows("Request timed out.\r\n"), 0);
    assert_eq!(ping_latency_windows("time=abcms"), 0);
}

#[test]
fn unix_ping_report_field() {
    let report = "PING 8.8.8.8 (8.8.8.8) 56(84) bytes of data.\n64 bytes from 8.8.8.8: icmp_seq=1 ttl=117 time=14.2 ms\n";
    let field: String = ping_field_chars(report, ' ').unwrap().into_iter().collect();
    assert_eq!(field, "14.2");
    assert!(ping_field_chars("no answer\n", ' ').is_none());
    let field: String = ping_field_chars("time=5\nmore", 'm').unwrap().into_iter().collect();
    assert_eq!(field, "5");
    let field: String = ping_field_chars("time=7\r\n", ' ').unwrap().into_iter().collect();
    assert_eq!(field, "7");
}

#[test]
fn decimal_reading() {
    let chars = |s: &str| s.chars().collect::<Vec<char>>();
    assert_eq!(parse_decimal(&chars("42")), Some(42));
    assert_eq!(parse_decimal(&chars("+42")), Some(42));
    assert_eq!(parse_decimal(&chars("")), None);
    assert_eq!(parse_decimal(&chars("+")), None);
    assert_eq!(parse_decimal(&chars("-1")), None);
    assert_eq!(parse_decimal(&chars("12a")), None);
    assert_eq!(parse_decimal(&chars("18446744073709551615")), Some(u64::MAX));
    assert_eq!(parse_decimal(&chars("18446744073709551616")), None);
}

#[test]
fn stored_token_cases() {
    assert_eq!(stored_token(None), Ok(None));
    assert_eq!(stored_token(Some(Some("tok".to_string()))), Ok(Some("tok".to_string())));
    assert_eq!(stored_token(Some(None)), Err("Invalid token format in store".to_string()));
}

#[test]
fn listing_is_stable_for_equal_names() {
    let sorted = sort_listing(vec![
        entry("Readme", false),
        entry("docs", true),
        entry("README", false),
        entry("readme", false),
    ]);
    let paths: Vec<&str> = sorted.iter().map(|i| i.path.as_str()).collect();
    assert_eq!(paths, vec!["/tmp/docs", "/tmp/Readme", "/tmp/README", "/tmp/readme"]);
}

#[test]
fn parent_directories() {
    assert_eq!(get_parent_dir("/home/user/docs".to_string()), "/home/user");
    assert_eq!(get_parent_dir("/home".to_string()), "/");
    assert_eq!(get_parent_dir("/".to_string()), "/");
    assert_eq!(get_parent_dir("file.txt".to_string()), "");
    assert_eq!(parent_or_root(None), "/");
    assert_eq!(parent_or_root(Some("/a".to_string())), "/a");
}
