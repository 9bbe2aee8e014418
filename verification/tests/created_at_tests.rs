use weiback_rs::created_at::{parse_created_at, CreatedAt};

#[test]
fn post_parse_datetime() {
    parse_created_at("Mon May 29 19:29:32 +0800 2023").unwrap();
    parse_created_at("Mon May 29 19:45:00 +0800 2023").unwrap();
    parse_created_at("Tue May 30 04:07:49 +0800 2023").unwrap();
}

#[test]
fn post_internal_parse_datetime() {
    parse_created_at("Mon May 29 19:29:32 +0800 2023").unwrap();
    parse_created_at("Mon May 29 19:45:00 +0800 2023").unwrap();
    parse_created_at("Tue May 30 04:07:49 +0800 2023").unwrap();
}

#[test]
fn parsed_values() {
    assert_eq!(
        parse_created_at("Mon May 29 19:29:32 +0800 2023"),
        Ok(CreatedAt { timestamp: 1685359772, offset_seconds: 28800 })
    );
    assert_eq!(parse_created_at("Tue May 30 04:07:49 +0800 2023").unwrap().timestamp, 1685390869);
    assert!(parse_created_at("2023-05-29 19:29:32").is_err());
    assert!(parse_created_at("").is_err());
}

#[test]
fn timezone_texts() {
    let t = CreatedAt { timestamp: 0, offset_seconds: 28800 };
    assert_eq!(t.timezone_text(), "+08:00");
    let t = CreatedAt { timestamp: 0, offset_seconds: -19800 };
    assert_eq!(t.timezone_text(), "-05:30");
    let t = CreatedAt { timestamp: 0, offset_seconds: 3661 };
    assert_eq!(t.timezone_text(), "+01:01:01");
    let t = CreatedAt { timestamp: 0, offset_seconds: 0 };
    assert_eq!(t.timezone_text(), "+00:00");
}
