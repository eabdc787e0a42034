use garlaunch::cache::{format_cache, parse_cache, parse_cache_line, CacheRecord};

#[test]
fn parses_cache_lines() {
    let r = parse_cache_line("firefox\t2.500000\t1700000000").unwrap();
    assert_eq!((r.id.as_str(), r.score.as_str(), r.last_access), ("firefox", "2.500000", 1700000000));
    let r = parse_cache_line("  code\t1\tsoon\textra  ").unwrap();
    assert_eq!((r.id.as_str(), r.score.as_str(), r.last_access), ("code", "1", 0));
    assert!(parse_cache_line("# comment\ta\tb").is_none());
    assert!(parse_cache_line("   ").is_none());
    assert!(parse_cache_line("only\ttwo").is_none());
    assert!(parse_cache_line("\tx\t3").is_none());
}

#[test]
fn written_cache_reads_back() {
    let records = vec![
        CacheRecord { id: "firefox".into(), score: "3.000000".into(), last_access: 17 },
        CacheRecord { id: "my app".into(), score: "0.125000".into(), last_access: 0 },
    ];
    let text = format_cache(&records);
    assert_eq!(text, "# garlaunch frecency cache v1\nfirefox\t3.000000\t17\nmy app\t0.125000\t0\n");
    let back = parse_cache(&text);
    assert_eq!(back.len(), 2);
    assert_eq!(back[1].id, "my app");
    assert_eq!(back[1].score, "0.125000");
    assert_eq!(back[0].last_access, 17);
}

#[test]
fn reads_files_with_blank_lines_and_crlf() {
    let back = parse_cache("# header\r\n\r\na\t1\t2\r\n\nb\t3\t4");
    let ids: Vec<&str> = back.iter().map(|r| r.id.as_str()).collect();
    assert_eq!(ids, vec!["a", "b"]);
    assert_eq!(back[0].last_access, 2);
}
