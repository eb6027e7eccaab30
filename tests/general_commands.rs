use birthday_bot::general::{find_patterns, parse_color, ping_reply, usage_report, ColorError};

#[test]
fn finds_color_prefixes() {
    assert_eq!(find_patterns("#34EB61"), vec!["#"]);
    assert_eq!(find_patterns("0x34EB61"), vec!["0x"]);
    assert!(find_patterns("34EB61").is_empty());
    assert!(find_patterns("").is_empty());
}

#[test]
fn parses_colors() {
    assert_eq!(parse_color("#34EB61"), Ok(0x34EB61));
    assert_eq!(parse_color("0xff"), Ok(255));
    assert_eq!(parse_color("##ff"), Ok(255));
    assert_eq!(parse_color("0x0x10"), Ok(16));
    assert_eq!(parse_color("#-1"), Ok(-1));
    assert_eq!(parse_color("34EB61"), Err(ColorError::NoPrefix));
    assert_eq!(parse_color("#"), Err(ColorError::NotHex));
    assert_eq!(parse_color("#zz"), Err(ColorError::NotHex));
    assert_eq!(parse_color("#fffffffff"), Err(ColorError::NotHex));
}

#[test]
fn usage_report_lists_each_command() {
    let entries = vec![("say".to_string(), 3u64), ("latency".to_string(), 10u64)];
    assert_eq!(usage_report(&entries), "Commands used:\n- say: 3\n- latency: 10\n");
    assert_eq!(usage_report(&Vec::new()), "Commands used:\n");
}

#[test]
fn ping_gets_pog() {
    assert_eq!(ping_reply("!ping"), Some("Pog!".to_string()));
    assert_eq!(ping_reply("!ping "), None);
    assert_eq!(ping_reply("hello"), None);
}
