use wasmcloud_provider_httpserver::{
    convert_human_size, Error, CONTENT_LEN_LIMIT, DEFAULT_MAX_CONTENT_LEN,
};

#[test]
fn parse_max_content_len() {
    // emtpy string returns default
    assert_eq!(convert_human_size("").unwrap(), DEFAULT_MAX_CONTENT_LEN);
    // simple number
    assert_eq!(convert_human_size("4").unwrap(), 4);
    assert_eq!(convert_human_size("12345678").unwrap(), 12345678);
    // k, K, m, M, g, G suffix
    assert_eq!(convert_human_size("2k").unwrap(), 2 * 1024);
    assert_eq!(convert_human_size("2K").unwrap(), 2 * 1024);
    assert_eq!(convert_human_size("10m").unwrap(), 10 * 1024 * 1024);
    assert_eq!(convert_human_size("10M").unwrap(), 10 * 1024 * 1024);

    // allow space before units
    assert_eq!(convert_human_size("10 M").unwrap(), 10 * 1024 * 1024);

    // remove surrounding white space
    assert_eq!(convert_human_size(" 5 k ").unwrap(), 5 * 1024);

    // errors
    assert!(convert_human_size("k").is_err());
    assert!(convert_human_size("0").is_err());
    assert!(convert_human_size("1mb").is_err());
    assert!(convert_human_size(&i32::MAX.to_string()).is_err());
    assert!(convert_human_size(&(i32::MAX as u64 + 1).to_string()).is_err());
}

#[test]
fn size_constants() {
    assert_eq!(DEFAULT_MAX_CONTENT_LEN, 10_485_760);
    assert_eq!(CONTENT_LEN_LIMIT, 1_073_741_824);
}

#[test]
fn size_exact_values() {
    assert_eq!(convert_human_size("10m").unwrap(), 10_485_760);
    assert_eq!(convert_human_size("1g").unwrap(), 1_073_741_824);
    assert_eq!(convert_human_size("1G").unwrap(), 1_073_741_824);
    assert_eq!(convert_human_size("1024k").unwrap(), 1_048_576);
    assert_eq!(convert_human_size("007").unwrap(), 7);
    assert_eq!(convert_human_size("\t3\u{a0}K\n").unwrap(), 3072);
    assert_eq!(convert_human_size("1073741824").unwrap(), CONTENT_LEN_LIMIT);
    assert_eq!(convert_human_size("   ").unwrap(), DEFAULT_MAX_CONTENT_LEN);
}

#[test]
fn size_out_of_range_names_the_limit() {
    for text in ["0", "0k", "1073741825", "2g", "1025m", "99999999999999999999999999", " 18446744073709551616 G "] {
        match convert_human_size(text) {
            Err(Error::Settings(m)) => {
                assert_eq!(
                    m,
                    format!(
                        "Invalid size in max_content_len '{}': value must be >0 and <= {}",
                        text.trim(),
                        CONTENT_LEN_LIMIT
                    )
                );
            }
            other => panic!("{:?} for {:?}", other, text),
        }
    }
}

#[test]
fn size_malformed_text() {
    for text in ["k", "K", "1mb", "m1", "1 0", "-1", "+4", "1.5k", "1kk", "k1", "1 é", "é", "١٢٣", "1\u{1F600}", "12 3m", "g "] {
        match convert_human_size(text) {
            Err(Error::Settings(m)) => {
                assert_eq!(
                    m,
                    format!(
                        "Invalid size in max_content_len: '{}'. Should be a number, optionally followed by 'K', 'M', or 'G'. Example: '10M'. Value must be <= i32::MAX",
                        text.trim()
                    )
                );
            }
            other => panic!("{:?} for {:?}", other, text),
        }
    }
}

#[test]
fn error_message_has_prefix() {
    let e = convert_human_size("k").unwrap_err();
    assert!(e.message().starts_with("problem reading settings: Invalid size"));
    assert_eq!(
        Error::InvalidParameter("method: 'A B'".to_string()).message(),
        "invalid parameter: method: 'A B'"
    );
    assert_eq!(Error::Init("x".to_string()).message(), "provider startup: x");
}
