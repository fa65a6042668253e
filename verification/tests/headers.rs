use http::header::{HeaderMap, HeaderName, HeaderValue};
use wasmcloud_provider_httpserver::{
    convert_request_headers, convert_response_headers, skipped_headers, HeaderField,
    HeaderFields,
};

fn field(name: &str, values: &[&str]) -> HeaderField {
    HeaderField {
        name: name.to_string(),
        values: values.iter().map(|v| v.to_string()).collect(),
    }
}

fn fields(list: Vec<HeaderField>) -> HeaderFields {
    HeaderFields { fields: list }
}

fn all(map: &HeaderMap, name: &str) -> Vec<Vec<u8>> {
    map.get_all(name).iter().map(|v| v.as_bytes().to_vec()).collect()
}

fn sorted(h: &HeaderFields) -> Vec<(String, Vec<String>)> {
    let mut v: Vec<(String, Vec<String>)> =
        h.fields.iter().map(|f| (f.name.clone(), f.values.clone())).collect();
    v.sort();
    v
}

#[test]
fn request_headers_keep_text_values_in_order() {
    let mut map = HeaderMap::new();
    map.append("Accept", HeaderValue::from_static("text/html"));
    map.append("X-Token", HeaderValue::from_static("abc"));
    map.append("accept", HeaderValue::from_static("application/json"));
    let got = convert_request_headers(&map);
    assert_eq!(
        sorted(&got),
        vec![
            (
                "accept".to_string(),
                vec!["text/html".to_string(), "application/json".to_string()]
            ),
            ("x-token".to_string(), vec!["abc".to_string()]),
        ]
    );
}

#[test]
fn request_headers_of_an_empty_map() {
    let got = convert_request_headers(&HeaderMap::new());
    assert_eq!(got.len(), 0);
    assert!(got.fields.is_empty());
}

#[test]
fn request_header_value_with_other_bytes_is_dropped_alone() {
    let mut map = HeaderMap::new();
    map.append("x-a", HeaderValue::from_static("one"));
    map.append("x-a", HeaderValue::from_bytes(b"caf\xc3\xa9").unwrap());
    map.append("x-a", HeaderValue::from_static("three"));
    map.append("x-b", HeaderValue::from_bytes(b"\x80\xff").unwrap());
    let got = convert_request_headers(&map);
    assert_eq!(
        sorted(&got),
        vec![("x-a".to_string(), vec!["one".to_string(), "three".to_string()])]
    );
    assert!(got.get("x-b").is_none());
}

#[test]
fn request_header_printable_ascii_survives() {
    let printable: Vec<u8> = (32u8..127u8).collect();
    let mut map = HeaderMap::new();
    map.append("x-all", HeaderValue::from_bytes(&printable).unwrap());
    map.append("x-all", HeaderValue::from_bytes(b"a\tb").unwrap());
    map.append("x-all", HeaderValue::from_static(""));
    let got = convert_request_headers(&map);
    let values = got.get("X-All").unwrap();
    assert_eq!(values.len(), 3);
    assert_eq!(values[0].as_bytes(), &printable[..]);
    assert_eq!(values[1], "a\tb");
    assert_eq!(values[2], "");
}

#[test]
fn request_header_names_come_out_once_in_lower_case() {
    let mut map = HeaderMap::new();
    for (n, v) in [("Host", "a"), ("X-One", "1"), ("x-one", "2"), ("X-ONE", "3"), ("x-two", "4")] {
        map.append(HeaderName::from_bytes(n.as_bytes()).unwrap(), HeaderValue::from_static(v));
    }
    let got = convert_request_headers(&map);
    assert_eq!(
        sorted(&got),
        vec![
            ("host".to_string(), vec!["a".to_string()]),
            ("x-one".to_string(), vec!["1".to_string(), "2".to_string(), "3".to_string()]),
            ("x-two".to_string(), vec!["4".to_string()]),
        ]
    );
}

#[test]
fn response_headers_become_one_header_per_value() {
    let mut map = HeaderMap::new();
    let complete = convert_response_headers(
        fields(vec![field("Set-Cookie", &["a=1", "b=2"]), field("X-Id", &["42"])]),
        &mut map,
    );
    assert!(complete);
    assert_eq!(map.len(), 3);
    assert_eq!(all(&map, "set-cookie"), vec![b"a=1".to_vec(), b"b=2".to_vec()]);
    assert_eq!(all(&map, "x-id"), vec![b"42".to_vec()]);
    let names: Vec<&str> = map.keys().map(|k| k.as_str()).collect();
    assert!(names.contains(&"set-cookie") && names.contains(&"x-id"));
}

#[test]
fn response_header_with_bad_name_is_skipped() {
    let mut map = HeaderMap::new();
    map.append("x-keep", HeaderValue::from_static("kept"));
    let complete = convert_response_headers(
        fields(vec![
            field("bad name", &["v"]),
            field("", &["v"]),
            field("na\u{ef}ve", &["v"]),
            field("x:y", &["v"]),
            field("X-Good", &["v"]),
        ]),
        &mut map,
    );
    assert!(complete);
    assert_eq!(map.len(), 2);
    assert_eq!(all(&map, "x-keep"), vec![b"kept".to_vec()]);
    assert_eq!(all(&map, "x-good"), vec![b"v".to_vec()]);
}

#[test]
fn response_header_with_bad_value_skips_that_value_only() {
    let mut map = HeaderMap::new();
    let complete = convert_response_headers(
        fields(vec![field("X-Mixed", &["first", "line\nbreak", "nul\u{0}", "del\u{7f}", "last"])]),
        &mut map,
    );
    assert!(complete);
    assert_eq!(all(&map, "x-mixed"), vec![b"first".to_vec(), b"last".to_vec()]);
}

#[test]
fn response_header_value_may_hold_bytes_beyond_ascii() {
    let mut map = HeaderMap::new();
    let complete = convert_response_headers(fields(vec![field("X-Name", &["caf\u{e9}", "tab\there"])]), &mut map);
    assert!(complete);
    assert_eq!(all(&map, "x-name"), vec!["caf\u{e9}".as_bytes().to_vec(), b"tab\there".to_vec()]);
}

#[test]
fn response_header_replaces_what_the_wire_held() {
    let mut map = HeaderMap::new();
    map.append("cache-control", HeaderValue::from_static("no-store"));
    map.append("cache-control", HeaderValue::from_static("private"));
    map.append("x-other", HeaderValue::from_static("o"));
    let complete = convert_response_headers(fields(vec![field("Cache-Control", &["max-age=60"])]), &mut map);
    assert!(complete);
    assert_eq!(all(&map, "cache-control"), vec![b"max-age=60".to_vec()]);
    assert_eq!(all(&map, "x-other"), vec![b"o".to_vec()]);
}

#[test]
fn response_header_without_legal_value_still_removes() {
    let mut map = HeaderMap::new();
    map.append("x-old", HeaderValue::from_static("old"));
    let complete = convert_response_headers(
        fields(vec![field("X-Old", &["bad\r\n"]), field("x-none", &[])]),
        &mut map,
    );
    assert!(complete);
    assert!(map.is_empty());
}

#[test]
fn response_header_later_field_of_same_name_wins() {
    let mut map = HeaderMap::new();
    let complete = convert_response_headers(
        fields(vec![field("X-Id", &["1", "2"]), field("x-id", &["3"])]),
        &mut map,
    );
    assert!(complete);
    assert_eq!(all(&map, "x-id"), vec![b"3".to_vec()]);
}

#[test]
fn response_header_name_characters() {
    let mut map = HeaderMap::new();
    let odd = "a!\"#$%&'*+-.^_`|~0Z";
    let complete = convert_response_headers(fields(vec![field(odd, &["v"])]), &mut map);
    assert!(complete);
    assert_eq!(all(&map, "a!\"#$%&'*+-.^_`|~0z"), vec![b"v".to_vec()]);
    let mut other = HeaderMap::new();
    for bad in ["a b", "a(b", "a)b", "a,b", "a/b", "a;b", "a<b", "a=b", "a>b", "a?b", "a@b", "a[b", "a\\b", "a]b", "a{b", "a}b", "a\u{7f}b"] {
        assert!(convert_response_headers(fields(vec![field(bad, &["v"])]), &mut other));
    }
    assert!(other.is_empty());
}

#[test]
fn response_header_name_length_limit() {
    let longest: String = "a".repeat(65535);
    let too_long: String = "a".repeat(65536);
    let mut map = HeaderMap::new();
    assert!(convert_response_headers(
        fields(vec![field(&too_long, &["no"]), field(&longest, &["yes"])]),
        &mut map
    ));
    assert_eq!(map.len(), 1);
    assert_eq!(all(&map, &longest), vec![b"yes".to_vec()]);
}

#[test]
fn round_trip_of_text_headers() {
    let mut map = HeaderMap::new();
    let sent = fields(vec![field("X-Id", &["42"]), field("Accept", &["a", "b"])]);
    assert!(convert_response_headers(sent, &mut map));
    let back = convert_request_headers(&map);
    assert_eq!(
        sorted(&back),
        vec![
            ("accept".to_string(), vec!["a".to_string(), "b".to_string()]),
            ("x-id".to_string(), vec!["42".to_string()]),
        ]
    );
}

#[test]
fn header_fields_lookup_ignores_case() {
    let mut h = HeaderFields::new();
    assert_eq!(h.len(), 0);
    assert!(!h.insert("Content-Type".to_string(), vec!["text/plain".to_string()]));
    assert!(!h.insert("X-Id".to_string(), vec!["1".to_string()]));
    assert_eq!(h.len(), 2);
    assert_eq!(h.get("content-type").unwrap(), &vec!["text/plain".to_string()]);
    assert_eq!(h.get("CONTENT-TYPE").unwrap(), &vec!["text/plain".to_string()]);
    assert_eq!(h.get("x-id").unwrap(), &vec!["1".to_string()]);
    assert!(h.get("x-idx").is_none());
    assert!(h.get("").is_none());
    assert!(h.insert("x-ID".to_string(), vec!["2".to_string(), "3".to_string()]));
    assert_eq!(h.len(), 2);
    assert_eq!(h.fields[1].name, "x-ID");
    assert_eq!(h.get("X-Id").unwrap(), &vec!["2".to_string(), "3".to_string()]);
    assert_eq!(h.fields[0].name, "Content-Type");
}

#[test]
fn header_fields_lookup_takes_the_first_match() {
    let h = fields(vec![field("a", &["1"]), field("A", &["2"]), field("\u{e9}", &["3"])]);
    assert_eq!(h.get("A").unwrap(), &vec!["1".to_string()]);
    assert!(h.get("\u{c9}").is_none());
    assert_eq!(h.get("\u{e9}").unwrap(), &vec!["3".to_string()]);
}

fn full_map() -> HeaderMap {
    // a map that cannot grow: its table has the largest size, and every
    // place that the table allows is taken
    let mut map = HeaderMap::with_capacity(20000);
    let room = map.capacity();
    assert_eq!(room, 24576);
    for i in 0..room {
        let name = HeaderName::from_bytes(format!("h{}", i).as_bytes()).unwrap();
        assert!(!map.try_append(name, HeaderValue::from_static("old")).unwrap());
    }
    assert_eq!(map.keys_len(), room);
    map
}

#[test]
fn response_header_refused_by_a_full_map() {
    let mut map = full_map();
    let complete = convert_response_headers(fields(vec![field("X-New", &["1", "2"])]), &mut map);
    assert!(!complete);
    assert_eq!(map.keys_len(), 24576);
    assert!(map.get("x-new").is_none());
    assert_eq!(all(&map, "h0"), vec![b"old".to_vec()]);
    assert_eq!(all(&map, "h24575"), vec![b"old".to_vec()]);
}

#[test]
fn response_headers_stop_at_the_value_that_is_refused() {
    let mut map = full_map();
    let complete = convert_response_headers(
        fields(vec![
            field("bad name", &["skipped"]),
            field("H0", &["a", "no\nt", "b"]),
            field("X-New", &["bad\r", "c", "d"]),
            field("h1", &["never written"]),
        ]),
        &mut map,
    );
    // the map is full again once `h0` is back: it refuses the value `b`
    assert!(!complete);
    assert_eq!(all(&map, "h0"), vec![b"a".to_vec()]);
    assert!(map.get("x-new").is_none());
    assert_eq!(all(&map, "h1"), vec![b"old".to_vec()]);
    assert_eq!(all(&map, "h2"), vec![b"old".to_vec()]);
    assert_eq!(map.keys_len(), 24576);
}

#[test]
fn response_headers_stop_at_the_field_that_is_refused() {
    let mut map = full_map();
    let complete = convert_response_headers(
        fields(vec![
            field("H0", &["a"]),
            field("X-New", &["bad\r", "c", "d"]),
            field("h1", &["never written"]),
        ]),
        &mut map,
    );
    assert!(!complete);
    assert_eq!(all(&map, "h0"), vec![b"a".to_vec()]);
    assert!(map.get("x-new").is_none());
    assert_eq!(all(&map, "h1"), vec![b"old".to_vec()]);
    assert_eq!(map.keys_len(), 24576);
}

#[test]
fn response_headers_that_offer_nothing_pass_a_full_map() {
    let mut map = full_map();
    let complete = convert_response_headers(
        fields(vec![field("bad name", &["v"]), field("x-new", &["bad\n"]), field("h5", &[])]),
        &mut map,
    );
    assert!(complete);
    assert!(map.get("h5").is_none());
    assert_eq!(map.keys_len(), 24575);
}

#[test]
fn response_headers_fit_a_map_with_room() {
    let mut map = HeaderMap::new();
    for i in 0..6000 {
        let name = HeaderName::from_bytes(format!("h{}", i).as_bytes()).unwrap();
        map.append(name, HeaderValue::from_static("old"));
    }
    let many: Vec<String> = (0..500).map(|i| format!("v{}", i)).collect();
    let refs: Vec<&str> = many.iter().map(|s| s.as_str()).collect();
    let complete = convert_response_headers(
        fields(vec![field("X-Many", &refs), field("h7", &["new"]), field("X-One", &["1"])]),
        &mut map,
    );
    assert!(complete);
    assert_eq!(map.keys_len(), 6002);
    assert_eq!(map.get_all("x-many").iter().count(), 500);
    assert_eq!(all(&map, "h7"), vec![b"new".to_vec()]);
    assert_eq!(all(&map, "x-one"), vec![b"1".to_vec()]);
    assert_eq!(all(&map, "h8"), vec![b"old".to_vec()]);
}

#[test]
fn skipped_headers_are_found() {
    let h = fields(vec![
        field("X-Ok", &["fine", "also fine"]),
        field("bad name", &["not\nlooked at", "nor this"]),
        field("X-Mixed", &["first", "line\nbreak", "caf\u{e9}", "del\u{7f}", "tab\there"]),
        field("", &[]),
        field("x-none", &[]),
        field("x-all-bad", &["\r", "\u{0}"]),
    ]);
    let skipped = skipped_headers(&h);
    assert_eq!(skipped.names, vec![1, 3]);
    assert_eq!(skipped.values, vec![(2, 1), (2, 3), (5, 0), (5, 1)]);
    let mut map = HeaderMap::new();
    assert!(convert_response_headers(h, &mut map));
    assert_eq!(map.keys_len(), 2);
    assert_eq!(all(&map, "x-ok"), vec![b"fine".to_vec(), b"also fine".to_vec()]);
    assert_eq!(
        all(&map, "x-mixed"),
        vec![b"first".to_vec(), "caf\u{e9}".as_bytes().to_vec(), b"tab\there".to_vec()]
    );
}

#[test]
fn nothing_is_skipped_of_legal_headers() {
    let skipped = skipped_headers(&fields(vec![field("A", &["1"]), field("b-c", &["2", ""])]));
    assert!(skipped.names.is_empty());
    assert!(skipped.values.is_empty());
    let skipped = skipped_headers(&HeaderFields::new());
    assert!(skipped.names.is_empty() && skipped.values.is_empty());
}
