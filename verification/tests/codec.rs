use startpage::bookmarks::Bookmark;
use startpage::codec::{encode_bookmarks, load_bookmarks, parse_bookmarks};

fn bm(title: &str, url: &str) -> Bookmark {
    Bookmark {
        title: String::from(title),
        url: String::from(url),
    }
}

#[test]
fn encode_writes_compact_json() {
    let items = vec![bm("T", "https://t.io")];
    assert_eq!(encode_bookmarks(&items), "[{\"title\":\"T\",\"url\":\"https://t.io\"}]");
    let empty: Vec<Bookmark> = Vec::new();
    assert_eq!(encode_bookmarks(&empty), "[]");
    let two = vec![bm("A", "https://a.io"), bm("B", "https://b.io")];
    assert_eq!(
        encode_bookmarks(&two),
        "[{\"title\":\"A\",\"url\":\"https://a.io\"},{\"title\":\"B\",\"url\":\"https://b.io\"}]"
    );
}

#[test]
fn encode_escapes_quotes_backslashes_and_controls() {
    let items = vec![bm("say \"hi\"", "https://a.io/x\\y")];
    assert_eq!(
        encode_bookmarks(&items),
        "[{\"title\":\"say \\\"hi\\\"\",\"url\":\"https://a.io/x\\\\y\"}]"
    );
    let ctrl = vec![bm("a\nb\tc\u{1}d", "https://a.io")];
    assert_eq!(
        encode_bookmarks(&ctrl),
        "[{\"title\":\"a\\u000ab\\u0009c\\u0001d\",\"url\":\"https://a.io\"}]"
    );
}

#[test]
fn round_trip_preserves_every_list() {
    let lists = vec![
        Vec::new(),
        vec![bm("plain", "https://a.io")],
        vec![bm("say \"hi\"", "https://a.io?q=\\x"), bm("café ☕", "https://unicode.example")],
        vec![bm("ctrl\u{0}\u{1f}\n\r\t", "https://a.io"), bm("", ""), bm("dup", "https://a.io")],
    ];
    for items in lists {
        let blob = encode_bookmarks(&items);
        assert_eq!(parse_bookmarks(&blob), Some(items));
    }
}

#[test]
fn parser_accepts_standard_json_escapes() {
    let blob = "[{\"title\":\"a\\nb\",\"url\":\"x\\/y\"}]";
    assert_eq!(parse_bookmarks(blob), Some(vec![bm("a\nb", "x/y")]));
    let blob2 = "[{\"title\":\"q\\\"r\\\\s\\t\\r\\b\\f\",\"url\":\"u\"}]";
    assert_eq!(
        parse_bookmarks(blob2),
        Some(vec![bm("q\"r\\s\t\r\u{8}\u{c}", "u")])
    );
    let blob3 = "[{\"title\":\"\\u0000\\u001f\",\"url\":\"u\"}]";
    assert_eq!(parse_bookmarks(blob3), Some(vec![bm("\u{0}\u{1f}", "u")]));
}

#[test]
fn parser_rejects_malformed_blobs() {
    assert_eq!(parse_bookmarks(""), None);
    assert_eq!(parse_bookmarks("{}"), None);
    assert_eq!(parse_bookmarks("[",), None);
    assert_eq!(parse_bookmarks("[]extra"), None);
    assert_eq!(parse_bookmarks("[{\"title\":\"a\"}]"), None);
    assert_eq!(parse_bookmarks("[{\"title\":\"a\",\"url\":\"b\"}"), None);
    assert_eq!(parse_bookmarks("[{\"title\":\"a\",\"url\":\"b\"},]"), None);
    assert_eq!(parse_bookmarks("[{\"title\":\"a\",\"url\":\"b\\u0041\"}]"), None);
    assert_eq!(parse_bookmarks("[{\"title\":\"a\",\"url\":\"b\\q\"}]"), None);
}

#[test]
fn load_degrades_to_empty_on_absence_or_corruption() {
    assert_eq!(load_bookmarks(None), Vec::<Bookmark>::new());
    assert_eq!(load_bookmarks(Some("garbage")), Vec::<Bookmark>::new());
    assert_eq!(load_bookmarks(Some("[]")), Vec::<Bookmark>::new());
    let items = vec![bm("A", "https://a.io")];
    assert_eq!(load_bookmarks(Some(&encode_bookmarks(&items))), items);
}

#[test]
fn save_load_cycle_is_stable() {
    let items = vec![bm("Docs", "https://docs.rs"), bm("say \"hi\"", "https://a.io")];
    let first = load_bookmarks(Some(&encode_bookmarks(&items)));
    let second = load_bookmarks(Some(&encode_bookmarks(&first)));
    assert_eq!(first, items);
    assert_eq!(second, first);
}

#[test]
fn encoded_blob_is_valid_json_to_other_readers() {
    let items = vec![bm("say \"hi\"\n", "https://a.io/x\\y")];
    let blob = encode_bookmarks(&items);
    let value: serde_json::Value = serde_json::from_str(&blob).unwrap();
    let arr = value.as_array().unwrap();
    assert_eq!(arr.len(), 1);
    assert_eq!(arr[0].get("title").unwrap().as_str().unwrap(), "say \"hi\"\n");
    assert_eq!(arr[0].get("url").unwrap().as_str().unwrap(), "https://a.io/x\\y");
}

#[test]
fn parser_reads_what_serde_writes() {
    let mut obj = serde_json::Map::new();
    obj.insert(
        String::from("title"),
        serde_json::Value::String(String::from("a\nb\u{1}")),
    );
    obj.insert(
        String::from("url"),
        serde_json::Value::String(String::from("https://a.io")),
    );
    let arr = serde_json::Value::Array(vec![serde_json::Value::Object(obj)]);
    let blob = serde_json::to_string(&arr).unwrap();
    assert_eq!(parse_bookmarks(&blob), Some(vec![bm("a\nb\u{1}", "https://a.io")]));
}

#[test]
fn parser_accepts_json_whitespace_between_tokens() {
    let blob = " [ { \"title\" : \"A\" , \"url\" : \"https://a.io\" } ,\n  {\"title\":\"B\",\"url\":\"https://b.io\"} ]\t";
    assert_eq!(
        parse_bookmarks(blob),
        Some(vec![bm("A", "https://a.io"), bm("B", "https://b.io")])
    );
    assert_eq!(parse_bookmarks(" [ ] "), Some(Vec::new()));
    assert_eq!(parse_bookmarks("[]\n"), Some(Vec::new()));
}

#[test]
fn parser_accepts_either_key_order() {
    let blob = "[{\"url\":\"https://a.io\",\"title\":\"A\"}]";
    assert_eq!(parse_bookmarks(blob), Some(vec![bm("A", "https://a.io")]));
}

#[test]
fn parser_rejects_duplicate_or_unknown_keys() {
    assert_eq!(parse_bookmarks("[{\"title\":\"a\",\"title\":\"b\"}]"), None);
    assert_eq!(parse_bookmarks("[{\"url\":\"a\",\"url\":\"b\"}]"), None);
    assert_eq!(parse_bookmarks("[{\"name\":\"a\",\"url\":\"b\"}]"), None);
}
