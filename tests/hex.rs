use static_httpd::hex::{hex_to_byte, url_decoding};

#[test]
fn test_url_coding() {
    let chinese = "小站小记";
    let mut url = String::new();
    for b in chinese.as_bytes() {
        url = url + &format!("%{:02X}", b)
    }
    println!("url:{:?}", url);
    let decoded = url_decoding(url).ok().unwrap();
    println!("chinese:{:?}", decoded);
    assert_eq!(decoded, chinese);
}

#[test]
fn decodes_two_chinese_characters_byte_for_byte() {
    let decoded = url_decoding("%E4%BD%A0%E5%A5%BD".to_string()).ok().unwrap();
    assert_eq!(decoded, "你好");
    assert_eq!(decoded.as_bytes(), &[0xE4, 0xBD, 0xA0, 0xE5, 0xA5, 0xBD]);
}

#[test]
fn decoding_keeps_plain_text_and_reads_lower_case_digits() {
    assert_eq!(url_decoding("/a/b?x=1".to_string()).ok().unwrap(), "/a/b?x=1");
    assert_eq!(url_decoding("/a%20b%2fc".to_string()).ok().unwrap(), "/a b/c");
    assert_eq!(url_decoding(String::new()).ok().unwrap(), "");
}

#[test]
fn decoding_rejects_a_broken_escape() {
    let e = url_decoding("/a%2".to_string()).err().unwrap();
    assert_eq!(e.kind, "decode");
    let e = url_decoding("/a%zz".to_string()).err().unwrap();
    assert_eq!(e.kind, "decode");
}

#[test]
fn decoding_rejects_bytes_that_are_not_utf8() {
    let e = url_decoding("%E4%BD".to_string()).err().unwrap();
    assert_eq!(e.kind, "utf8");
    let e = url_decoding("%FF".to_string()).err().unwrap();
    assert_eq!(e.kind, "utf8");
}

#[test]
fn hex_pairs_give_their_byte() {
    assert_eq!(hex_to_byte(b'E', b'4'), Some(0xE4));
    assert_eq!(hex_to_byte(b'a', b'f'), Some(0xAF));
    assert_eq!(hex_to_byte(b'0', b'0'), Some(0));
    assert_eq!(hex_to_byte(b'g', b'0'), None);
}
