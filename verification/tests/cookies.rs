use os3_bridge::cookies::{absorb_cookies, cookie_header, CookieJar};

fn raw(values: &[&str]) -> Vec<Vec<u8>> {
    values.iter().map(|v| v.as_bytes().to_vec()).collect()
}

#[test]
fn an_empty_jar_gives_an_empty_header() {
    assert_eq!(cookie_header(&CookieJar::new()), "");
}

#[test]
fn attributes_are_dropped_and_pairs_are_trimmed() {
    let mut jar = CookieJar::new();
    absorb_cookies(
        &mut jar,
        &raw(&["os3_session= abc=d ; Path=/; HttpOnly", " flow =1", "noequals; a=b", ";x=y", "=v"]),
    );
    assert_eq!(cookie_header(&jar), "os3_session=abc=d; flow=1; =v");
}

#[test]
fn a_later_cookie_replaces_the_one_of_its_name() {
    let mut jar = CookieJar::new();
    absorb_cookies(&mut jar, &raw(&["a=1", "b=2", "a=3"]));
    assert_eq!(cookie_header(&jar), "a=3; b=2");
    jar.insert("b".to_string(), "4".to_string());
    jar.insert("c".to_string(), "5".to_string());
    assert_eq!(cookie_header(&jar), "a=3; b=4; c=5");
    assert_eq!(cookie_header(&jar.copy()), "a=3; b=4; c=5");
}

#[test]
fn values_that_are_no_text_are_skipped() {
    let mut jar = CookieJar::new();
    absorb_cookies(
        &mut jar,
        &vec![b"a=\xe9".to_vec(), b"b=\x7f".to_vec(), b"c=\n".to_vec(), b"d=\t1".to_vec(), vec![]],
    );
    assert_eq!(cookie_header(&jar), "d=1");
}

#[test]
fn every_byte_is_judged_as_the_header_type_judges_it() {
    for byte in 0..=255u8 {
        let mut jar = CookieJar::new();
        absorb_cookies(&mut jar, &vec![vec![b'k', b'=', b'a', byte, b'b']]);
        let readable = (32..127).contains(&byte) || byte == 9;
        let value = match byte {
            b';' => "k=a".to_string(),
            _ => format!("k=a{}b", byte as char),
        };
        assert_eq!(cookie_header(&jar), if readable { value } else { String::new() });
    }
}
