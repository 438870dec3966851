use rpd::validate::{validate_json, ValidationError, UNBALANCED_COMMENT};

#[test]
fn whitespace_between_tokens_is_removed() {
    let out = validate_json("b.json", b"{ \"x\" : 1 }", false).unwrap();
    assert_eq!(out, "{\"x\":1}");
}

#[test]
fn nested_documents_are_minified() {
    let text = b"{\n  \"pack\": {\n    \"pack_format\": 15,\n    \"description\": \"a pack\"\n  },\n  \"list\": [ 1, 2 , 3 ],\n  \"flag\": true,\n  \"none\": null\n}\n";
    let out = validate_json("pack.mcmeta", text, false).unwrap();
    assert_eq!(
        out,
        "{\"pack\":{\"pack_format\":15,\"description\":\"a pack\"},\"list\":[1,2,3],\"flag\":true,\"none\":null}"
    );
}

#[test]
fn members_keep_the_order_of_the_text() {
    let out = validate_json("o.json", b"{ \"b\": 1, \"a\": 2, \"c\": 3 }", false).unwrap();
    assert_eq!(out, "{\"b\":1,\"a\":2,\"c\":3}");
}

#[test]
fn numbers_keep_their_digits() {
    let out = validate_json("n.json", b"[ 1.50, 0.10e+2, -0, 12345678901234567890123 ]", false).unwrap();
    assert_eq!(out, "[1.50,0.10e+2,-0,12345678901234567890123]");
}

#[test]
fn an_exponent_is_written_with_its_sign() {
    let once = validate_json("n.json", b"[ 1e5, 2E-3 ]", false).unwrap();
    assert_eq!(once, "[1e+5,2e-3]");
    assert_eq!(validate_json("n.json", once.as_bytes(), false).unwrap(), once);
}

#[test]
fn whitespace_inside_strings_is_kept() {
    let out = validate_json("s.json", b"{ \"a b\" : \" x  y \" }", false).unwrap();
    assert_eq!(out, "{\"a b\":\" x  y \"}");
}

#[test]
fn minifying_twice_changes_nothing_more() {
    let once = validate_json("b.json", b"{ \"x\" : [ 1 , 2.5 , \"t\" ] , \"y\" : { } }", false).unwrap();
    let twice = validate_json("b.json", once.as_bytes(), false).unwrap();
    assert_eq!(once, "{\"x\":[1,2.5,\"t\"],\"y\":{}}");
    assert_eq!(twice, once);
    let thrice = validate_json("b.json", twice.as_bytes(), true).unwrap();
    assert_eq!(thrice, once);
}

#[test]
fn comments_are_stripped_where_they_are_allowed() {
    let with = b"{\n  // a line comment\n  \"a\": 1, /* a block\n comment */ \"b\": [2, 3]\n}";
    let without = b"{\n  \n  \"a\": 1,  \"b\": [2, 3]\n}";
    let stripped = validate_json("x.jsonc", with, true).unwrap();
    let plain = validate_json("x.jsonc", without, false).unwrap();
    assert_eq!(stripped, "{\"a\":1,\"b\":[2,3]}");
    assert_eq!(stripped, plain);
}

#[test]
fn comments_are_an_error_where_they_are_not_allowed() {
    let with = b"{ // a line comment\n \"a\": 1 }";
    let failure = validate_json("x.json", with, false).unwrap_err();
    assert_eq!(failure.path, "x.json");
    assert!(!failure.message.is_empty());
}

#[test]
fn comment_signs_inside_strings_are_kept() {
    let text = b"{ \"url\": \"http://example.org/*x*/\" } // end";
    let out = validate_json("u.jsonc", text, true).unwrap();
    assert_eq!(out, "{\"url\":\"http://example.org/*x*/\"}");
}

#[test]
fn hash_comments_are_stripped_too() {
    let out = validate_json("h.jsonc", b"# head\n[1, 2] # tail", true).unwrap();
    assert_eq!(out, "[1,2]");
}

#[test]
fn malformed_json_is_a_validation_error() {
    let failure = validate_json("assets/bad.json", b"{\"a\":}", false).unwrap_err();
    assert_eq!(failure.path, "assets/bad.json");
    assert!(failure.message.contains("line 1 column 6"));
}

#[test]
fn malformed_json_with_comments_is_a_validation_error() {
    let failure = validate_json("bad.jsonc", b"/* c */ {\"a\":}", true).unwrap_err();
    assert_eq!(failure.path, "bad.jsonc");
    assert!(failure.message.contains("line 1"));
}

#[test]
fn open_comment_is_a_validation_error() {
    let failure = validate_json("open.jsonc", b"{\"a\": 1} /* never closed", true).unwrap_err();
    assert_eq!(failure.path, "open.jsonc");
    assert_eq!(failure.message, UNBALANCED_COMMENT);
}

#[test]
fn lone_slash_is_a_validation_error() {
    let failure = validate_json("slash.jsonc", b"{\"a\": 1} / 2", true).unwrap_err();
    assert_eq!(failure.message, UNBALANCED_COMMENT);
}

#[test]
fn empty_text_is_a_validation_error() {
    assert!(validate_json("e.json", b"", false).is_err());
    assert!(validate_json("e.jsonc", b"", true).is_err());
    assert!(validate_json("e.jsonc", b"// only a comment", true).is_err());
}

#[test]
fn trailing_text_is_a_validation_error() {
    assert!(validate_json("t.json", b"{} {}", false).is_err());
    assert!(validate_json("t.json", b"[1,]", false).is_err());
}

#[test]
fn bytes_that_are_no_utf8_are_a_validation_error() {
    assert!(validate_json("u.json", &[b'"', 0xff, 0xfe, b'"'], false).is_err());
    assert!(validate_json("u.json", &[0xff], false).is_err());
}

#[test]
fn scalars_are_documents() {
    assert_eq!(validate_json("s.json", b" true ", false).unwrap(), "true");
    assert_eq!(validate_json("s.json", b"\t\"t\"\n", false).unwrap(), "\"t\"");
    assert_eq!(validate_json("s.json", b" 7", false).unwrap(), "7");
}

#[test]
fn text_beyond_ascii_is_kept() {
    let out = validate_json("l.json", "{ \"name\" : \"Größe 日本\" }".as_bytes(), false).unwrap();
    assert_eq!(out, "{\"name\":\"Größe 日本\"}");
}

#[test]
fn an_error_holds_path_and_message() {
    let failure = ValidationError::new("a/b.json", "expected value".to_string());
    assert_eq!(failure.path, "a/b.json");
    assert_eq!(failure.message, "expected value");
}
