use oc_back::bytes::replace_bytes;
use oc_back::bytes::split_bytes;
use oc_back::tokens::find_ident;
use oc_back::tokens::format_token_line;
use oc_back::tokens::record_line_bytes;
use oc_back::tokens::split_lines;
use oc_back::tokens::static_access_tokens;
use oc_back::tokens::AccessToken;
use oc_back::tokens::LineFault;
use oc_back::tokens::TokenFileError;

fn entry(ident: &[u8], token: &[u8]) -> AccessToken {
    AccessToken { ident: ident.to_vec(), token: token.to_vec() }
}

#[test]
fn split_bytes_keeps_empty_pieces() {
    let pieces = split_bytes(b",a,,b,", b',');
    assert_eq!(pieces, vec![b"".to_vec(), b"a".to_vec(), b"".to_vec(), b"b".to_vec(), b"".to_vec()]);
    assert_eq!(split_bytes(b"", b','), vec![Vec::<u8>::new()]);
}

#[test]
fn lines_drop_cr_before_newline_only() {
    let lines = split_lines(b"one\r\ntwo\n\nthree\r");
    assert_eq!(lines, vec![b"one".to_vec(), b"two".to_vec(), b"".to_vec(), b"three\r".to_vec()]);
    assert_eq!(split_lines(b"a\n"), vec![b"a".to_vec()]);
    assert_eq!(split_lines(b""), Vec::<Vec<u8>>::new());
}

#[test]
fn replace_takes_leftmost_non_overlapping_matches() {
    assert_eq!(replace_bytes(b"aaaa", b"aa", b"b"), b"bb".to_vec());
    assert_eq!(replace_bytes(b"x{{host}}y{{host}}", b"{{host}}", b"H"), b"xHyH".to_vec());
    assert_eq!(replace_bytes(b"abc", b"", b"Z"), b"abc".to_vec());
    assert_eq!(replace_bytes(b"{{hos", b"{{host}}", b"H"), b"{{hos".to_vec());
}

#[test]
fn token_file_reads_each_line() {
    let text = b"2020-01-01T00:00:00Z,alice,aGVsbG8\r\n2020-01-02T00:00:00Z,bob,d29ybGQ=,extra\n";
    let table = static_access_tokens(text).unwrap();
    assert_eq!(table.len(), 2);
    assert_eq!(table[0].ident, b"alice".to_vec());
    assert_eq!(table[0].token, b"hello".to_vec());
    assert_eq!(table[1].ident, b"bob".to_vec());
    assert_eq!(table[1].token, b"world".to_vec());
}

#[test]
fn token_file_refuses_short_line() {
    let text = b"t,alice,aGVsbG8\n\nt,bob,d29ybGQ\n";
    let err = static_access_tokens(text).err().unwrap();
    assert_eq!(err, TokenFileError { line: 1, fault: LineFault::MissingField });
    let err = static_access_tokens(b"t,only\n").err().unwrap();
    assert_eq!(err, TokenFileError { line: 0, fault: LineFault::MissingField });
}

#[test]
fn token_file_refuses_bad_base64() {
    let text = b"t,alice,aGVsbG8\nt,bob,!!!!\n";
    let err = static_access_tokens(text).err().unwrap();
    assert_eq!(err, TokenFileError { line: 1, fault: LineFault::BadToken });
    let err = static_access_tokens(b"t,carol,a\n").err().unwrap();
    assert_eq!(err, TokenFileError { line: 0, fault: LineFault::BadToken });
}

#[test]
fn empty_token_file_has_no_entries() {
    assert_eq!(static_access_tokens(b"").unwrap().len(), 0);
}

#[test]
fn find_ident_takes_first_match() {
    let table = vec![entry(b"alice", b"k1"), entry(b"bob", b"k2"), entry(b"carol", b"k2")];
    assert_eq!(find_ident(&table, b"k2"), Some(b"bob".to_vec()));
    assert_eq!(find_ident(&table, b"k1"), Some(b"alice".to_vec()));
    assert_eq!(find_ident(&table, b"k3"), None);
    assert_eq!(find_ident(&table, b"k"), None);
    assert_eq!(find_ident(&Vec::new(), b"k1"), None);
}

#[test]
fn token_line_uses_url_safe_base64() {
    let line = format_token_line(b"2020-01-01T00:00:00Z", b"dave", &[0xfb, 0xff]);
    assert_eq!(line, b"2020-01-01T00:00:00Z,dave,-_8".to_vec());
    let line = format_token_line(b"t", b"erin", b"hello");
    assert_eq!(line, b"t,erin,aGVsbG8".to_vec());
}

#[test]
fn appended_token_line_reads_back() {
    let mut text = b"t0,alice,aGVsbG8\n".to_vec();
    let token: Vec<u8> = (0u8..36).map(|i| i.wrapping_mul(37)).collect();
    let line = format_token_line(b"2021-05-05T10:00:00+00:00", b"frank", &token);
    text.extend_from_slice(&line);
    text.push(b'\n');
    let table = static_access_tokens(&text).unwrap();
    assert_eq!(table.len(), 2);
    assert_eq!(table[1].ident, b"frank".to_vec());
    assert_eq!(table[1].token, token);
    assert_eq!(find_ident(&table, &token), Some(b"frank".to_vec()));
}

#[test]
fn record_line_joins_fields_with_commas() {
    assert_eq!(record_line_bytes(b"t", b"id", b"enc"), b"t,id,enc".to_vec());
    assert_eq!(record_line_bytes(b"", b"", b""), b",,".to_vec());
}

#[test]
fn token_file_refuses_text_that_is_not_utf8() {
    let text = b"t,alice,aGVsbG8\nt,b\xffb,aGVsbG8\n";
    let err = static_access_tokens(text).err().unwrap();
    assert_eq!(err, TokenFileError { line: 1, fault: LineFault::NotUtf8 });
    let text = b"\xc3\n";
    let err = static_access_tokens(text).err().unwrap();
    assert_eq!(err, TokenFileError { line: 0, fault: LineFault::NotUtf8 });
    let table = static_access_tokens("t,j\u{f6}rg,aGVsbG8\n".as_bytes()).unwrap();
    assert_eq!(table[0].ident, "j\u{f6}rg".as_bytes().to_vec());
}

#[test]
fn token_file_refuses_trailing_blank_line() {
    let err = static_access_tokens(b"a,alice,QUJD\n\n").err().unwrap();
    assert_eq!(err, TokenFileError { line: 1, fault: LineFault::MissingField });
    let table = static_access_tokens(b"a,alice,QUJD\n").unwrap();
    assert_eq!(table[0].token, b"ABC".to_vec());
}
