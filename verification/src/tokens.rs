//! The access-token file and token checks.
//!
//! Each line of the file reads `timestamp,ident,token`, the token in base64.
//! A request names a token; it is accepted when some entry holds the same
//! bytes, and the entry's ident is what the request acts as.

use vstd::prelude::*;
use vstd::slice::slice_subrange;
use vstd::slice::slice_to_vec;
use crate::bytes::split_bytes;
use crate::bytes::split_on;
use crate::bytes::lemma_split_on_nonempty;
use crate::bytes::lemma_split_on_concat;
use crate::bytes::lemma_split_on_single;
use crate::bytes::views;
use crate::bytes::append_bytes;
use crate::codecs::base64_decoded;
use crate::codecs::base64_decode;
use crate::codecs::base64_url_encode;
use crate::codecs::base64_url_safe;
use crate::codecs::is_utf8;
use vstd::utf8::valid_utf8;

verus! {

/// The byte `\n`.
pub const NEWLINE: u8 = 10;

/// The byte `\r`.
pub const CARRIAGE_RETURN: u8 = 13;

/// The byte `,` that separates the fields of a line.
pub const COMMA: u8 = 44;

/// One entry of the token file: who the token belongs to, and its bytes.
pub struct AccessToken {
    pub ident: Vec<u8>,
    pub token: Vec<u8>,
}

/// Why a line of the token file was refused.
#[derive(Clone, Copy, Debug, PartialEq, Eq, Structural)]
pub enum LineFault {
    /// The line is not UTF-8 text.
    NotUtf8,
    /// The line has fewer than three comma-separated fields.
    MissingField,
    /// The third field is not valid base64.
    BadToken,
}

/// The first refused line of a token file (counting from 0) and why.
#[derive(Clone, Copy, Debug, PartialEq, Eq, Structural)]
pub struct TokenFileError {
    pub line: usize,
    pub fault: LineFault,
}

/// A line without the `\r` that ends it, if one does.
pub open spec fn strip_cr(line: Seq<u8>) -> Seq<u8> {
    if line.len() > 0 && line.last() == CARRIAGE_RETURN {
        line.drop_last()
    } else {
        line
    }
}

/// The lines of `text` as `BufRead::lines` yields them: split at `\n`, a
/// `\r` before the `\n` dropped, and no line after a final `\n`.
pub open spec fn text_lines(text: Seq<u8>) -> Seq<Seq<u8>> {
    let pieces = split_on(text, NEWLINE);
    let ended = pieces.drop_last().map_values(|l: Seq<u8>| strip_cr(l));
    if pieces.last().len() == 0 {
        ended
    } else {
        ended.push(pieces.last())
    }
}

/// The entry a line gives: its second field as the ident and its third field
/// decoded from base64 as the token. The line must be UTF-8 text.
pub open spec fn entry_of(line: Seq<u8>) -> Result<(Seq<u8>, Seq<u8>), LineFault> {
    let fields = split_on(line, COMMA);
    if !valid_utf8(line) {
        Err(LineFault::NotUtf8)
    } else if fields.len() < 3 {
        Err(LineFault::MissingField)
    } else {
        match base64_decoded(fields[2]) {
            Some(t) => Ok((fields[1], t)),
            None => Err(LineFault::BadToken),
        }
    }
}

/// The entries of a sequence of lines, or the first line refused and why.
pub open spec fn entries_of(lines: Seq<Seq<u8>>) -> Result<Seq<(Seq<u8>, Seq<u8>)>, (int, LineFault)>
    decreases lines.len(),
{
    if lines.len() == 0 {
        Ok(Seq::empty())
    } else {
        match entries_of(lines.drop_last()) {
            Err(e) => Err(e),
            Ok(prev) => match entry_of(lines.last()) {
                Ok(e) => Ok(prev.push(e)),
                Err(f) => Err((lines.len() - 1, f)),
            },
        }
    }
}

/// The entries of a token file.
pub open spec fn token_file(text: Seq<u8>) -> Result<Seq<(Seq<u8>, Seq<u8>)>, (int, LineFault)> {
    entries_of(text_lines(text))
}

/// The table's entries as pairs of ident and token.
pub open spec fn table_view(table: Seq<AccessToken>) -> Seq<(Seq<u8>, Seq<u8>)> {
    table.map_values(|t: AccessToken| (t.ident@, t.token@))
}

/// The ident of the first entry whose token is `token`.
pub open spec fn ident_for(table: Seq<(Seq<u8>, Seq<u8>)>, token: Seq<u8>) -> Option<Seq<u8>>
    decreases table.len(),
{
    if table.len() == 0 {
        None
    } else if table[0].1 == token {
        Some(table[0].0)
    } else {
        ident_for(table.skip(1), token)
    }
}

/// Once a prefix of the lines is refused, the whole is refused the same way.
proof fn lemma_entries_prefix_err(lines: Seq<Seq<u8>>, k: int)
    requires
        0 <= k <= lines.len(),
        entries_of(lines.take(k)) is Err,
    ensures
        entries_of(lines) == entries_of(lines.take(k)),
    decreases lines.len(),
{
    if k < lines.len() {
        assert(lines.drop_last().take(k) =~= lines.take(k));
        lemma_entries_prefix_err(lines.drop_last(), k);
    } else {
        assert(lines.take(k) =~= lines);
    }
}

/// Lines that are all accepted give one entry each.
proof fn lemma_entries_len(lines: Seq<Seq<u8>>)
    ensures
        entries_of(lines) matches Ok(es) ==> es.len() == lines.len(),
    decreases lines.len(),
{
    if lines.len() > 0 {
        lemma_entries_len(lines.drop_last());
    }
}

fn strip_cr_bytes(line: &Vec<u8>) -> (r: Vec<u8>)
    ensures
        r@ == strip_cr(line@),
{
    let n = line.len();
    if n > 0 && line[n - 1] == CARRIAGE_RETURN {
        let s = slice_subrange(line.as_slice(), 0, n - 1);
        assert(s@ =~= line@.drop_last());
        slice_to_vec(s)
    } else {
        slice_to_vec(line.as_slice())
    }
}

/// Splits `text` into lines as `BufRead::lines` does.
pub fn split_lines(text: &[u8]) -> (lines: Vec<Vec<u8>>)
    ensures
        views(lines@) == text_lines(text@),
{
    let pieces = split_bytes(text, NEWLINE);
    proof {
        lemma_split_on_nonempty(text@, NEWLINE);
    }
    let ghost pv = split_on(text@, NEWLINE);
    let ghost ended = pv.drop_last().map_values(|l: Seq<u8>| strip_cr(l));
    let n = pieces.len();
    assert(pieces@.len() == pv.len());
    let mut lines: Vec<Vec<u8>> = Vec::new();
    let mut i: usize = 0;
    while i < n - 1
        invariant
            n == pieces@.len(),
            n >= 1,
            i <= n - 1,
            views(pieces@) == pv,
            ended == pv.drop_last().map_values(|l: Seq<u8>| strip_cr(l)),
            views(lines@) == ended.take(i as int),
        decreases n - 1 - i,
    {
        assert(views(pieces@)[i as int] == pieces@[i as int]@);
        let l = strip_cr_bytes(&pieces[i]);
        let ghost before = lines@;
        lines.push(l);
        assert(views(lines@) =~= views(before).push(l@));
        assert(ended.take(i + 1) =~= ended.take(i as int).push(ended[i as int]));
        i = i + 1;
    }
    assert(ended.take((n - 1) as int) =~= ended);
    assert(views(pieces@)[n - 1] == pieces@[n - 1]@);
    if pieces[n - 1].len() > 0 {
        let last = slice_to_vec(pieces[n - 1].as_slice());
        let ghost before = lines@;
        lines.push(last);
        assert(views(lines@) =~= views(before).push(last@));
    }
    lines
}

/// Reads the access tokens from the token file's text: one entry per line,
/// in order. Refuses the file at its first line that is not UTF-8 text, has
/// fewer than three comma-separated fields, or whose third field is not
/// base64. No line is skipped, and a refused file gives no entries.
pub fn static_access_tokens(text: &[u8]) -> (r: Result<Vec<AccessToken>, TokenFileError>)
    ensures
        match r {
            Ok(table) => token_file(text@) == Ok::<_, (int, LineFault)>(table_view(table@)),
            Err(e) => token_file(text@) == Err::<Seq<(Seq<u8>, Seq<u8>)>, _>((e.line as int, e.fault)),
        },
{
    let lines = split_lines(text);
    let ghost lv = views(lines@);
    let mut table: Vec<AccessToken> = Vec::new();
    let mut i: usize = 0;
    assert(lv.take(0) =~= Seq::<Seq<u8>>::empty());
    assert(table_view(table@) =~= Seq::<(Seq<u8>, Seq<u8>)>::empty());
    while i < lines.len()
        invariant
            i <= lines@.len(),
            lv == views(lines@),
            lv == text_lines(text@),
            entries_of(lv.take(i as int)) == Ok::<_, (int, LineFault)>(table_view(table@)),
        decreases lines.len() - i,
    {
        let ghost prefix = lv.take(i + 1);
        assert(prefix.drop_last() =~= lv.take(i as int));
        assert(prefix.last() == lines@[i as int]@);
        if !is_utf8(lines[i].as_slice()) {
            proof {
                lemma_entries_prefix_err(lv, i + 1);
            }
            return Err(TokenFileError { line: i, fault: LineFault::NotUtf8 });
        }
        let fields = split_bytes(lines[i].as_slice(), COMMA);
        if fields.len() < 3 {
            proof {
                lemma_entries_prefix_err(lv, i + 1);
            }
            return Err(TokenFileError { line: i, fault: LineFault::MissingField });
        }
        assert(views(fields@)[2] == fields@[2]@);
        assert(views(fields@)[1] == fields@[1]@);
        match base64_decode(fields[2].as_slice()) {
            Err(_) => {
                proof {
                    lemma_entries_prefix_err(lv, i + 1);
                }
                return Err(TokenFileError { line: i, fault: LineFault::BadToken });
            },
            Ok(token) => {
                let ident = slice_to_vec(fields[1].as_slice());
                let ghost before = table@;
                table.push(AccessToken { ident, token });
                assert(table_view(table@) =~= table_view(before).push((ident@, token@)));
            },
        }
        i = i + 1;
    }
    assert(lv.take(lines@.len() as int) =~= lv);
    Ok(table)
}

/// The ident of the first entry whose token has the same bytes as `token`,
/// compared in constant time, or `None` where no entry holds it.
pub fn find_ident(table: &Vec<AccessToken>, token: &[u8]) -> (r: Option<Vec<u8>>)
    ensures
        match r {
            Some(id) => ident_for(table_view(table@), token@) == Some(id@),
            None => ident_for(table_view(table@), token@) is None,
        },
{
    let ghost tv = table_view(table@);
    let mut i: usize = 0;
    assert(tv.skip(0) =~= tv);
    while i < table.len()
        invariant
            i <= table@.len(),
            tv == table_view(table@),
            ident_for(tv.skip(i as int), token@) == ident_for(tv, token@),
        decreases table.len() - i,
    {
        let ghost rest = tv.skip(i as int);
        assert(rest[0] == (table@[i as int].ident@, table@[i as int].token@));
        if constant_time_eq::constant_time_eq(table[i].token.as_slice(), token) {
            return Some(slice_to_vec(table[i].ident.as_slice()));
        }
        assert(rest.skip(1) =~= tv.skip(i + 1));
        i = i + 1;
    }
    None
}


/// A token is accepted exactly when some entry holds it, and then the ident
/// given is that of the first such entry.
pub proof fn lemma_ident_for_first_entry(table: Seq<(Seq<u8>, Seq<u8>)>, token: Seq<u8>)
    ensures
        ident_for(table, token) is Some <==> exists|i: int| 0 <= i < table.len() && #[trigger] table[i].1 == token,
        ident_for(table, token) matches Some(id) ==> exists|i: int|
            0 <= i < table.len() && #[trigger] table[i].1 == token && table[i].0 == id && forall|j: int|
                0 <= j < i ==> table[j].1 != token,
    decreases table.len(),
{
    if table.len() > 0 {
        let rest = table.skip(1);
        lemma_ident_for_first_entry(rest, token);
        if table[0].1 == token {
            assert(table[0].1 == token);
        } else {
            if exists|i: int| 0 <= i < table.len() && #[trigger] table[i].1 == token {
                let i = choose|i: int| 0 <= i < table.len() && #[trigger] table[i].1 == token;
                assert(rest[i - 1].1 == token);
            }
            if ident_for(rest, token) is Some {
                let k = choose|k: int|
                    0 <= k < rest.len() && #[trigger] rest[k].1 == token && rest[k].0 == ident_for(rest, token)->0
                        && forall|j: int| 0 <= j < k ==> rest[j].1 != token;
                assert(table[k + 1].1 == token);
                assert forall|j: int| 0 <= j < k + 1 implies table[j].1 != token by {
                    if j > 0 {
                        assert(table[j] == rest[j - 1]);
                    }
                }
            }
        }
    }
}

/// A line of the token file: `timestamp,ident,encoded`.
pub open spec fn record_line(timestamp: Seq<u8>, ident: Seq<u8>, encoded: Seq<u8>) -> Seq<u8> {
    timestamp + seq![COMMA] + ident + seq![COMMA] + encoded
}

/// Whether a field can stand in a line of the token file as written: it
/// holds neither a comma nor a line break.
pub open spec fn plain_field(f: Seq<u8>) -> bool {
    forall|i: int| 0 <= i < f.len() ==> f[i] != COMMA && f[i] != NEWLINE && f[i] != CARRIAGE_RETURN
}

/// ASCII bytes are UTF-8 text.
pub proof fn lemma_ascii_valid_utf8(s: Seq<u8>)
    requires
        forall|i: int| 0 <= i < s.len() ==> #[trigger] s[i] < 128,
    ensures
        valid_utf8(s),
    decreases s.len(),
{
    if s.len() > 0 {
        let rest = s.subrange(1, s.len() as int);
        assert forall|i: int| 0 <= i < rest.len() implies #[trigger] rest[i] < 128 by {
            assert(rest[i] == s[i + 1]);
        }
        lemma_ascii_valid_utf8(rest);
        assert(vstd::utf8::pop_first_scalar(s) == rest);
    }
}

/// Makes the line `timestamp,ident,encoded` of the token file.
pub fn record_line_bytes(timestamp: &[u8], ident: &[u8], encoded: &[u8]) -> (r: Vec<u8>)
    ensures
        r@ == record_line(timestamp@, ident@, encoded@),
{
    let mut r: Vec<u8> = Vec::new();
    append_bytes(&mut r, timestamp);
    r.push(COMMA);
    append_bytes(&mut r, ident);
    r.push(COMMA);
    append_bytes(&mut r, encoded);
    assert(r@ =~= record_line(timestamp@, ident@, encoded@));
    r
}

/// Makes the line that records a new token for `ident`, issued at
/// `timestamp` (without the line's ending newline): the token stands in it
/// in URL-safe base64, which is a plain field.
pub fn format_token_line(timestamp: &[u8], ident: &[u8], token: &[u8]) -> (r: Vec<u8>)
    ensures
        r@ == record_line(timestamp@, ident@, base64_url_safe(token@)),
        plain_field(base64_url_safe(token@)),
        valid_utf8(base64_url_safe(token@)),
        base64_decoded(base64_url_safe(token@)) == Some(token@),
{
    let encoded = base64_url_encode(token);
    let r = record_line_bytes(timestamp, ident, encoded.as_slice());
    assert forall|i: int| 0 <= i < encoded@.len() implies encoded@[i] != COMMA && encoded@[i] != NEWLINE
        && encoded@[i] != CARRIAGE_RETURN by {
        assert(crate::codecs::is_url_safe_base64_byte(encoded@[i]));
    }
    proof {
        assert forall|i: int| 0 <= i < encoded@.len() implies #[trigger] encoded@[i] < 128 by {
            assert(crate::codecs::is_url_safe_base64_byte(encoded@[i]));
        }
        lemma_ascii_valid_utf8(encoded@);
    }
    r
}

/// Whether `text` is a sequence of whole lines: empty, or ending in `\n`.
pub open spec fn whole_lines(text: Seq<u8>) -> bool {
    text.len() == 0 || text.last() == NEWLINE
}

/// Reading a text that follows whole lines gives the lines of each part, one
/// after the other.
pub proof fn lemma_text_lines_concat(a: Seq<u8>, b: Seq<u8>)
    requires
        whole_lines(a),
    ensures
        text_lines(a + b) == text_lines(a) + text_lines(b),
{
    lemma_split_on_nonempty(b, NEWLINE);
    if a.len() == 0 {
        assert(a + b =~= b);
        assert(split_on(a, NEWLINE) =~= seq![Seq::<u8>::empty()]);
        assert(text_lines(a) =~= Seq::<Seq<u8>>::empty());
        assert(text_lines(a) + text_lines(b) =~= text_lines(b));
    } else {
        let a0 = a.drop_last();
        assert(a =~= a0 + seq![NEWLINE] + Seq::<u8>::empty());
        lemma_split_on_concat(a0, NEWLINE, Seq::<u8>::empty());
        assert(a + b =~= a0 + seq![NEWLINE] + b);
        lemma_split_on_concat(a0, NEWLINE, b);
        assert(split_on(Seq::<u8>::empty(), NEWLINE) =~= seq![Seq::<u8>::empty()]);
        let pa = split_on(a0, NEWLINE);
        let pb = split_on(b, NEWLINE);
        assert((pa + pb).drop_last() =~= pa + pb.drop_last());
        assert((pa + seq![Seq::<u8>::empty()]).drop_last() =~= pa);
        let f = |l: Seq<u8>| strip_cr(l);
        assert((pa + pb.drop_last()).map_values(f) =~= pa.map_values(f) + pb.drop_last().map_values(f));
        assert((pa + pb).last() == pb.last());
        if pb.last().len() == 0 {
            assert(text_lines(a + b) =~= text_lines(a) + text_lines(b));
        } else {
            assert(text_lines(a + b) =~= text_lines(a) + text_lines(b));
        }
    }
}

/// A last line without its newline is read as if the newline were there:
/// for a text of whole lines and a non-empty line `l` without `\n` (and not
/// ending in `\r`), the text followed by `l` holds the lines of the text
/// and then `l`, and reads as the same token file as with `l` and a final
/// `\n`.
pub proof fn lemma_unterminated_last_line(text: Seq<u8>, l: Seq<u8>)
    requires
        whole_lines(text),
        l.len() > 0,
        l.last() != CARRIAGE_RETURN,
        forall|i: int| 0 <= i < l.len() ==> l[i] != NEWLINE,
    ensures
        text_lines(text + l) == text_lines(text).push(l),
        text_lines(text + l + seq![NEWLINE]) == text_lines(text).push(l),
        token_file(text + l) == token_file(text + l + seq![NEWLINE]),
        token_file(text) matches Ok(prev) ==> token_file(text + l) == (match entry_of(l) {
            Ok(e) => Ok(prev.push(e)),
            Err(f) => Err((prev.len() as int, f)),
        }),
{
    lemma_split_on_single(l, NEWLINE);
    assert(l + seq![NEWLINE] =~= l + seq![NEWLINE] + Seq::<u8>::empty());
    lemma_split_on_concat(l, NEWLINE, Seq::<u8>::empty());
    assert(split_on(Seq::<u8>::empty(), NEWLINE) =~= seq![Seq::<u8>::empty()]);
    assert(text_lines(l) =~= seq![l]);
    assert(text_lines(l + seq![NEWLINE]) =~= seq![l]);
    lemma_text_lines_concat(text, l);
    lemma_text_lines_concat(text, l + seq![NEWLINE]);
    assert(text + l + seq![NEWLINE] =~= text + (l + seq![NEWLINE]));
    assert(text_lines(text) + seq![l] =~= text_lines(text).push(l));
    let ls = text_lines(text);
    assert(ls.push(l).drop_last() =~= ls);
    lemma_entries_len(ls);
}

/// A line made of UTF-8 fields is UTF-8 text.
proof fn lemma_record_line_utf8(timestamp: Seq<u8>, ident: Seq<u8>, encoded: Seq<u8>)
    requires
        valid_utf8(timestamp),
        valid_utf8(ident),
        valid_utf8(encoded),
    ensures
        valid_utf8(record_line(timestamp, ident, encoded)),
{
    let comma = seq![COMMA];
    lemma_ascii_valid_utf8(comma);
    vstd::utf8::valid_utf8_concat(timestamp, comma);
    vstd::utf8::valid_utf8_concat(timestamp + comma, ident);
    vstd::utf8::valid_utf8_concat(timestamp + comma + ident, comma);
    vstd::utf8::valid_utf8_concat(timestamp + comma + ident + comma, encoded);
}

/// A line made of plain UTF-8 fields splits into exactly those three fields,
/// and its entry is the ident with the decoded token.
pub proof fn lemma_record_line_fields(timestamp: Seq<u8>, ident: Seq<u8>, encoded: Seq<u8>)
    requires
        plain_field(timestamp),
        plain_field(ident),
        plain_field(encoded),
        valid_utf8(timestamp),
        valid_utf8(ident),
        valid_utf8(encoded),
    ensures
        split_on(record_line(timestamp, ident, encoded), COMMA) == seq![timestamp, ident, encoded],
        entry_of(record_line(timestamp, ident, encoded)) == (match base64_decoded(encoded) {
            Some(t) => Ok::<(Seq<u8>, Seq<u8>), LineFault>((ident, t)),
            None => Err(LineFault::BadToken),
        }),
{
    lemma_record_line_utf8(timestamp, ident, encoded);
    lemma_split_on_single(timestamp, COMMA);
    lemma_split_on_single(ident, COMMA);
    lemma_split_on_single(encoded, COMMA);
    lemma_split_on_concat(ident, COMMA, encoded);
    lemma_split_on_concat(timestamp, COMMA, ident + seq![COMMA] + encoded);
    assert(record_line(timestamp, ident, encoded) =~= timestamp + seq![COMMA] + (ident + seq![COMMA]
        + encoded));
    assert(seq![timestamp] + (seq![ident] + seq![encoded]) =~= seq![timestamp, ident, encoded]);
}

/// Appending a line of plain UTF-8 fields, and its newline, to a token file made
/// of whole lines adds exactly one entry at the end: the ident with the
/// decoded token; where the token does not decode, that line is the one
/// refused.
pub proof fn lemma_append_record(text: Seq<u8>, timestamp: Seq<u8>, ident: Seq<u8>, encoded: Seq<u8>)
    requires
        whole_lines(text),
        plain_field(timestamp),
        plain_field(ident),
        plain_field(encoded),
        valid_utf8(timestamp),
        valid_utf8(ident),
        valid_utf8(encoded),
    ensures
        token_file(text + record_line(timestamp, ident, encoded) + seq![NEWLINE]) == (match token_file(
            text,
        ) {
            Err(e) => Err(e),
            Ok(prev) => match base64_decoded(encoded) {
                Some(t) => Ok(prev.push((ident, t))),
                None => Err((prev.len() as int, LineFault::BadToken)),
            },
        }),
{
    let line = record_line(timestamp, ident, encoded);
    lemma_record_line_fields(timestamp, ident, encoded);
    assert forall|i: int| 0 <= i < line.len() implies line[i] != NEWLINE by {
        if i < timestamp.len() {
        } else if i == timestamp.len() {
        } else if i < timestamp.len() + 1 + ident.len() {
            assert(line[i] == ident[i - timestamp.len() - 1]);
        } else if i == timestamp.len() + 1 + ident.len() {
        } else {
            assert(line[i] == encoded[i - timestamp.len() - 2 - ident.len()]);
        }
    }
    lemma_split_on_single(line, NEWLINE);
    assert(line + seq![NEWLINE] =~= line + seq![NEWLINE] + Seq::<u8>::empty());
    lemma_split_on_concat(line, NEWLINE, Seq::<u8>::empty());
    assert(split_on(Seq::<u8>::empty(), NEWLINE) =~= seq![Seq::<u8>::empty()]);
    assert(line.len() > 0);
    assert(line.last() != CARRIAGE_RETURN) by {
        if encoded.len() > 0 {
            assert(line.last() == encoded.last());
        } else {
            assert(line.last() == COMMA);
        }
    }
    assert(text_lines(line + seq![NEWLINE]) =~= seq![line]);
    assert(text + line + seq![NEWLINE] =~= text + (line + seq![NEWLINE]));
    lemma_text_lines_concat(text, line + seq![NEWLINE]);
    let ls = text_lines(text);
    assert((ls + seq![line]).drop_last() =~= ls);
    assert(ls + seq![line] =~= ls.push(line));
    lemma_entries_len(ls);
    assert(ls.push(line).drop_last() =~= ls);
}


/// A token issued by appending its line to a token file is accepted once
/// the file is read again, as the ident of that line where no earlier entry
/// holds the same token. The premises on the encoded token are what
/// `format_token_line` ensures of the line it makes.
pub proof fn lemma_issued_token_accepted(text: Seq<u8>, timestamp: Seq<u8>, ident: Seq<u8>, token: Seq<u8>)
    requires
        whole_lines(text),
        plain_field(timestamp),
        plain_field(ident),
        plain_field(base64_url_safe(token)),
        valid_utf8(timestamp),
        valid_utf8(ident),
        valid_utf8(base64_url_safe(token)),
        token_file(text) is Ok,
        base64_decoded(base64_url_safe(token)) == Some(token),
    ensures
        token_file(text + record_line(timestamp, ident, base64_url_safe(token)) + seq![NEWLINE]) matches Ok(
            table,
        ) && ident_for(table, token) is Some && (ident_for(token_file(text)->Ok_0, token) is None
            ==> ident_for(table, token) == Some(ident)),
{
    let prev = token_file(text)->Ok_0;
    lemma_append_record(text, timestamp, ident, base64_url_safe(token));
    let table = prev.push((ident, token));
    lemma_ident_for_first_entry(table, token);
    lemma_ident_for_first_entry(prev, token);
    assert(table[prev.len() as int].1 == token);
    if ident_for(prev, token) is None {
        let i = choose|i: int|
            0 <= i < table.len() && #[trigger] table[i].1 == token && table[i].0 == ident_for(table, token)->0
                && forall|j: int| 0 <= j < i ==> table[j].1 != token;
        if i < prev.len() {
            assert(prev[i].1 == token);
        }
    }
}

} // verus!
