//! Persistence of the local manifest: a stable, human-readable JSON form,
//! written and read by this module alone. The encoder and the parser are
//! verified against one another: parsing an encoded manifest yields the
//! manifest unchanged.
//!
//! The persisted object is
//! `{"pathInstallLocation":…,"gameId":…,"gameTitle":…,"gameBinarySize":…,
//! "version":…,"files":[{"name":…,"hash":…,"size":…},…]}`; strings escape
//! only the quote and the backslash, numbers are plain decimal. The parser
//! accepts that object with any amount of JSON whitespace between tokens;
//! the encoder emits none.

use vstd::prelude::*;
use vstd::string::StrSliceExecFns;

use crate::manifest::{FileDetails, FileRec, GameManifestLocal, LocalRec, views_of};
use crate::pipeline::SyncError;
use crate::strutil::push_char;

verus! {

// ---------------------------------------------------------------------------
// The encoded form, as specification functions.
// ---------------------------------------------------------------------------

/// How one character appears inside an encoded string: quote and backslash
/// are escaped with a backslash, everything else stands for itself.
pub open spec fn esc_char(c: char) -> Seq<char> {
    if c == '"' || c == '\\' {
        seq!['\\', c]
    } else {
        seq![c]
    }
}

/// The escaped body of a string.
pub open spec fn esc(s: Seq<char>) -> Seq<char>
    decreases s.len(),
{
    if s.len() == 0 {
        Seq::<char>::empty()
    } else {
        esc_char(s[0]) + esc(s.drop_first())
    }
}

/// A string value: the escaped body between quotes.
pub open spec fn enc_string(s: Seq<char>) -> Seq<char> {
    seq!['"'] + esc(s) + seq!['"']
}

/// The decimal digit character for a value below ten.
pub open spec fn digit_char(d: nat) -> char {
    if d == 0 {
        '0'
    } else if d == 1 {
        '1'
    } else if d == 2 {
        '2'
    } else if d == 3 {
        '3'
    } else if d == 4 {
        '4'
    } else if d == 5 {
        '5'
    } else if d == 6 {
        '6'
    } else if d == 7 {
        '7'
    } else if d == 8 {
        '8'
    } else {
        '9'
    }
}

/// The numeric value of a decimal digit character; ten for any other
/// character, which no digit position ever holds.
pub open spec fn dval(c: char) -> nat {
    if c == '0' {
        0
    } else if c == '1' {
        1
    } else if c == '2' {
        2
    } else if c == '3' {
        3
    } else if c == '4' {
        4
    } else if c == '5' {
        5
    } else if c == '6' {
        6
    } else if c == '7' {
        7
    } else if c == '8' {
        8
    } else if c == '9' {
        9
    } else {
        10
    }
}

/// Whether a character is a decimal digit.
pub open spec fn is_digit(c: char) -> bool {
    dval(c) < 10
}

/// The decimal rendering of a number, most significant digit first, with
/// no leading zeros (a lone zero for zero).
pub open spec fn dec_digits(n: nat) -> Seq<char>
    decreases n,
{
    if n < 10 {
        seq![digit_char(n)]
    } else {
        dec_digits(n / 10) + seq![digit_char(n % 10)]
    }
}

/// A number value.
pub open spec fn enc_u64(n: u64) -> Seq<char> {
    dec_digits(n as nat)
}

/// One file entry.
pub open spec fn enc_entry(f: FileRec) -> Seq<char> {
    "{\"name\":"@ + enc_string(f.name) + ",\"hash\":"@ + enc_string(f.hash) + ",\"size\":"@
        + enc_u64(f.size) + "}"@
}

/// The comma-separated entry list.
pub open spec fn enc_files(fs: Seq<FileRec>) -> Seq<char>
    decreases fs.len(),
{
    if fs.len() == 0 {
        Seq::<char>::empty()
    } else if fs.len() == 1 {
        enc_entry(fs[0])
    } else {
        enc_entry(fs[0]) + seq![','] + enc_files(fs.drop_first())
    }
}

/// The whole persisted manifest.
pub open spec fn encode_manifest(m: LocalRec) -> Seq<char> {
    "{\"pathInstallLocation\":"@ + enc_string(m.path_install_location) + ",\"gameId\":"@
        + enc_u64(m.game_id) + ",\"gameTitle\":"@ + enc_string(m.game_title)
        + ",\"gameBinarySize\":"@ + enc_u64(m.game_binary_size) + ",\"version\":"@ + enc_string(
        m.version,
    ) + ",\"files\":["@ + enc_files(m.files) + "]}"@
}

// ---------------------------------------------------------------------------
// The encoder.
// ---------------------------------------------------------------------------

/// Escaping a string one character longer escapes the extra character at
/// the end.
proof fn lemma_esc_snoc(s: Seq<char>, c: char)
    ensures
        esc(s.push(c)) == esc(s) + esc_char(c),
    decreases s.len(),
{
    if s.len() == 0 {
        assert(s.push(c)[0] == c);
        assert(s.push(c).drop_first() =~= Seq::<char>::empty());
        assert(esc(Seq::<char>::empty()) == Seq::<char>::empty());
        assert(esc(s) == Seq::<char>::empty());
        assert(esc(s.push(c)) == esc_char(c) + esc(Seq::<char>::empty()));
        assert(esc(s.push(c)) =~= esc(s) + esc_char(c));
    } else {
        assert(s.push(c)[0] == s[0]);
        assert(s.push(c).drop_first() =~= s.drop_first().push(c));
        lemma_esc_snoc(s.drop_first(), c);
        assert(esc(s.push(c)) == esc_char(s[0]) + esc(s.drop_first().push(c)));
        assert(esc_char(s[0]) + (esc(s.drop_first()) + esc_char(c)) =~= (esc_char(s[0]) + esc(
            s.drop_first(),
        )) + esc_char(c));
        assert(esc(s) == esc_char(s[0]) + esc(s.drop_first()));
    }
}

/// Appends the escaped body of `s` to `out`.
fn push_escaped(out: &mut String, s: &str)
    ensures
        final(out)@ == old(out)@ + esc(s@),
{
    let len = s.unicode_len();
    let mut i: usize = 0;
    proof {
        assert(s@.take(0) =~= Seq::<char>::empty());
        assert(out@ =~= out@ + esc(s@.take(0)));
    }
    while i < len
        invariant
            i <= len,
            len == s@.len(),
            out@ == old(out)@ + esc(s@.take(i as int)),
        decreases len - i,
    {
        let c = s.get_char(i);
        let ghost pre = out@;
        if c == '"' || c == '\\' {
            push_char(out, '\\');
            push_char(out, c);
        } else {
            push_char(out, c);
        }
        proof {
            assert(s@.take(i as int + 1) =~= s@.take(i as int).push(s@[i as int]));
            lemma_esc_snoc(s@.take(i as int), s@[i as int]);
            assert(out@ =~= pre + esc_char(s@[i as int]));
            assert(out@ =~= old(out)@ + esc(s@.take(i as int + 1)));
        }
        i += 1;
    }
    proof {
        assert(s@.take(s@.len() as int) =~= s@);
    }
}

/// Appends an encoded string value to `out`.
fn push_string_value(out: &mut String, s: &str)
    ensures
        final(out)@ == old(out)@ + enc_string(s@),
{
    push_char(out, '"');
    push_escaped(out, s);
    push_char(out, '"');
    proof {
        assert(out@ =~= old(out)@ + enc_string(s@));
    }
}

/// Appends the decimal rendering of `n` to `out`.
fn push_u64_value(out: &mut String, n: u64)
    ensures
        final(out)@ == old(out)@ + enc_u64(n),
    decreases n,
{
    if n < 10 {
        push_char(out, digit_char_of(n));
    } else {
        push_u64_value(out, n / 10);
        push_char(out, digit_char_of(n % 10));
        proof {
            assert(out@ =~= old(out)@ + (dec_digits(n as nat / 10) + seq![
                digit_char(n as nat % 10),
            ]));
        }
    }
}

/// Executable counterpart of [`digit_char`].
fn digit_char_of(d: u64) -> (c: char)
    requires
        d < 10,
    ensures
        c == digit_char(d as nat),
{
    match d {
        0 => '0',
        1 => '1',
        2 => '2',
        3 => '3',
        4 => '4',
        5 => '5',
        6 => '6',
        7 => '7',
        8 => '8',
        _ => '9',
    }
}

/// Appends one encoded file entry to `out`.
fn push_entry(out: &mut String, f: &FileDetails)
    ensures
        final(out)@ == old(out)@ + enc_entry(f@),
{
    out.append("{\"name\":");
    push_string_value(out, f.name.as_str());
    out.append(",\"hash\":");
    push_string_value(out, f.hash.as_str());
    out.append(",\"size\":");
    push_u64_value(out, f.size);
    out.append("}");
    proof {
        assert(out@ =~= old(out)@ + enc_entry(f@));
    }
}

/// Appends the encoded entries from position `i` on, comma-separated.
fn push_files(out: &mut String, files: &Vec<FileDetails>, i: usize)
    requires
        i <= files@.len(),
    ensures
        final(out)@ == old(out)@ + enc_files(views_of(files@).skip(i as int)),
    decreases files@.len() - i,
{
    let ghost fs = views_of(files@).skip(i as int);
    if i == files.len() {
        proof {
            assert(fs.len() == 0);
            assert(out@ =~= old(out)@ + enc_files(fs));
        }
        return ;
    }
    push_entry(out, &files[i]);
    proof {
        assert(fs[0] == views_of(files@)[i as int]);
    }
    if i + 1 == files.len() {
        proof {
            assert(fs.len() == 1);
            assert(out@ =~= old(out)@ + enc_files(fs));
        }
        return ;
    }
    out.append(",");
    push_files(out, files, i + 1);
    proof {
        reveal_strlit(",");
        assert(","@ =~= seq![',']);
        assert(views_of(files@).skip(i as int + 1) =~= fs.drop_first());
        assert(fs.len() > 1);
        assert(out@ =~= old(out)@ + (enc_entry(fs[0]) + seq![','] + enc_files(fs.drop_first())));
    }
}

/// Serializes a manifest to its stable persisted form. Writing the result
/// to the manifest file inside the install directory is the caller's step.
pub fn manifest_to_json(manifest: &GameManifestLocal) -> (r: String)
    ensures
        r@ == encode_manifest(manifest@),
{
    let mut out = String::new();
    out.append("{\"pathInstallLocation\":");
    push_string_value(&mut out, manifest.pathInstallLocation.as_str());
    out.append(",\"gameId\":");
    push_u64_value(&mut out, manifest.gameId);
    out.append(",\"gameTitle\":");
    push_string_value(&mut out, manifest.gameTitle.as_str());
    out.append(",\"gameBinarySize\":");
    push_u64_value(&mut out, manifest.gameBinarySize);
    out.append(",\"version\":");
    push_string_value(&mut out, manifest.version.as_str());
    out.append(",\"files\":[");
    push_files(&mut out, &manifest.files, 0);
    out.append("]}");
    proof {
        assert(views_of(manifest.files@).skip(0) =~= manifest@.files);
        assert(out@ =~= encode_manifest(manifest@));
    }
    out
}

// ---------------------------------------------------------------------------
// The accepted form, as specification parsers. Each consumes a prefix of
// its input and yields the value together with the remainder.
// ---------------------------------------------------------------------------

/// Consumes the exact literal `lit`.
pub open spec fn p_lit(s: Seq<char>, lit: Seq<char>) -> Option<Seq<char>> {
    if lit.len() <= s.len() && s.take(lit.len() as int) == lit {
        Some(s.skip(lit.len() as int))
    } else {
        None
    }
}

/// Consumes a string body up to its closing quote, undoing the escapes.
pub open spec fn p_str_body(s: Seq<char>) -> Option<(Seq<char>, Seq<char>)>
    decreases s.len(),
{
    if s.len() == 0 {
        None
    } else if s[0] == '"' {
        Some((Seq::<char>::empty(), s.drop_first()))
    } else if s[0] == '\\' {
        if s.len() >= 2 && (s[1] == '"' || s[1] == '\\') {
            match p_str_body(s.skip(2)) {
                Some((t, rem)) => Some((seq![s[1]] + t, rem)),
                None => None,
            }
        } else {
            None
        }
    } else {
        match p_str_body(s.drop_first()) {
            Some((t, rem)) => Some((seq![s[0]] + t, rem)),
            None => None,
        }
    }
}

/// Consumes a quoted string value.
pub open spec fn p_string(s: Seq<char>) -> Option<(Seq<char>, Seq<char>)> {
    if s.len() > 0 && s[0] == '"' {
        p_str_body(s.drop_first())
    } else {
        None
    }
}

/// Folds decimal digits into `acc` until the first non-digit.
pub open spec fn p_digits(s: Seq<char>, acc: nat) -> (nat, Seq<char>)
    decreases s.len(),
{
    if s.len() > 0 && is_digit(s[0]) {
        p_digits(s.drop_first(), acc * 10 + dval(s[0]))
    } else {
        (acc, s)
    }
}

/// Consumes a number value that fits in a `u64`.
pub open spec fn p_u64(s: Seq<char>) -> Option<(u64, Seq<char>)> {
    if s.len() > 0 && is_digit(s[0]) {
        let (v, rem) = p_digits(s, 0);
        if v <= u64::MAX {
            Some((v as u64, rem))
        } else {
            None
        }
    } else {
        None
    }
}

/// Whether a character is JSON whitespace.
pub open spec fn is_ws(c: char) -> bool {
    c == ' ' || c == '\t' || c == '\n' || c == '\r'
}

/// Consumes leading whitespace.
pub open spec fn p_ws(s: Seq<char>) -> Seq<char>
    decreases s.len(),
{
    if s.len() > 0 && is_ws(s[0]) {
        p_ws(s.drop_first())
    } else {
        s
    }
}

/// Consumes whitespace, then the exact token `lit`.
pub open spec fn p_tok(s: Seq<char>, lit: Seq<char>) -> Option<Seq<char>> {
    p_lit(p_ws(s), lit)
}

/// Consumes an object's opening brace, its first key, and the colon,
/// tolerating whitespace between them.
pub open spec fn p_first_key(s: Seq<char>, key: Seq<char>) -> Option<Seq<char>> {
    match p_tok(s, "{"@) {
        None => None,
        Some(s1) => match p_tok(s1, key) {
            None => None,
            Some(s2) => p_tok(s2, ":"@),
        },
    }
}

/// Consumes a separating comma, the next key, and the colon, tolerating
/// whitespace between them.
pub open spec fn p_sep_key(s: Seq<char>, key: Seq<char>) -> Option<Seq<char>> {
    match p_tok(s, ","@) {
        None => None,
        Some(s1) => match p_tok(s1, key) {
            None => None,
            Some(s2) => p_tok(s2, ":"@),
        },
    }
}

/// Consumes one file entry object.
pub open spec fn p_entry(s: Seq<char>) -> Option<(FileRec, Seq<char>)> {
    match p_first_key(s, "\"name\""@) {
        None => None,
        Some(s1) => match p_string(p_ws(s1)) {
            None => None,
            Some((name, s2)) => match p_sep_key(s2, "\"hash\""@) {
                None => None,
                Some(s3) => match p_string(p_ws(s3)) {
                    None => None,
                    Some((hash, s4)) => match p_sep_key(s4, "\"size\""@) {
                        None => None,
                        Some(s5) => match p_u64(p_ws(s5)) {
                            None => None,
                            Some((size, s6)) => match p_tok(s6, "}"@) {
                                None => None,
                                Some(s7) => Some((FileRec { name, hash, size }, s7)),
                            },
                        },
                    },
                },
            },
        },
    }
}

/// Consumes the entry list together with its closing bracket.
pub open spec fn p_files(s: Seq<char>) -> Option<(Seq<FileRec>, Seq<char>)>
    decreases s.len(),
{
    let t = p_ws(s);
    if t.len() == 0 {
        None
    } else if t[0] == ']' {
        Some((Seq::<FileRec>::empty(), t.drop_first()))
    } else {
        match p_entry(t) {
            None => None,
            Some((f, rem)) => {
                let r2 = p_ws(rem);
                if r2.len() < s.len() {
                    if r2.len() > 0 && r2[0] == ',' {
                        match p_files(r2.drop_first()) {
                            Some((fs, rem2)) => Some((seq![f] + fs, rem2)),
                            None => None,
                        }
                    } else if r2.len() > 0 && r2[0] == ']' {
                        Some((seq![f], r2.drop_first()))
                    } else {
                        None
                    }
                } else {
                    None
                }
            },
        }
    }
}

/// The manifests that the persisted form denotes: one manifest object with
/// its fields in order, tolerating whitespace between tokens, spanning the
/// whole input.
pub open spec fn p_manifest(s: Seq<char>) -> Option<LocalRec> {
    match p_first_key(s, "\"pathInstallLocation\""@) {
        None => None,
        Some(s1) => match p_string(p_ws(s1)) {
            None => None,
            Some((path, s2)) => match p_sep_key(s2, "\"gameId\""@) {
                None => None,
                Some(s3) => match p_u64(p_ws(s3)) {
                    None => None,
                    Some((game_id, s4)) => match p_sep_key(s4, "\"gameTitle\""@) {
                        None => None,
                        Some(s5) => match p_string(p_ws(s5)) {
                            None => None,
                            Some((title, s6)) => match p_sep_key(s6, "\"gameBinarySize\""@) {
                                None => None,
                                Some(s7) => match p_u64(p_ws(s7)) {
                                    None => None,
                                    Some((bin_size, s8)) => match p_sep_key(s8, "\"version\""@) {
                                        None => None,
                                        Some(s9) => match p_string(p_ws(s9)) {
                                            None => None,
                                            Some((version, s10)) => match p_sep_key(
                                                s10,
                                                "\"files\""@,
                                            ) {
                                                None => None,
                                                Some(s11) => match p_tok(s11, "["@) {
                                                    None => None,
                                                    Some(s12) => match p_files(s12) {
                                                        None => None,
                                                        Some((files, s13)) => match p_tok(
                                                            s13,
                                                            "}"@,
                                                        ) {
                                                            None => None,
                                                            Some(s14) => if p_ws(s14).len() == 0 {
                                                                Some(
                                                                    (LocalRec {
                                                                        path_install_location: path,
                                                                        game_id: game_id,
                                                                        game_title: title,
                                                                        game_binary_size: bin_size,
                                                                        version: version,
                                                                        files: files,
                                                                    }),
                                                                )
                                                            } else {
                                                                None
                                                            },
                                                        },
                                                    },
                                                },
                                            },
                                        },
                                    },
                                },
                            },
                        },
                    },
                },
            },
        },
    }
}

// ---------------------------------------------------------------------------
// The parser.
// ---------------------------------------------------------------------------

/// Matches the literal `lit` at position `i`.
fn parse_lit(v: &Vec<char>, i: usize, lit: &str) -> (r: Result<usize, ()>)
    requires
        i <= v@.len(),
    ensures
        match p_lit(v@.skip(i as int), lit@) {
            Some(rem) => r matches Ok(j) && i <= j <= v@.len() && v@.skip(j as int) == rem,
            None => r is Err,
        },
{
    let llen = lit.unicode_len();
    let vlen = v.len();
    if llen > vlen - i {
        proof {
            assert(lit@.len() > v@.skip(i as int).len());
        }
        return Err(());
    }
    let mut k: usize = 0;
    while k < llen
        invariant
            k <= llen,
            llen == lit@.len(),
            vlen == v@.len(),
            i + llen <= vlen,
            forall|q: int| 0 <= q < k ==> v@[i + q] == lit@[q],
        decreases llen - k,
    {
        if v[i + k] != lit.get_char(k) {
            proof {
                assert(v@.skip(i as int).take(llen as int)[k as int] == v@[i + k]);
                assert(v@.skip(i as int).take(llen as int) != lit@);
            }
            return Err(());
        }
        k += 1;
    }
    proof {
        assert(v@.skip(i as int).take(llen as int) =~= lit@);
        assert(v@.skip(i as int).skip(llen as int) =~= v@.skip(i as int + llen as int));
    }
    Ok(i + llen)
}

/// Parses a quoted string value at position `i`.
fn parse_string(v: &Vec<char>, i: usize) -> (r: Result<(String, usize), ()>)
    requires
        i <= v@.len(),
    ensures
        match p_string(v@.skip(i as int)) {
            Some((t, rem)) => r matches Ok(p) && p.0@ == t && i <= p.1 <= v@.len() && v@.skip(
                p.1 as int,
            ) == rem,
            None => r is Err,
        },
{
    if i >= v.len() || v[i] != '"' {
        proof {
            if i < v@.len() {
                assert(v@.skip(i as int)[0] == v@[i as int]);
            }
        }
        return Err(());
    }
    let ghost start = v@.skip(i as int + 1);
    proof {
        assert(v@.skip(i as int)[0] == v@[i as int]);
        assert(v@.skip(i as int).drop_first() =~= start);
    }
    let mut acc = String::new();
    let mut j: usize = i + 1;
    loop
        invariant
            i + 1 <= j <= v@.len(),
            start == v@.skip(i as int + 1),
            p_string(v@.skip(i as int)) == p_str_body(start),
            match p_str_body(v@.skip(j as int)) {
                Some((t, rem)) => p_str_body(start) == Some((acc@ + t, rem)),
                None => p_str_body(start) is None,
            },
        decreases v@.len() - j,
    {
        if j >= v.len() {
            proof {
                assert(v@.skip(j as int).len() == 0);
            }
            return Err(());
        }
        let c = v[j];
        proof {
            assert(v@.skip(j as int)[0] == v@[j as int]);
        }
        if c == '"' {
            proof {
                assert(v@.skip(j as int).drop_first() =~= v@.skip(j as int + 1));
                assert(p_str_body(v@.skip(j as int)) == Some(
                    (Seq::<char>::empty(), v@.skip(j as int + 1)),
                ));
                assert(acc@ + Seq::<char>::empty() =~= acc@);
            }
            return Ok((acc, j + 1));
        }
        let ghost pre = acc@;
        if c == '\\' {
            if j + 1 >= v.len() {
                proof {
                    assert(v@.skip(j as int).len() == 1);
                }
                return Err(());
            }
            let e = v[j + 1];
            proof {
                assert(v@.skip(j as int)[1] == v@[j as int + 1]);
            }
            if e == '"' || e == '\\' {
                push_char(&mut acc, e);
                proof {
                    assert(v@.skip(j as int).skip(2) =~= v@.skip(j as int + 2));
                    assert forall|t: Seq<char>, rem: Seq<char>|
                        p_str_body(v@.skip(j as int + 2)) == Some((t, rem)) implies pre + (seq![
                        v@[j as int + 1],
                    ] + t) =~= acc@ + t by {}
                }
                j += 2;
            } else {
                return Err(());
            }
        } else {
            push_char(&mut acc, c);
            proof {
                assert(v@.skip(j as int).drop_first() =~= v@.skip(j as int + 1));
                assert forall|t: Seq<char>, rem: Seq<char>|
                    p_str_body(v@.skip(j as int + 1)) == Some((t, rem)) implies pre + (seq![
                    v@[j as int],
                ] + t) =~= acc@ + t by {}
            }
            j += 1;
        }
    }
}

/// Executable counterpart of [`dval`].
fn dval_of(c: char) -> (r: u64)
    ensures
        r == dval(c),
{
    match c {
        '0' => 0,
        '1' => 1,
        '2' => 2,
        '3' => 3,
        '4' => 4,
        '5' => 5,
        '6' => 6,
        '7' => 7,
        '8' => 8,
        '9' => 9,
        _ => 10,
    }
}

/// Folding more digits never shrinks the accumulated value.
proof fn lemma_digits_monotone(s: Seq<char>, acc: nat)
    ensures
        p_digits(s, acc).0 >= acc,
    decreases s.len(),
{
    if s.len() > 0 && is_digit(s[0]) {
        assert(acc * 10 + dval(s[0]) >= acc) by (nonlinear_arith);
        lemma_digits_monotone(s.drop_first(), acc * 10 + dval(s[0]));
    }
}

/// Parses a number value at position `i`.
fn parse_u64(v: &Vec<char>, i: usize) -> (r: Result<(u64, usize), ()>)
    requires
        i <= v@.len(),
    ensures
        match p_u64(v@.skip(i as int)) {
            Some((x, rem)) => r matches Ok(p) && p.0 == x && i <= p.1 <= v@.len() && v@.skip(
                p.1 as int,
            ) == rem,
            None => r is Err,
        },
{
    if i >= v.len() || dval_of(v[i]) >= 10 {
        proof {
            if i < v@.len() {
                assert(v@.skip(i as int)[0] == v@[i as int]);
            }
        }
        return Err(());
    }
    proof {
        assert(v@.skip(i as int)[0] == v@[i as int]);
    }
    let mut acc: u64 = 0;
    let mut j: usize = i;
    loop
        invariant
            i <= j <= v@.len(),
            i < v@.len(),
            is_digit(v@[i as int]),
            v@.skip(i as int)[0] == v@[i as int],
            p_digits(v@.skip(i as int), 0) == p_digits(v@.skip(j as int), acc as nat),
        decreases v@.len() - j,
    {
        if j >= v.len() {
            proof {
                assert(v@.skip(j as int).len() == 0);
                assert(p_digits(v@.skip(j as int), acc as nat) == (acc as nat, v@.skip(j as int)));
            }
            return Ok((acc, j));
        }
        let c = v[j];
        let d = dval_of(c);
        proof {
            assert(v@.skip(j as int)[0] == v@[j as int]);
        }
        if d >= 10 {
            proof {
                assert(p_digits(v@.skip(j as int), acc as nat) == (acc as nat, v@.skip(j as int)));
            }
            return Ok((acc, j));
        }
        let next = match acc.checked_mul(10) {
            Some(m) => m.checked_add(d),
            None => None,
        };
        match next {
            Some(x) => {
                proof {
                    assert(v@.skip(j as int).drop_first() =~= v@.skip(j as int + 1));
                }
                acc = x;
                j += 1;
            },
            None => {
                proof {
                    assert(v@.skip(j as int).drop_first() =~= v@.skip(j as int + 1));
                    assert(p_digits(v@.skip(j as int), acc as nat) == p_digits(
                        v@.skip(j as int + 1),
                        acc as nat * 10 + dval(v@[j as int]),
                    ));
                    lemma_digits_monotone(v@.skip(j as int + 1), acc as nat * 10 + dval(
                        v@[j as int],
                    ));
                    assert(acc as nat * 10 + dval(v@[j as int]) > u64::MAX);
                }
                return Err(());
            },
        }
    }
}

/// Skips whitespace from position `i`.
fn skip_ws(v: &Vec<char>, i: usize) -> (j: usize)
    requires
        i <= v@.len(),
    ensures
        i <= j <= v@.len(),
        v@.skip(j as int) == p_ws(v@.skip(i as int)),
{
    let mut j: usize = i;
    loop
        invariant
            i <= j <= v@.len(),
            p_ws(v@.skip(i as int)) == p_ws(v@.skip(j as int)),
        decreases v@.len() - j,
    {
        if j >= v.len() {
            proof {
                assert(v@.skip(j as int).len() == 0);
            }
            return j;
        }
        let c = v[j];
        proof {
            assert(v@.skip(j as int)[0] == v@[j as int]);
        }
        if c == ' ' || c == '\t' || c == '\n' || c == '\r' {
            proof {
                assert(v@.skip(j as int).drop_first() =~= v@.skip(j as int + 1));
            }
            j += 1;
        } else {
            proof {
                assert(!is_ws(v@.skip(j as int)[0]));
            }
            return j;
        }
    }
}

/// Skips whitespace, then matches the token `lit`.
fn parse_tok(v: &Vec<char>, i: usize, lit: &str) -> (r: Result<usize, ()>)
    requires
        i <= v@.len(),
    ensures
        match p_tok(v@.skip(i as int), lit@) {
            Some(rem) => r matches Ok(j) && i <= j <= v@.len() && v@.skip(j as int) == rem,
            None => r is Err,
        },
{
    let j = skip_ws(v, i);
    parse_lit(v, j, lit)
}

/// Matches `{`, the object's first key, and `:` at position `i`.
fn parse_first_key(v: &Vec<char>, i: usize, key: &str) -> (r: Result<usize, ()>)
    requires
        i <= v@.len(),
    ensures
        match p_first_key(v@.skip(i as int), key@) {
            Some(rem) => r matches Ok(j) && i <= j <= v@.len() && v@.skip(j as int) == rem,
            None => r is Err,
        },
{
    let j1 = match parse_tok(v, i, "{") {
        Ok(j) => j,
        Err(()) => {
            return Err(());
        },
    };
    let j2 = match parse_tok(v, j1, key) {
        Ok(j) => j,
        Err(()) => {
            return Err(());
        },
    };
    parse_tok(v, j2, ":")
}

/// Matches `,`, the next key, and `:` at position `i`.
fn parse_sep_key(v: &Vec<char>, i: usize, key: &str) -> (r: Result<usize, ()>)
    requires
        i <= v@.len(),
    ensures
        match p_sep_key(v@.skip(i as int), key@) {
            Some(rem) => r matches Ok(j) && i <= j <= v@.len() && v@.skip(j as int) == rem,
            None => r is Err,
        },
{
    let j1 = match parse_tok(v, i, ",") {
        Ok(j) => j,
        Err(()) => {
            return Err(());
        },
    };
    let j2 = match parse_tok(v, j1, key) {
        Ok(j) => j,
        Err(()) => {
            return Err(());
        },
    };
    parse_tok(v, j2, ":")
}

/// Parses one file entry object at position `i`.
fn parse_entry(v: &Vec<char>, i: usize) -> (r: Result<(FileDetails, usize), ()>)
    requires
        i <= v@.len(),
    ensures
        match p_entry(v@.skip(i as int)) {
            Some((f, rem)) => r matches Ok(p) && p.0@ == f && i <= p.1 <= v@.len() && v@.skip(
                p.1 as int,
            ) == rem,
            None => r is Err,
        },
{
    let j1 = match parse_first_key(v, i, "\"name\"") {
        Ok(j) => j,
        Err(()) => {
            return Err(());
        },
    };
    let k1 = skip_ws(v, j1);
    let (name, j2) = match parse_string(v, k1) {
        Ok(p) => p,
        Err(()) => {
            return Err(());
        },
    };
    let j3 = match parse_sep_key(v, j2, "\"hash\"") {
        Ok(j) => j,
        Err(()) => {
            return Err(());
        },
    };
    let k3 = skip_ws(v, j3);
    let (hash, j4) = match parse_string(v, k3) {
        Ok(p) => p,
        Err(()) => {
            return Err(());
        },
    };
    let j5 = match parse_sep_key(v, j4, "\"size\"") {
        Ok(j) => j,
        Err(()) => {
            return Err(());
        },
    };
    let k5 = skip_ws(v, j5);
    let (size, j6) = match parse_u64(v, k5) {
        Ok(p) => p,
        Err(()) => {
            return Err(());
        },
    };
    let j7 = match parse_tok(v, j6, "}") {
        Ok(j) => j,
        Err(()) => {
            return Err(());
        },
    };
    Ok((FileDetails { name, hash, size }, j7))
}

/// Parses the entry list together with its closing bracket at position `i`.
fn parse_files(v: &Vec<char>, i: usize) -> (r: Result<(Vec<FileDetails>, usize), ()>)
    requires
        i <= v@.len(),
    ensures
        match p_files(v@.skip(i as int)) {
            Some((fs, rem)) => r matches Ok(p) && views_of(p.0@) == fs && i <= p.1 <= v@.len()
                && v@.skip(p.1 as int) == rem,
            None => r is Err,
        },
    decreases v@.len() - i,
{
    let j0 = skip_ws(v, i);
    if j0 >= v.len() {
        proof {
            assert(v@.skip(j0 as int).len() == 0);
        }
        return Err(());
    }
    proof {
        assert(v@.skip(j0 as int)[0] == v@[j0 as int]);
    }
    if v[j0] == ']' {
        proof {
            assert(v@.skip(j0 as int).drop_first() =~= v@.skip(j0 as int + 1));
            assert(views_of(Seq::<FileDetails>::empty()) =~= Seq::<FileRec>::empty());
        }
        let empty: Vec<FileDetails> = Vec::new();
        proof {
            assert(views_of(empty@) =~= Seq::<FileRec>::empty());
        }
        return Ok((empty, j0 + 1));
    }
    let (fd, j) = match parse_entry(v, j0) {
        Ok(p) => p,
        Err(()) => {
            return Err(());
        },
    };
    let j2 = skip_ws(v, j);
    if j2 <= i {
        proof {
            assert(v@.skip(j2 as int).len() >= v@.skip(i as int).len());
        }
        return Err(());
    }
    proof {
        assert(v@.skip(j2 as int).len() < v@.skip(i as int).len());
    }
    if j2 >= v.len() {
        proof {
            assert(v@.skip(j2 as int).len() == 0);
        }
        return Err(());
    }
    proof {
        assert(v@.skip(j2 as int)[0] == v@[j2 as int]);
    }
    if v[j2] == ',' {
        proof {
            assert(v@.skip(j2 as int).drop_first() =~= v@.skip(j2 as int + 1));
        }
        let (mut rest, k) = match parse_files(v, j2 + 1) {
            Ok(p) => p,
            Err(()) => {
                return Err(());
            },
        };
        let ghost rest_pre = views_of(rest@);
        rest.insert(0, fd);
        proof {
            assert(views_of(rest@) =~= seq![fd@] + rest_pre);
        }
        Ok((rest, k))
    } else if v[j2] == ']' {
        proof {
            assert(v@.skip(j2 as int).drop_first() =~= v@.skip(j2 as int + 1));
        }
        let mut one: Vec<FileDetails> = Vec::new();
        one.push(fd);
        proof {
            assert(views_of(one@) =~= seq![fd@]);
        }
        Ok((one, j2 + 1))
    } else {
        Err(())
    }
}

/// Parses a whole persisted manifest; the entire text must be one manifest
/// object, up to trailing whitespace.
pub fn parse_manifest(v: &Vec<char>) -> (r: Result<GameManifestLocal, ()>)
    ensures
        match p_manifest(v@) {
            Some(rec) => r matches Ok(m) && m@ == rec,
            None => r is Err,
        },
{
    proof {
        assert(v@.skip(0) =~= v@);
    }
    let j1 = match parse_first_key(v, 0, "\"pathInstallLocation\"") {
        Ok(j) => j,
        Err(()) => {
            return Err(());
        },
    };
    let k1 = skip_ws(v, j1);
    let (path, j2) = match parse_string(v, k1) {
        Ok(p) => p,
        Err(()) => {
            return Err(());
        },
    };
    let j3 = match parse_sep_key(v, j2, "\"gameId\"") {
        Ok(j) => j,
        Err(()) => {
            return Err(());
        },
    };
    let k3 = skip_ws(v, j3);
    let (game_id, j4) = match parse_u64(v, k3) {
        Ok(p) => p,
        Err(()) => {
            return Err(());
        },
    };
    let j5 = match parse_sep_key(v, j4, "\"gameTitle\"") {
        Ok(j) => j,
        Err(()) => {
            return Err(());
        },
    };
    let k5 = skip_ws(v, j5);
    let (title, j6) = match parse_string(v, k5) {
        Ok(p) => p,
        Err(()) => {
            return Err(());
        },
    };
    let j7 = match parse_sep_key(v, j6, "\"gameBinarySize\"") {
        Ok(j) => j,
        Err(()) => {
            return Err(());
        },
    };
    let k7 = skip_ws(v, j7);
    let (bin_size, j8) = match parse_u64(v, k7) {
        Ok(p) => p,
        Err(()) => {
            return Err(());
        },
    };
    let j9 = match parse_sep_key(v, j8, "\"version\"") {
        Ok(j) => j,
        Err(()) => {
            return Err(());
        },
    };
    let k9 = skip_ws(v, j9);
    let (version, j10) = match parse_string(v, k9) {
        Ok(p) => p,
        Err(()) => {
            return Err(());
        },
    };
    let j11 = match parse_sep_key(v, j10, "\"files\"") {
        Ok(j) => j,
        Err(()) => {
            return Err(());
        },
    };
    let j12 = match parse_tok(v, j11, "[") {
        Ok(j) => j,
        Err(()) => {
            return Err(());
        },
    };
    let (files, j13) = match parse_files(v, j12) {
        Ok(p) => p,
        Err(()) => {
            return Err(());
        },
    };
    let j14 = match parse_tok(v, j13, "}") {
        Ok(j) => j,
        Err(()) => {
            return Err(());
        },
    };
    let j15 = skip_ws(v, j14);
    if j15 != v.len() {
        proof {
            assert(v@.skip(j15 as int).len() != 0);
        }
        return Err(());
    }
    proof {
        assert(v@.skip(j15 as int).len() == 0);
    }
    Ok(
        GameManifestLocal {
            pathInstallLocation: path,
            gameId: game_id,
            gameTitle: title,
            gameBinarySize: bin_size,
            version,
            files,
        },
    )
}

/// The characters of a string slice, one vector element per character.
pub fn chars_of(s: &str) -> (v: Vec<char>)
    ensures
        v@ == s@,
{
    let len = s.unicode_len();
    let mut v: Vec<char> = Vec::new();
    let mut i: usize = 0;
    while i < len
        invariant
            i <= len,
            len == s@.len(),
            v@ =~= s@.take(i as int),
        decreases len - i,
    {
        v.push(s.get_char(i));
        proof {
            assert(s@.take(i as int + 1) =~= s@.take(i as int).push(s@[i as int]));
        }
        i += 1;
    }
    proof {
        assert(s@.take(s@.len() as int) =~= s@);
    }
    v
}

/// Deserializes a persisted manifest from its textual form.
pub fn manifest_from_json(text: &str) -> (r: Result<GameManifestLocal, ()>)
    ensures
        match p_manifest(text@) {
            Some(rec) => r matches Ok(m) && m@ == rec,
            None => r is Err,
        },
{
    let v = chars_of(text);
    parse_manifest(&v)
}

/// Builds the run's starting manifest: the persisted text is parsed when
/// the install directory holds one, and a malformed text is the run's
/// format error; with no persisted manifest, a fresh empty manifest
/// carrying the supplied metadata is synthesized. Reading the file — and
/// telling a missing file apart from an unreadable one — is the caller's
/// step.
pub fn load_or_create_manifest(
    content: Option<&str>,
    file_location_download: &str,
    game_id: u64,
    game_title: &str,
    game_binary_size: u64,
    game_version: &str,
) -> (r: Result<GameManifestLocal, SyncError>)
    ensures
        match content {
            Some(text) => match p_manifest(text@) {
                Some(rec) => r matches Ok(m) && m@ == rec,
                None => r matches Err(e) && e matches SyncError::FormatError(_),
            },
            None => r matches Ok(m) && m@ == (LocalRec {
                path_install_location: file_location_download@,
                game_id: game_id,
                game_title: game_title@,
                game_binary_size: game_binary_size,
                version: game_version@,
                files: Seq::<FileRec>::empty(),
            }),
        },
{
    match content {
        Some(text) => match manifest_from_json(text) {
            Ok(m) => Ok(m),
            Err(()) => Err(
                SyncError::FormatError("malformed persisted manifest".to_owned()),
            ),
        },
        None => {
            let files: Vec<FileDetails> = Vec::new();
            let m = GameManifestLocal {
                pathInstallLocation: file_location_download.to_owned(),
                gameId: game_id,
                gameTitle: game_title.to_owned(),
                gameBinarySize: game_binary_size,
                version: game_version.to_owned(),
                files,
            };
            proof {
                assert(m@.files =~= Seq::<FileRec>::empty());
            }
            Ok(m)
        },
    }
}

// ---------------------------------------------------------------------------
// The round trip: parsing an encoded manifest yields the manifest.
// ---------------------------------------------------------------------------

/// A literal at the head of the input is consumed exactly.
proof fn lemma_p_lit_exact(lit: Seq<char>, rest: Seq<char>)
    ensures
        p_lit(lit + rest, lit) == Some(rest),
{
    assert((lit + rest).take(lit.len() as int) =~= lit);
    assert((lit + rest).skip(lit.len() as int) =~= rest);
}

/// An escaped string body followed by its closing quote parses back to the
/// original string.
proof fn lemma_str_body_roundtrip(x: Seq<char>, rest: Seq<char>)
    ensures
        p_str_body(esc(x) + seq!['"'] + rest) == Some((x, rest)),
    decreases x.len(),
{
    let s = esc(x) + seq!['"'] + rest;
    if x.len() == 0 {
        assert(esc(x) == Seq::<char>::empty());
        assert(s =~= seq!['"'] + rest);
        assert(s[0] == '"');
        assert(s.drop_first() =~= rest);
    } else {
        let c = x[0];
        let x2 = x.drop_first();
        let tail = esc(x2) + seq!['"'] + rest;
        lemma_str_body_roundtrip(x2, rest);
        assert(esc(x) == esc_char(c) + esc(x2));
        if c == '"' || c == '\\' {
            assert(s =~= seq!['\\', c] + tail);
            assert(s[0] == '\\');
            assert(s[1] == c);
            assert(s.len() >= 2);
            assert(s.skip(2) =~= tail);
            assert(seq![c] + x2 =~= x);
        } else {
            assert(s =~= seq![c] + tail);
            assert(s[0] == c);
            assert(s.drop_first() =~= tail);
            assert(seq![c] + x2 =~= x);
        }
    }
}

/// An encoded string value parses back to the original string.
proof fn lemma_string_roundtrip(x: Seq<char>, rest: Seq<char>)
    ensures
        p_string(enc_string(x) + rest) == Some((x, rest)),
{
    let s = enc_string(x) + rest;
    assert(s =~= seq!['"'] + (esc(x) + seq!['"'] + rest));
    assert(s[0] == '"');
    assert(s.len() > 0);
    assert(s.drop_first() =~= esc(x) + seq!['"'] + rest);
    lemma_str_body_roundtrip(x, rest);
}

/// Ten to the `k`.
spec fn pow10(k: nat) -> nat
    decreases k,
{
    if k == 0 {
        1
    } else {
        10 * pow10((k - 1) as nat)
    }
}

/// The first rendered digit of a number is a digit character.
proof fn lemma_dec_first_digit(n: nat)
    ensures
        dec_digits(n).len() >= 1,
        is_digit(dec_digits(n)[0]),
    decreases n,
{
    if n < 10 {
        assert(dval(digit_char(n)) == n);
    } else {
        lemma_dec_first_digit(n / 10);
        assert(dec_digits(n)[0] == dec_digits(n / 10)[0]);
    }
}

/// Digit folding consumes a rendered number completely, scaling the
/// accumulator past it.
proof fn lemma_digits_append(n: nat, rest: Seq<char>, acc: nat)
    ensures
        p_digits(dec_digits(n) + rest, acc) == p_digits(
            rest,
            acc * pow10(dec_digits(n).len()) + n,
        ),
    decreases n,
{
    let ds = dec_digits(n);
    if n < 10 {
        assert(ds == seq![digit_char(n)]);
        let s = ds + rest;
        assert(s[0] == digit_char(n));
        assert(dval(digit_char(n)) == n);
        assert(s.drop_first() =~= rest);
        assert(p_digits(s, acc) == p_digits(rest, acc * 10 + n));
        assert(pow10(0) == 1);
        assert(pow10(1) == 10);
        assert(acc * pow10(1) + n == acc * 10 + n);
    } else {
        let hi = dec_digits(n / 10);
        let d = digit_char(n % 10);
        assert(ds == hi + seq![d]);
        assert(ds + rest =~= hi + (seq![d] + rest));
        lemma_digits_append(n / 10, seq![d] + rest, acc);
        let acc2 = acc * pow10(hi.len()) + n / 10;
        let s2 = seq![d] + rest;
        assert(s2[0] == d);
        assert(dval(d) == n % 10);
        assert(s2.drop_first() =~= rest);
        assert(p_digits(s2, acc2) == p_digits(rest, acc2 * 10 + n % 10));
        assert(ds.len() == hi.len() + 1);
        assert(pow10(ds.len()) == 10 * pow10(hi.len()));
        let p = pow10(hi.len());
        assert((acc * p + n / 10) * 10 + n % 10 == acc * pow10(ds.len()) + n) by (nonlinear_arith)
            requires
                pow10(ds.len()) == 10 * p,
                n >= 10,
        ;
        assert(acc2 * 10 + n % 10 == acc * pow10(ds.len()) + n);
    }
}

/// An encoded number followed by a non-digit parses back to the original
/// number.
proof fn lemma_u64_roundtrip(n: u64, rest: Seq<char>)
    requires
        rest.len() == 0 || !is_digit(rest[0]),
    ensures
        p_u64(enc_u64(n) + rest) == Some((n, rest)),
{
    let ds = dec_digits(n as nat);
    lemma_dec_first_digit(n as nat);
    let s = ds + rest;
    assert(s[0] == ds[0]);
    assert(s.len() > 0);
    lemma_digits_append(n as nat, rest, 0);
    assert(0 * pow10(ds.len()) == 0) by (nonlinear_arith);
    assert(p_digits(s, 0) == p_digits(rest, n as nat));
    assert(p_digits(rest, n as nat) == (n as nat, rest));
}

/// Skipping whitespace does nothing on input that starts with none.
proof fn lemma_p_ws_noop(s: Seq<char>)
    requires
        s.len() == 0 || !is_ws(s[0]),
    ensures
        p_ws(s) == s,
{
}

/// Digit characters are not whitespace.
proof fn lemma_digit_not_ws(c: char)
    requires
        is_digit(c),
    ensures
        !is_ws(c),
{
}

/// A token at the head of the input is consumed exactly.
proof fn lemma_p_tok_exact(lit: Seq<char>, rest: Seq<char>)
    requires
        lit.len() > 0,
        !is_ws(lit[0]),
    ensures
        p_tok(lit + rest, lit) == Some(rest),
{
    assert((lit + rest)[0] == lit[0]);
    lemma_p_ws_noop(lit + rest);
    lemma_p_lit_exact(lit, rest);
}

/// `{ key :` at the head of the input is consumed exactly.
proof fn lemma_first_key_exact(compound: Seq<char>, key: Seq<char>, rest: Seq<char>)
    requires
        compound == "{"@ + key + ":"@,
        key.len() > 0,
        !is_ws(key[0]),
    ensures
        p_first_key(compound + rest, key) == Some(rest),
{
    reveal_strlit("{");
    reveal_strlit(":");
    assert(compound + rest =~= "{"@ + ((key + (":"@ + rest))));
    lemma_p_tok_exact("{"@, key + (":"@ + rest));
    lemma_p_tok_exact(key, ":"@ + rest);
    lemma_p_tok_exact(":"@, rest);
}

/// `, key :` at the head of the input is consumed exactly.
proof fn lemma_sep_key_exact(compound: Seq<char>, key: Seq<char>, rest: Seq<char>)
    requires
        compound == ","@ + key + ":"@,
        key.len() > 0,
        !is_ws(key[0]),
    ensures
        p_sep_key(compound + rest, key) == Some(rest),
{
    reveal_strlit(",");
    reveal_strlit(":");
    assert(compound + rest =~= ","@ + ((key + (":"@ + rest))));
    lemma_p_tok_exact(","@, key + (":"@ + rest));
    lemma_p_tok_exact(key, ":"@ + rest);
    lemma_p_tok_exact(":"@, rest);
}

/// An encoded file entry parses back to the original entry.
proof fn lemma_entry_roundtrip(f: FileRec, rest: Seq<char>)
    ensures
        p_entry(enc_entry(f) + rest) == Some((f, rest)),
        enc_entry(f).len() > 0,
        enc_entry(f)[0] == '{',
{
    reveal_strlit("{\"name\":");
    reveal_strlit(",\"hash\":");
    reveal_strlit(",\"size\":");
    reveal_strlit("{");
    reveal_strlit(":");
    reveal_strlit(",");
    reveal_strlit("}");
    reveal_strlit("\"name\"");
    reveal_strlit("\"hash\"");
    reveal_strlit("\"size\"");
    let t6 = "}"@ + rest;
    let t5 = enc_u64(f.size) + t6;
    let t4 = ",\"size\":"@ + t5;
    let t3 = enc_string(f.hash) + t4;
    let t2 = ",\"hash\":"@ + t3;
    let t1 = enc_string(f.name) + t2;
    let s = enc_entry(f) + rest;
    assert(s =~= "{\"name\":"@ + t1);
    assert("{\"name\":"@ =~= "{"@ + "\"name\""@ + ":"@);
    lemma_first_key_exact("{\"name\":"@, "\"name\""@, t1);
    assert(t1[0] == '"');
    lemma_p_ws_noop(t1);
    lemma_string_roundtrip(f.name, t2);
    assert(",\"hash\":"@ =~= ","@ + "\"hash\""@ + ":"@);
    lemma_sep_key_exact(",\"hash\":"@, "\"hash\""@, t3);
    assert(t3[0] == '"');
    lemma_p_ws_noop(t3);
    lemma_string_roundtrip(f.hash, t4);
    assert(",\"size\":"@ =~= ","@ + "\"size\""@ + ":"@);
    lemma_sep_key_exact(",\"size\":"@, "\"size\""@, t5);
    lemma_dec_first_digit(f.size as nat);
    assert(t5[0] == dec_digits(f.size as nat)[0]);
    lemma_digit_not_ws(t5[0]);
    lemma_p_ws_noop(t5);
    assert(t6[0] == '}');
    assert(!is_digit('}'));
    lemma_u64_roundtrip(f.size, t6);
    lemma_p_tok_exact("}"@, rest);
    assert(p_entry(s) == Some((FileRec { name: f.name, hash: f.hash, size: f.size }, rest)));
    assert((FileRec { name: f.name, hash: f.hash, size: f.size }) == f);
    assert(enc_entry(f)[0] == '{');
}

/// An encoded entry list followed by its closing bracket parses back to
/// the original entries.
proof fn lemma_files_roundtrip(fs: Seq<FileRec>, rest: Seq<char>)
    ensures
        p_files(enc_files(fs) + (seq![']'] + rest)) == Some((fs, rest)),
    decreases fs.len(),
{
    let s = enc_files(fs) + (seq![']'] + rest);
    if fs.len() == 0 {
        assert(s =~= seq![']'] + rest);
        assert(s[0] == ']');
        lemma_p_ws_noop(s);
        assert(s.drop_first() =~= rest);
        assert(p_files(s) == Some((Seq::<FileRec>::empty(), rest)));
    } else if fs.len() == 1 {
        let rem = seq![']'] + rest;
        assert(s =~= enc_entry(fs[0]) + rem);
        lemma_entry_roundtrip(fs[0], rem);
        assert(s[0] == enc_entry(fs[0])[0]);
        lemma_p_ws_noop(s);
        assert(rem[0] == ']');
        lemma_p_ws_noop(rem);
        assert(rem.len() < s.len());
        assert(rem.drop_first() =~= rest);
        assert(seq![fs[0]] =~= fs);
    } else {
        let tail = enc_files(fs.drop_first()) + (seq![']'] + rest);
        let rem = seq![','] + tail;
        assert(enc_files(fs) == enc_entry(fs[0]) + seq![','] + enc_files(fs.drop_first()));
        assert(s =~= enc_entry(fs[0]) + rem);
        lemma_entry_roundtrip(fs[0], rem);
        assert(s[0] == enc_entry(fs[0])[0]);
        lemma_p_ws_noop(s);
        assert(rem[0] == ',');
        lemma_p_ws_noop(rem);
        assert(rem.len() < s.len());
        assert(rem.drop_first() =~= tail);
        lemma_files_roundtrip(fs.drop_first(), rest);
        assert(seq![fs[0]] + fs.drop_first() =~= fs);
    }
}

/// Round trip: a manifest serialized by [`manifest_to_json`] is accepted
/// by [`parse_manifest`] and yields an equal manifest — same entries, same
/// metadata. Saving and then loading therefore loses nothing.
#[verifier::rlimit(100)]
pub proof fn lemma_manifest_roundtrip(m: LocalRec)
    ensures
        p_manifest(encode_manifest(m)) == Some(m),
{
    reveal_strlit("{\"pathInstallLocation\":");
    reveal_strlit(",\"gameId\":");
    reveal_strlit(",\"gameTitle\":");
    reveal_strlit(",\"gameBinarySize\":");
    reveal_strlit(",\"version\":");
    reveal_strlit(",\"files\":[");
    reveal_strlit("]}");
    reveal_strlit("{");
    reveal_strlit(":");
    reveal_strlit(",");
    reveal_strlit("[");
    reveal_strlit("]");
    reveal_strlit("}");
    reveal_strlit("\"pathInstallLocation\"");
    reveal_strlit("\"gameId\"");
    reveal_strlit("\"gameTitle\"");
    reveal_strlit("\"gameBinarySize\"");
    reveal_strlit("\"version\"");
    reveal_strlit("\"files\"");
    let empty = Seq::<char>::empty();
    let t12 = "}"@ + empty;
    let t11 = enc_files(m.files) + (seq![']'] + t12);
    let t10b = "["@ + t11;
    let c_files = ","@ + "\"files\""@ + ":"@;
    let t10 = c_files + t10b;
    let t9 = enc_string(m.version) + t10;
    let t8 = ",\"version\":"@ + t9;
    let t7 = enc_u64(m.game_binary_size) + t8;
    let t6 = ",\"gameBinarySize\":"@ + t7;
    let t5 = enc_string(m.game_title) + t6;
    let t4 = ",\"gameTitle\":"@ + t5;
    let t3 = enc_u64(m.game_id) + t4;
    let t2 = ",\"gameId\":"@ + t3;
    let t1 = enc_string(m.path_install_location) + t2;
    let s = encode_manifest(m);
    assert("]}"@ =~= seq![']'] + "}"@);
    assert(",\"files\":["@ =~= c_files + "["@);
    assert(s =~= "{\"pathInstallLocation\":"@ + t1);
    assert("{\"pathInstallLocation\":"@ =~= "{"@ + "\"pathInstallLocation\""@ + ":"@);
    lemma_first_key_exact(
        "{\"pathInstallLocation\":"@,
        "\"pathInstallLocation\""@,
        t1,
    );
    assert(t1[0] == '"');
    lemma_p_ws_noop(t1);
    lemma_string_roundtrip(m.path_install_location, t2);
    assert(",\"gameId\":"@ =~= ","@ + "\"gameId\""@ + ":"@);
    lemma_sep_key_exact(",\"gameId\":"@, "\"gameId\""@, t3);
    lemma_dec_first_digit(m.game_id as nat);
    assert(t3[0] == dec_digits(m.game_id as nat)[0]);
    lemma_digit_not_ws(t3[0]);
    lemma_p_ws_noop(t3);
    assert(t4[0] == ',');
    assert(!is_digit(','));
    lemma_u64_roundtrip(m.game_id, t4);
    assert(",\"gameTitle\":"@ =~= ","@ + "\"gameTitle\""@ + ":"@);
    lemma_sep_key_exact(",\"gameTitle\":"@, "\"gameTitle\""@, t5);
    assert(t5[0] == '"');
    lemma_p_ws_noop(t5);
    lemma_string_roundtrip(m.game_title, t6);
    assert(",\"gameBinarySize\":"@ =~= ","@ + "\"gameBinarySize\""@ + ":"@);
    lemma_sep_key_exact(",\"gameBinarySize\":"@, "\"gameBinarySize\""@, t7);
    lemma_dec_first_digit(m.game_binary_size as nat);
    assert(t7[0] == dec_digits(m.game_binary_size as nat)[0]);
    lemma_digit_not_ws(t7[0]);
    lemma_p_ws_noop(t7);
    assert(t8[0] == ',');
    lemma_u64_roundtrip(m.game_binary_size, t8);
    assert(",\"version\":"@ =~= ","@ + "\"version\""@ + ":"@);
    lemma_sep_key_exact(",\"version\":"@, "\"version\""@, t9);
    assert(t9[0] == '"');
    lemma_p_ws_noop(t9);
    lemma_string_roundtrip(m.version, t10);
    lemma_sep_key_exact(c_files, "\"files\""@, t10b);
    lemma_p_tok_exact("["@, t11);
    lemma_files_roundtrip(m.files, t12);
    lemma_p_tok_exact("}"@, empty);
    lemma_p_ws_noop(empty);
    assert(p_manifest(s) == Some(
        (LocalRec {
            path_install_location: m.path_install_location,
            game_id: m.game_id,
            game_title: m.game_title,
            game_binary_size: m.game_binary_size,
            version: m.version,
            files: m.files,
        }),
    ));
    assert((LocalRec {
        path_install_location: m.path_install_location,
        game_id: m.game_id,
        game_title: m.game_title,
        game_binary_size: m.game_binary_size,
        version: m.version,
        files: m.files,
    }) == m);
}

} // verus!
