//! Content digests: SHA-256 over a byte buffer, rendered as lowercase hex.
//! The digest itself comes from an outside implementation; the hex rendering
//! and every comparison against a declared hash are verified here.

use vstd::prelude::*;

use crate::strutil::push_char;

verus! {

/// What SHA-256 yields for a byte sequence: fixed by the algorithm, a
/// function of the input alone.
pub uninterp spec fn sha256_of(data: Seq<u8>) -> Seq<u8>;

/// Relies on `sha2::Sha256` through `digest::Digest::{new, update, finalize}`:
/// the digest depends on the input bytes alone and is 32 bytes long.
#[verifier::external_body]
fn sha256_digest(data: &Vec<u8>) -> (r: Vec<u8>)
    ensures
        r@ == sha256_of(data@),
        r@.len() == 32,
{
    let mut hasher = <sha2::Sha256 as sha2::Digest>::new();
    sha2::Digest::update(&mut hasher, data.as_slice());
    let out = sha2::Digest::finalize(hasher);
    out.to_vec()
}

/// The lowercase hex character for a value below sixteen.
pub open spec fn hex_digit(n: u8) -> char {
    if n == 0 {
        '0'
    } else if n == 1 {
        '1'
    } else if n == 2 {
        '2'
    } else if n == 3 {
        '3'
    } else if n == 4 {
        '4'
    } else if n == 5 {
        '5'
    } else if n == 6 {
        '6'
    } else if n == 7 {
        '7'
    } else if n == 8 {
        '8'
    } else if n == 9 {
        '9'
    } else if n == 10 {
        'a'
    } else if n == 11 {
        'b'
    } else if n == 12 {
        'c'
    } else if n == 13 {
        'd'
    } else if n == 14 {
        'e'
    } else {
        'f'
    }
}

/// The two lowercase hex characters of one byte, high nibble first.
pub open spec fn hex_of_byte(b: u8) -> Seq<char> {
    seq![hex_digit(b / 16), hex_digit(b % 16)]
}

/// The lowercase hex rendering of a byte sequence.
pub open spec fn hex_of(data: Seq<u8>) -> Seq<char>
    decreases data.len(),
{
    if data.len() == 0 {
        Seq::<char>::empty()
    } else {
        hex_of(data.drop_last()) + hex_of_byte(data.last())
    }
}

/// Executable counterpart of [`hex_digit`].
fn hex_digit_char(n: u8) -> (c: char)
    requires
        n < 16,
    ensures
        c == hex_digit(n),
{
    match n {
        0 => '0',
        1 => '1',
        2 => '2',
        3 => '3',
        4 => '4',
        5 => '5',
        6 => '6',
        7 => '7',
        8 => '8',
        9 => '9',
        10 => 'a',
        11 => 'b',
        12 => 'c',
        13 => 'd',
        14 => 'e',
        _ => 'f',
    }
}

/// The SHA-256 digest of a byte buffer, as the 64-character lowercase hex
/// string that manifests declare.
pub fn calculate_file_hash(data: &Vec<u8>) -> (r: String)
    ensures
        r@ == hex_of(sha256_of(data@)),
{
    let digest = sha256_digest(data);
    let mut out = String::new();
    let mut i: usize = 0;
    proof {
        assert(digest@.take(0) =~= Seq::<u8>::empty());
        assert(out@ =~= hex_of(digest@.take(0)));
    }
    while i < digest.len()
        invariant
            i <= digest.len(),
            digest@ == sha256_of(data@),
            out@ == hex_of(digest@.take(i as int)),
        decreases digest.len() - i,
    {
        let b = digest[i];
        let ghost pre = out@;
        push_char(&mut out, hex_digit_char(b / 16));
        push_char(&mut out, hex_digit_char(b % 16));
        proof {
            assert(digest@.take(i as int + 1).drop_last() =~= digest@.take(i as int));
            assert(digest@.take(i as int + 1).last() == digest@[i as int]);
            assert(out@ =~= pre + hex_of_byte(digest@[i as int]));
        }
        i += 1;
    }
    proof {
        assert(digest@.take(digest@.len() as int) =~= digest@);
    }
    out
}

} // verus!
