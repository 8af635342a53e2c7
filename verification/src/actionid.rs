//! Stable action identifiers: the SHA-1 digest of
//! salt ++ filename ++ ":" ++ export-name, rendered as lowercase hex.

use vstd::prelude::*;
use vstd::utf8::encode_utf8;
use sha1::Digest;
use sha1::Sha1;

verus! {

/// The lowercase hex digit for a value below sixteen.
pub open spec fn hex_digit_char(d: u8) -> char {
    if d == 0 {
        '0'
    } else if d == 1 {
        '1'
    } else if d == 2 {
        '2'
    } else if d == 3 {
        '3'
    } else if d == 4 {
        '4'
    } else if d == 5 {
        '5'
    } else if d == 6 {
        '6'
    } else if d == 7 {
        '7'
    } else if d == 8 {
        '8'
    } else if d == 9 {
        '9'
    } else if d == 10 {
        'a'
    } else if d == 11 {
        'b'
    } else if d == 12 {
        'c'
    } else if d == 13 {
        'd'
    } else if d == 14 {
        'e'
    } else {
        'f'
    }
}

/// Lowercase hex rendering of a byte sequence, high nibble first.
pub open spec fn hex_chars_of(b: Seq<u8>) -> Seq<char>
    decreases b.len(),
{
    if b.len() == 0 {
        Seq::empty()
    } else {
        seq![hex_digit_char(b[0] / 16), hex_digit_char(b[0] % 16)] + hex_chars_of(b.drop_first())
    }
}

/// Whether `c` is a lowercase hex digit.
pub open spec fn is_lower_hex_char(c: char) -> bool {
    (48 <= c as u32 && c as u32 <= 57) || (97 <= c as u32 && c as u32 <= 102)
}

pub proof fn lemma_hex_chars_of_len(b: Seq<u8>)
    ensures
        hex_chars_of(b).len() == 2 * b.len(),
    decreases b.len(),
{
    if b.len() > 0 {
        lemma_hex_chars_of_len(b.drop_first());
    }
}

pub proof fn lemma_hex_chars_of_lower(b: Seq<u8>)
    ensures
        forall|i: int| 0 <= i < hex_chars_of(b).len() ==> is_lower_hex_char(#[trigger] hex_chars_of(b)[i]),
    decreases b.len(),
{
    if b.len() > 0 {
        lemma_hex_chars_of_lower(b.drop_first());
        assert forall|i: int| 0 <= i < hex_chars_of(b).len() implies is_lower_hex_char(
            #[trigger] hex_chars_of(b)[i],
        ) by {
            if i >= 2 {
                assert(hex_chars_of(b)[i] == hex_chars_of(b.drop_first())[i - 2]);
            } else {
                assert(is_lower_hex_char(hex_digit_char(b[0] / 16)));
                assert(is_lower_hex_char(hex_digit_char(b[0] % 16)));
            }
        }
    }
}

/// The SHA-1 digest of a byte sequence; given meaning only by the
/// `sha1_digest` wrapper below.
pub uninterp spec fn sha1_of(bytes: Seq<u8>) -> Seq<u8>;

/// Relies on `sha1::Sha1` through the `digest::Digest` interface: the
/// SHA-1 digest of the input, 20 bytes, a function of the bytes alone.
#[verifier::external_body]
fn sha1_digest(data: &Vec<u8>) -> (r: Vec<u8>)
    ensures
        r@ == sha1_of(data@),
        r@.len() == 20,
{
    Sha1::digest(data.as_slice()).to_vec()
}

/// Relies on `hex::encode`: lowercase hex, two digits per byte, high
/// nibble first.
#[verifier::external_body]
fn hex_encode_lower(data: &Vec<u8>) -> (r: String)
    ensures
        r@ == hex_chars_of(data@),
{
    hex::encode(data.as_slice())
}

/// The digest preimage: UTF-8 bytes of salt, filename, a colon, and the
/// export name, concatenated.
pub open spec fn action_id_input(salt: Seq<char>, file: Seq<char>, name: Seq<char>) -> Seq<u8> {
    encode_utf8(salt) + encode_utf8(file) + seq![58u8] + encode_utf8(name)
}

/// The 40 lowercase hex characters identifying one exported action.
pub open spec fn action_id_chars(salt: Seq<char>, file: Seq<char>, name: Seq<char>) -> Seq<char> {
    hex_chars_of(sha1_of(action_id_input(salt, file, name)))
}

/// Computes the stable id of an action: SHA-1 over salt, filename, `:`,
/// and export name, in lowercase hex.
pub fn generate_action_id(hash_salt: &str, file_name: &str, export_name: &str) -> (r: String)
    ensures
        r@ == action_id_chars(hash_salt@, file_name@, export_name@),
        r@.len() == 40,
        forall|i: int| 0 <= i < r@.len() ==> is_lower_hex_char(#[trigger] r@[i]),
{
    let mut bytes = hash_salt.as_bytes_vec();
    let mut file_bytes = file_name.as_bytes_vec();
    bytes.append(&mut file_bytes);
    bytes.push(58u8);
    let mut name_bytes = export_name.as_bytes_vec();
    bytes.append(&mut name_bytes);
    proof {
        assert(bytes@ =~= action_id_input(hash_salt@, file_name@, export_name@));
    }
    let digest = sha1_digest(&bytes);
    let r = hex_encode_lower(&digest);
    proof {
        lemma_hex_chars_of_len(digest@);
        lemma_hex_chars_of_lower(digest@);
    }
    r
}

} // verus!
