//! Utilities around file metadata: content hashing, size formatting,
//! file-name inspection and CSV header validation.

use vstd::prelude::*;
use vstd::string::StrSliceExecFns;
use vstd::string::StringExecFns;

use sha2::Digest;

use crate::errors::Error;
use crate::literals::spec_lower_code;
use crate::text::spec_dec;
use crate::text::spec_digit_char;
use crate::text::spec_is_hex_digit;
use crate::text::spec_trim;
use crate::text::str_eq;
use crate::text::trim;
use crate::text::u64_to_string;
use crate::validation::spec_valid_sha256;

verus! {

/// The SHA-256 digest of a byte sequence; which bytes it holds depends on
/// the input alone.
pub uninterp spec fn spec_sha256_digest(data: Seq<u8>) -> Seq<u8>;

/// Relies on `sha2::Sha256` through the `Digest` trait: the digest is a
/// function of the input bytes and is 32 bytes long.
#[verifier::external_body]
fn sha256_digest(data: &[u8]) -> (r: Vec<u8>)
    ensures
        r@ == spec_sha256_digest(data@),
        r@.len() == 32,
{
    sha2::Sha256::digest(data).to_vec()
}

/// The lowercase hexadecimal digit of a value below sixteen.
pub open spec fn spec_hex_digit_char(d: int) -> char {
    if d < 10 {
        spec_digit_char(d)
    } else if d == 10 {
        'a'
    } else if d == 11 {
        'b'
    } else if d == 12 {
        'c'
    } else if d == 13 {
        'd'
    } else if d == 14 {
        'e'
    } else {
        'f'
    }
}

/// The lowercase hexadecimal encoding of a byte sequence: two digits per
/// byte, high part first, in order.
pub open spec fn spec_hex_encode(data: Seq<u8>) -> Seq<char>
    decreases data.len(),
{
    if data.len() == 0 {
        Seq::empty()
    } else {
        spec_hex_encode(data.drop_last()) + seq![
            spec_hex_digit_char((data.last() as int) / 16),
            spec_hex_digit_char((data.last() as int) % 16),
        ]
    }
}

/// Relies on `hex::encode`: the lowercase digit pair of each byte, in
/// order.
#[verifier::external_body]
fn hex_encode(data: &[u8]) -> (r: String)
    ensures
        r@ == spec_hex_encode(data@),
{
    hex::encode(data)
}

/// The hexadecimal encoding is twice as long as its input and holds
/// hexadecimal digits only.
pub proof fn lemma_hex_encode_is_hex(data: Seq<u8>)
    ensures
        spec_hex_encode(data).len() == 2 * data.len(),
        forall|i: int|
            0 <= i < spec_hex_encode(data).len() ==> spec_is_hex_digit(
                #[trigger] spec_hex_encode(data)[i],
            ),
    decreases data.len(),
{
    if data.len() > 0 {
        lemma_hex_encode_is_hex(data.drop_last());
    }
}

/// Calculate the SHA-256 hash of the given content, as 64 lowercase
/// hexadecimal characters.
pub fn calculate_sha256(data: &[u8]) -> (r: String)
    ensures
        r@ == spec_hex_encode(spec_sha256_digest(data@)),
        spec_valid_sha256(r@),
{
    let digest = sha256_digest(data);
    let r = hex_encode(digest.as_slice());
    proof {
        lemma_hex_encode_is_hex(spec_sha256_digest(data@));
    }
    r
}

/// The suffix of a size rendered at this scale.
pub open spec fn spec_size_unit(k: int) -> Seq<char> {
    if k == 1 {
        "KB"@
    } else if k == 2 {
        "MB"@
    } else if k == 3 {
        "GB"@
    } else {
        "TB"@
    }
}

/// How many bytes one unit at this scale holds.
pub open spec fn spec_size_scale(k: int) -> int {
    if k == 1 {
        0x400
    } else if k == 2 {
        0x100000
    } else if k == 3 {
        0x40000000
    } else {
        0x10000000000
    }
}

/// The largest scale the size reaches, 0 meaning bytes.
pub open spec fn spec_size_scale_index(size: u64) -> int {
    if size >= 0x10000000000 {
        4
    } else if size >= 0x40000000 {
        3
    } else if size >= 0x100000 {
        2
    } else if size >= 0x400 {
        1
    } else {
        0
    }
}

/// A size in human-readable form: plain bytes below one kibibyte, else
/// the scaled value with one decimal, rounded half up, and its unit.
pub open spec fn spec_format_file_size(size: u64) -> Seq<char> {
    let k = spec_size_scale_index(size);
    if k == 0 {
        spec_dec(size as int) + " B"@
    } else {
        let tenths = (size * 20 / spec_size_scale(k) + 1) / 2;
        spec_dec(tenths / 10) + "."@ + seq![spec_digit_char(tenths % 10)] + " "@ + spec_size_unit(
            k,
        )
    }
}

/// Get a file size in human-readable form.
pub fn format_file_size(size: u64) -> (r: String)
    ensures
        r@ == spec_format_file_size(size),
{
    if size < 1024 {
        let mut r = u64_to_string(size);
        r.append(" B");
        proof {
            assert(r@ =~= spec_format_file_size(size));
        }
        return r;
    }
    let scale: u64 = if size >= 1099511627776 {
        1099511627776
    } else if size >= 1073741824 {
        1073741824
    } else if size >= 1048576 {
        1048576
    } else {
        1024
    };
    let unit: &'static str = if size >= 1099511627776 {
        "TB"
    } else if size >= 1073741824 {
        "GB"
    } else if size >= 1048576 {
        "MB"
    } else {
        "KB"
    };
    let tenths: u64 = ((size as u128 * 20 / (scale as u128) + 1) / 2) as u64;
    let mut r = u64_to_string(tenths / 10);
    r.append(".");
    let frac = u64_to_string(tenths % 10);
    r.append(frac.as_str());
    r.append(" ");
    r.append(unit);
    proof {
        assert(r@ =~= spec_format_file_size(size));
    }
    r
}

/// The index of the last dot of a name, or a negative value when it has
/// none.
pub open spec fn spec_last_dot(name: Seq<char>) -> int
    decreases name.len(),
{
    if name.len() == 0 {
        -1
    } else if name.last() == '.' {
        name.len() - 1
    } else {
        spec_last_dot(name.drop_last())
    }
}

/// What a file is called in lowercase; the result depends on the
/// characters alone.
pub uninterp spec fn spec_lowercase(s: Seq<char>) -> Seq<char>;

/// Relies on `str::to_lowercase`: the result depends on the characters
/// alone.
#[verifier::external_body]
fn lowercase(s: &str) -> (r: String)
    ensures
        r@ == spec_lowercase(s@),
{
    s.to_lowercase()
}

/// The extension of a file name: what follows the last dot, lowercased,
/// unless the name has no dot past its first character.
pub open spec fn spec_file_extension(name: Seq<char>) -> Option<Seq<char>> {
    let k = spec_last_dot(name);
    if k >= 1 {
        Some(spec_lowercase(name.skip(k + 1)))
    } else {
        None
    }
}

/// Extract the extension from a file name, in lowercase.
pub fn get_file_extension(name: &str) -> (r: Option<String>)
    ensures
        match r {
            Some(ext) => spec_file_extension(name@) == Some(ext@),
            None => spec_file_extension(name@) is None,
        },
{
    let len = name.unicode_len();
    proof {
        assert(name@.take(len as int) =~= name@);
    }
    let mut j: usize = len;
    while j > 0 && name.get_char(j - 1) != '.'
        invariant
            j <= len,
            len == name@.len(),
            spec_last_dot(name@) == spec_last_dot(name@.take(j as int)),
        decreases j,
    {
        proof {
            assert(name@.take(j as int).drop_last() =~= name@.take(j - 1));
            assert(name@.take(j as int).last() == name@[j - 1]);
        }
        j -= 1;
    }
    if j >= 2 {
        proof {
            assert(name@.take(j as int).last() == name@[j - 1]);
            assert(spec_last_dot(name@) == j - 1);
        }
        let ext = name.substring_char(j, len);
        proof {
            assert(ext@ =~= name@.skip(j as int));
        }
        Some(lowercase(ext))
    } else {
        proof {
            if j == 1 {
                assert(name@.take(1).last() == name@[0]);
                assert(spec_last_dot(name@) == 0);
            } else {
                assert(name@.take(0).len() == 0);
                assert(spec_last_dot(name@) == -1);
            }
        }
        None
    }
}

/// The comparison key of a header: trimmed, then lowercased.
pub open spec fn spec_header_key(h: Seq<char>) -> Seq<char> {
    spec_lowercase(spec_trim(h))
}

/// The error message for a header list without headers.
pub open spec fn msg_no_headers() -> Seq<char> {
    "CSV file has no headers"@
}

/// The error message for an empty header.
pub open spec fn msg_empty_header() -> Seq<char> {
    "CSV file has empty header"@
}

/// The error message for a duplicate header; cites the trimmed header.
pub open spec fn msg_duplicate_header(h: Seq<char>) -> Seq<char> {
    "CSV file has duplicate header: "@ + h
}

/// The first violation among the headers from position `i` on: an empty
/// trimmed header, or one whose key repeats an earlier header's key.
pub open spec fn spec_header_issue_from(hs: Seq<Seq<char>>, i: int) -> Option<Seq<char>>
    decreases hs.len() - i,
{
    if i < 0 || i >= hs.len() {
        None
    } else {
        let t = spec_trim(hs[i]);
        if t.len() == 0 {
            Some(msg_empty_header())
        } else if exists|j: int| 0 <= j < i && spec_header_key(#[trigger] hs[j]) == spec_header_key(
            hs[i],
        ) {
            Some(msg_duplicate_header(t))
        } else {
            spec_header_issue_from(hs, i + 1)
        }
    }
}

/// The first violation of the header rules: no headers at all, an empty
/// header, or a duplicate header, compared without case after trimming.
pub open spec fn spec_header_issue(hs: Seq<Seq<char>>) -> Option<Seq<char>> {
    if hs.len() == 0 {
        Some(msg_no_headers())
    } else {
        spec_header_issue_from(hs, 0)
    }
}

/// Validate a CSV file's headers: there must be at least one, none may be
/// empty once trimmed, and no two may share a key (trimmed, lowercased).
pub fn validate_csv_format(headers: &Vec<String>) -> (r: Result<(), Error>)
    ensures
        match r {
            Ok(_) => spec_header_issue(headers@.map_values(|h: String| h@)) is None,
            Err(e) => {
                &&& e matches Error::InvalidFormat { message: m }
                &&& Some(m@) == spec_header_issue(headers@.map_values(|h: String| h@))
            },
        },
{
    let ghost hs = headers@.map_values(|h: String| h@);
    if headers.len() == 0 {
        return Err(Error::invalid_format("CSV file has no headers"));
    }
    let mut keys: Vec<String> = Vec::new();
    let mut i: usize = 0;
    while i < headers.len()
        invariant
            i <= headers.len(),
            hs == headers@.map_values(|h: String| h@),
            hs.len() == headers@.len(),
            hs.len() > 0,
            keys@.len() == i,
            forall|j: int| 0 <= j < i ==> (#[trigger] keys@[j])@ == spec_header_key(hs[j]),
            spec_header_issue_from(hs, 0) == spec_header_issue_from(hs, i as int),
        decreases headers.len() - i,
    {
        proof {
            assert(hs[i as int] == headers@[i as int]@);
        }
        let trimmed = trim(headers[i].as_str());
        if trimmed.is_empty() {
            return Err(Error::invalid_format("CSV file has empty header"));
        }
        let key = lowercase(trimmed);
        let mut j: usize = 0;
        while j < i
            invariant
                j <= i,
                i < hs.len(),
                hs == headers@.map_values(|h: String| h@),
                hs.len() == headers@.len(),
                keys@.len() == i,
                spec_header_issue_from(hs, 0) == spec_header_issue_from(hs, i as int),
                trimmed@ == spec_trim(hs[i as int]),
                trimmed@.len() > 0,
                key@ == spec_header_key(hs[i as int]),
                forall|m: int| 0 <= m < i ==> (#[trigger] keys@[m])@ == spec_header_key(hs[m]),
                forall|m: int| 0 <= m < j ==> spec_header_key(#[trigger] hs[m]) != spec_header_key(
                    hs[i as int],
                ),
            decreases i - j,
        {
            if str_eq(keys[j].as_str(), key.as_str()) {
                let mut message = String::from_str("CSV file has duplicate header: ");
                message.append(trimmed);
                proof {
                    assert(message@ =~= msg_duplicate_header(spec_trim(hs[i as int])));
                    assert(spec_header_key(hs[j as int]) == spec_header_key(hs[i as int]));
                    assert(spec_header_issue_from(hs, i as int) == Some(
                        msg_duplicate_header(spec_trim(hs[i as int])),
                    ));
                }
                return Err(Error::invalid_format(message.as_str()));
            }
            j += 1;
        }
        keys.push(key);
        proof {
            assert(spec_header_issue_from(hs, i as int) == spec_header_issue_from(hs, i + 1));
        }
        i += 1;
    }
    Ok(())
}

} // verus!
