//! SHA-256 over a stream of chunks, and the hexadecimal form of a digest.

use vstd::prelude::*;
use vstd::string::*;

verus! {

/// A running SHA-256 computation: `sha2::Sha256`. The verifier cannot take
/// that type as it is declared, so the hasher is held here as a value that
/// nothing looks into.
#[verifier::external_body]
pub struct Hasher {
    inner: sha2::Sha256,
}

/// All the bytes a hasher has been fed so far, in order.
pub uninterp spec fn hasher_input(hasher: Hasher) -> Seq<u8>;

/// The SHA-256 digest of a byte string, as `sha2` computes it.
pub uninterp spec fn sha256(data: Seq<u8>) -> Seq<u8>;

/// Calls `sha2::Digest::new` for `sha2::Sha256`. Claims: the new hasher has
/// been fed nothing.
#[verifier::external_body]
pub(crate) fn hasher_new() -> (hasher: Hasher)
    ensures
        hasher_input(hasher) == Seq::<u8>::empty(),
{
    Hasher { inner: sha2::Digest::new() }
}

/// Calls `sha2::Digest::update`. Claims: feeding a chunk appends it to what
/// the hasher has been fed, so that only the concatenation of the chunks
/// matters, not where they were cut.
#[verifier::external_body]
pub(crate) fn hasher_update(hasher: &mut Hasher, data: &[u8])
    ensures
        hasher_input(*final(hasher)) == hasher_input(*old(hasher)) + data@,
{
    sha2::Digest::update(&mut hasher.inner, data);
}

/// Calls `sha2::Digest::finalize`. Claims: the result is the digest of all
/// that the hasher has been fed.
#[verifier::external_body]
pub(crate) fn hasher_finalize(hasher: Hasher) -> (digest: Vec<u8>)
    ensures
        digest@ == sha256(hasher_input(hasher)),
{
    sha2::Digest::finalize(hasher.inner).to_vec()
}

/// The lower-case hexadecimal digit for a value below 16.
pub open spec fn hex_digit(nibble: int) -> char {
    if nibble < 10 {
        ('0' as int + nibble) as char
    } else {
        ('a' as int + nibble - 10) as char
    }
}

/// Two lower-case hexadecimal digits per byte, high digit first.
pub open spec fn hex_string(data: Seq<u8>) -> Seq<char> {
    Seq::new(
        2 * data.len(),
        |i: int|
            if i % 2 == 0 {
                hex_digit(data[i / 2] as int / 16)
            } else {
                hex_digit(data[i / 2] as int % 16)
            },
    )
}

/// The text of one hexadecimal digit.
fn hex_digit_text(nibble: u8) -> (text: &'static str)
    requires
        nibble < 16,
    ensures
        text@ == seq![hex_digit(nibble as int)],
{
    proof {
        reveal_strlit("0");
        reveal_strlit("1");
        reveal_strlit("2");
        reveal_strlit("3");
        reveal_strlit("4");
        reveal_strlit("5");
        reveal_strlit("6");
        reveal_strlit("7");
        reveal_strlit("8");
        reveal_strlit("9");
        reveal_strlit("a");
        reveal_strlit("b");
        reveal_strlit("c");
        reveal_strlit("d");
        reveal_strlit("e");
        reveal_strlit("f");
    }
    let text = match nibble {
        0 => "0",
        1 => "1",
        2 => "2",
        3 => "3",
        4 => "4",
        5 => "5",
        6 => "6",
        7 => "7",
        8 => "8",
        9 => "9",
        10 => "a",
        11 => "b",
        12 => "c",
        13 => "d",
        14 => "e",
        _ => "f",
    };
    assert(text@ =~= seq![hex_digit(nibble as int)]);
    text
}

/// Whether two byte strings are the same.
pub fn same_bytes(left: &[u8], right: &[u8]) -> (same: bool)
    ensures
        same == (left@ == right@),
{
    if left.len() != right.len() {
        return false;
    }
    let mut i: usize = 0;
    while i < left.len()
        invariant
            left@.len() == right@.len(),
            i <= left@.len(),
            forall|j: int| 0 <= j < i ==> left@[j] == right@[j],
        decreases left@.len() - i,
    {
        if left[i] != right[i] {
            return false;
        }
        i = i + 1;
    }
    assert(left@ =~= right@);
    true
}

/// The hexadecimal form of a digest, for reports.
pub fn digest_hex(digest: &[u8]) -> (text: String)
    ensures
        text@ == hex_string(digest@),
        text@.len() == 2 * digest@.len(),
{
    let mut text = String::new();
    let mut i: usize = 0;
    assert(text@ =~= hex_string(digest@.take(0)));
    while i < digest.len()
        invariant
            i <= digest@.len(),
            text@ == hex_string(digest@.take(i as int)),
        decreases digest@.len() - i,
    {
        let byte: u8 = digest[i];
        let ghost before = text@;
        text.append(hex_digit_text(byte / 16));
        text.append(hex_digit_text(byte % 16));
        proof {
            let shorter = digest@.take(i as int);
            let longer = digest@.take(i as int + 1);
            assert(longer[i as int] == byte);
            assert forall|j: int| 0 <= j < 2 * i implies hex_string(longer)[j] == hex_string(
                shorter,
            )[j] by {
                assert(longer[j / 2] == shorter[j / 2]);
            }
            assert(text@ =~= hex_string(longer));
        }
        i = i + 1;
    }
    assert(digest@.take(i as int) =~= digest@);
    text
}

} // verus!
