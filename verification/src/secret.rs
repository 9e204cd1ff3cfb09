//! The secret from which a node has its keys, and how it is kept.

use crate::error::DiscoveryError;
use crate::outside::{hex_decode, hex_encode, hex_error, random_bytes};
use crate::text::{chars_of, is_space, is_whitespace, lemma_trim_nothing, trim, trimmed};
use vstd::prelude::*;
use vstd::string::*;

verus! {

/// The digit of a value below sixteen.
pub open spec fn hex_char(n: nat) -> char {
    "0123456789abcdef"@[n as int]
}

/// Bytes, written as two small digits each.
pub open spec fn hex_text(bytes: Seq<u8>) -> Seq<char> {
    Seq::new(
        2 * bytes.len(),
        |i: int|
            if i % 2 == 0 {
                hex_char(bytes[i / 2] as nat / 16)
            } else {
                hex_char(bytes[i / 2] as nat % 16)
            },
    )
}

/// The value of a digit, small or capital.
pub open spec fn hex_value(c: char) -> Option<nat> {
    if '0' <= c <= '9' {
        Some((c as int - '0' as int) as nat)
    } else if 'a' <= c <= 'f' {
        Some((c as int - 'a' as int + 10) as nat)
    } else if 'A' <= c <= 'F' {
        Some((c as int - 'A' as int + 10) as nat)
    } else {
        None
    }
}

/// The bytes that pairs of digits write.
pub open spec fn hex_bytes(text: Seq<char>) -> Option<Seq<u8>> {
    if text.len() % 2 == 0 && (forall|i: int| 0 <= i < text.len() ==> hex_value(#[trigger] text[i]) is Some) {
        Some(
            Seq::new(
                text.len() / 2,
                |i: int| (hex_value(text[2 * i])->0 * 16 + hex_value(text[2 * i + 1])->0) as u8,
            ),
        )
    } else {
        None
    }
}

/// Bytes that are written read back as themselves.
pub proof fn law_hex_reads_back(bytes: Seq<u8>)
    ensures
        hex_bytes(hex_text(bytes)) == Some(bytes),
{
    reveal_strlit("0123456789abcdef");
    let text = hex_text(bytes);
    assert forall|i: int| 0 <= i < text.len() implies hex_value(#[trigger] text[i]) == Some(
        if i % 2 == 0 {
            bytes[i / 2] as nat / 16
        } else {
            bytes[i / 2] as nat % 16
        },
    ) by {
        lemma_hex_digit(bytes[i / 2] as nat / 16);
        lemma_hex_digit(bytes[i / 2] as nat % 16);
    }
    let back = hex_bytes(text)->0;
    assert forall|i: int| 0 <= i < bytes.len() implies #[trigger] back[i] == bytes[i] by {
        assert(hex_value(text[2 * i]) == Some(bytes[i] as nat / 16));
        assert(hex_value(text[2 * i + 1]) == Some(bytes[i] as nat % 16));
    }
    assert(back =~= bytes);
}

/// A digit has the value that it was made for.
proof fn lemma_hex_digit(n: nat)
    requires
        n < 16,
    ensures
        hex_value(hex_char(n)) == Some(n),
{
    reveal_strlit("0123456789abcdef");
}

/// `s` without the mark of hexadecimal digits that it may start with.
pub open spec fn without_mark(s: Seq<char>) -> Seq<char> {
    if s.len() >= 2 && s[0] == '0' && s[1] == 'x' {
        s.skip(2)
    } else {
        s
    }
}

/// `s` without its white space.
pub open spec fn without_space(s: Seq<char>) -> Seq<char> {
    s.filter(|c: char| !is_space(c))
}

/// The digits of a stored secret.
pub open spec fn secret_digits(contents: Seq<char>) -> Seq<char> {
    without_space(without_mark(trimmed(contents)))
}

/// What reading a stored secret gives: its bytes, if its digits write 32 of them.
pub open spec fn is_decoded(contents: Seq<char>, r: Result<[u8; 32], DiscoveryError>) -> bool {
    let digits = secret_digits(contents);
    match hex_bytes(digits) {
        None => r matches Err(DiscoveryError::InvalidKeyHex(reason)) && reason@ == hex_error(digits),
        Some(bytes) => if bytes.len() == 32 {
            r matches Ok(secret) && secret@ == bytes
        } else {
            r matches Err(DiscoveryError::KeyLength(n)) && n == bytes.len()
        },
    }
}

/// Reads a stored secret.
pub fn decode_secret(contents: &str) -> (r: Result<[u8; 32], DiscoveryError>)
    ensures
        is_decoded(contents@, r),
{
    let text = trim(contents);
    let chars = chars_of(text);
    let first: usize = if chars.len() >= 2 && chars[0] == '0' && chars[1] == 'x' {
        2
    } else {
        0
    };
    let ghost rest = without_mark(text@);
    let ghost keep = |c: char| !is_space(c);
    let mut digits: String = String::new();
    proof {
        assert(rest =~= text@.skip(first as int));
        assert(digits@ =~= rest.take(0).filter(keep));
    }
    for k in first..chars.len()
        invariant
            chars@ == text@,
            rest == text@.skip(first as int),
            first <= chars.len(),
            keep == (|c: char| !is_space(c)),
            digits@ == rest.take(k - first).filter(keep),
    {
        proof {
            assert(rest.take(k + 1 - first).drop_last() =~= rest.take(k - first));
            assert(rest.take(k + 1 - first).last() == chars[k as int]);
            reveal(Seq::filter);
        }
        if !is_whitespace(chars[k]) {
            let ghost before = digits@;
            digits.append(text.substring_char(k, k + 1));
            assert(digits@ =~= before.push(chars[k as int]));
        }
    }
    assert(rest.take(rest.len() as int) =~= rest);
    let bytes = match hex_decode(digits.as_str()) {
        Ok(bytes) => bytes,
        Err(e) => {
            return Err(DiscoveryError::InvalidKeyHex(e));
        },
    };
    if bytes.len() != 32 {
        return Err(DiscoveryError::KeyLength(bytes.len()));
    }
    let mut secret: [u8; 32] = [0u8; 32];
    for k in 0..32usize
        invariant
            bytes.len() == 32,
            forall|i: int| 0 <= i < k ==> secret[i] == bytes[i],
    {
        secret[k] = bytes[k];
    }
    assert(secret@ =~= bytes@);
    Ok(secret)
}

/// Writes a secret as it is stored.
pub fn encode_secret(secret: &[u8; 32]) -> (text: String)
    ensures
        text@ == hex_text(secret@),
{
    hex_encode(secret)
}

/// A new secret, drawn at random.
pub fn random_secret() -> (secret: [u8; 32]) {
    random_bytes()
}

/// What there is where a secret is kept.
#[derive(Debug, PartialEq)]
pub enum StoredSecret {
    /// No place is set.
    NoPlace,
    /// The place holds nothing yet.
    Absent,
    /// The place holds this text.
    Present(String),
}

/// A secret, and what is to be stored so that it is found again.
#[derive(Debug, PartialEq)]
pub struct LoadedSecret {
    /// The secret.
    pub secret: [u8; 32],
    /// What is to be stored, if anything.
    pub to_store: Option<String>,
}

/// What comes of what there is where a secret is kept: the stored secret, or else a new one, to be stored if a
/// place is set.
pub open spec fn is_loaded(stored: StoredSecret, r: Result<LoadedSecret, DiscoveryError>) -> bool {
    match stored {
        StoredSecret::Present(contents) => match r {
            Ok(loaded) => is_decoded(contents@, Ok(loaded.secret)) && loaded.to_store is None,
            Err(e) => is_decoded(contents@, Err(e)),
        },
        StoredSecret::Absent => r matches Ok(loaded) && (loaded.to_store matches Some(text) && text@ == hex_text(
            loaded.secret@,
        )),
        StoredSecret::NoPlace => r matches Ok(loaded) && loaded.to_store is None,
    }
}

/// Takes over the stored secret, or draws a new one.
pub fn load_or_generate_secret(stored: StoredSecret) -> (r: Result<LoadedSecret, DiscoveryError>)
    ensures
        is_loaded(stored, r),
{
    match stored {
        StoredSecret::Present(contents) => match decode_secret(contents.as_str()) {
            Ok(secret) => Ok(LoadedSecret { secret, to_store: None }),
            Err(e) => Err(e),
        },
        StoredSecret::Absent => {
            let secret = random_secret();
            let text = encode_secret(&secret);
            Ok(LoadedSecret { secret, to_store: Some(text) })
        },
        StoredSecret::NoPlace => Ok(LoadedSecret { secret: random_secret(), to_store: None }),
    }
}

/// A secret that is stored is read back as itself.
pub proof fn law_stored_secret_reads_back(secret: [u8; 32], r: Result<[u8; 32], DiscoveryError>)
    ensures
        is_decoded(hex_text(secret@), r) <==> r == Ok::<[u8; 32], DiscoveryError>(secret),
{
    let text = hex_text(secret@);
    law_hex_reads_back(secret@);
    assert forall|i: int| 0 <= i < text.len() implies !is_space(#[trigger] text[i]) && text[i] != 'x' by {
        assert(hex_value(text[i]) is Some);
    }
    lemma_trim_nothing(text);
    assert(without_mark(text) =~= text);
    lemma_without_space(text);
    if let Ok(s) = r {
        if s@ == secret@ {
            assert(s == secret);
        }
    }
}

/// A secret that is stored with the mark of hexadecimal digits before it is read back as itself, too.
pub proof fn law_marked_secret_reads_back(secret: [u8; 32], r: Result<[u8; 32], DiscoveryError>)
    ensures
        is_decoded(seq!['0', 'x'] + hex_text(secret@), r) <==> r == Ok::<[u8; 32], DiscoveryError>(secret),
{
    let text = hex_text(secret@);
    let marked = seq!['0', 'x'] + text;
    law_stored_secret_reads_back(secret, r);
    law_hex_reads_back(secret@);
    assert forall|i: int| 0 <= i < text.len() implies !is_space(#[trigger] text[i]) by {
        assert(hex_value(text[i]) is Some);
    }
    assert(!is_space(text[text.len() - 1]));
    assert(marked.last() == text[text.len() - 1]);
    lemma_trim_nothing(marked);
    assert(without_mark(marked) =~= text);
    lemma_without_space(text);
    if let Ok(s) = r {
        if s@ == secret@ {
            assert(s == secret);
        }
    }
}

/// A secret that was drawn and stored is the one that is loaded from then on.
pub proof fn law_generated_secret_is_found_again(
    loaded: LoadedSecret,
    text: String,
    again: Result<LoadedSecret, DiscoveryError>,
)
    requires
        is_loaded(StoredSecret::Absent, Ok(loaded)),
        loaded.to_store == Some(text),
        is_loaded(StoredSecret::Present(text), again),
    ensures
        again == Ok::<LoadedSecret, DiscoveryError>(LoadedSecret { secret: loaded.secret, to_store: None }),
{
    match again {
        Ok(found) => {
            law_stored_secret_reads_back(loaded.secret, Ok(found.secret));
        },
        Err(e) => {
            law_stored_secret_reads_back(loaded.secret, Err(e));
        },
    }
}

/// Text without white space loses nothing with its white space.
proof fn lemma_without_space(s: Seq<char>)
    requires
        forall|i: int| 0 <= i < s.len() ==> !is_space(#[trigger] s[i]),
    ensures
        without_space(s) == s,
    decreases s.len(),
{
    reveal(Seq::filter);
    if s.len() > 0 {
        let rest = s.drop_last();
        assert forall|i: int| 0 <= i < rest.len() implies !is_space(#[trigger] rest[i]) by {
            assert(rest[i] == s[i]);
        }
        lemma_without_space(rest);
        assert(!is_space(s[s.len() - 1]));
        assert(rest.push(s.last()) =~= s);
    }
}

/// A digit is one of sixteen, its letters small or capital, and has the value that it has in base sixteen.
pub proof fn law_hexadecimal_digits(c: char)
    ensures
        '0' <= c <= '9' ==> hex_value(c) == Some(((c as int) - 48) as nat),
        'a' <= c <= 'f' ==> hex_value(c) == Some(((c as int) - 87) as nat),
        'A' <= c <= 'F' ==> hex_value(c) == Some(((c as int) - 55) as nat),
        !('0' <= c <= '9') && !('a' <= c <= 'f') && !('A' <= c <= 'F') ==> hex_value(c) is None,
{
}

/// Bytes are written as two digits each, the more significant one first, and letters are small.
pub proof fn law_bytes_are_written_as_pairs(bytes: Seq<u8>, i: int)
    requires
        0 <= i < bytes.len(),
    ensures
        hex_text(bytes).len() == 2 * bytes.len(),
        hex_value(hex_text(bytes)[2 * i]) == Some(bytes[i] as nat / 16),
        hex_value(hex_text(bytes)[2 * i + 1]) == Some(bytes[i] as nat % 16),
        !('A' <= hex_text(bytes)[2 * i] <= 'Z'),
        !('A' <= hex_text(bytes)[2 * i + 1] <= 'Z'),
{
    reveal_strlit("0123456789abcdef");
    lemma_hex_digit(bytes[i] as nat / 16);
    lemma_hex_digit(bytes[i] as nat % 16);
}

/// A stored secret is read if and only if its digits are sixty-four and nothing but digits, and then each pair of them
/// is a byte of it. What is said otherwise is how many bytes there are, if they are digits in pairs.
pub proof fn law_secret_is_thirty_two_pairs(contents: Seq<char>, r: Result<[u8; 32], DiscoveryError>, i: int)
    requires
        is_decoded(contents, r),
    ensures
        r matches Ok(secret) ==> secret_digits(contents).len() == 64 && (0 <= i < 32 ==> hex_value(
            secret_digits(contents)[2 * i],
        ) is Some && hex_value(secret_digits(contents)[2 * i + 1]) is Some && secret[i] as nat == hex_value(
            secret_digits(contents)[2 * i],
        )->0 * 16 + hex_value(secret_digits(contents)[2 * i + 1])->0),
        r matches Err(e) ==> (if secret_digits(contents).len() % 2 == 0 && (forall|k: int|
            0 <= k < secret_digits(contents).len() ==> hex_value(#[trigger] secret_digits(contents)[k]) is Some) {
            e matches DiscoveryError::KeyLength(n) && n != 32 && 2 * n == secret_digits(contents).len()
        } else {
            e matches DiscoveryError::InvalidKeyHex(reason) && reason@ == hex_error(secret_digits(contents))
        }),
{
    let digits = secret_digits(contents);
    if let Ok(secret) = r {
        if 0 <= i < 32 {
            let bytes = hex_bytes(digits)->0;
            assert(secret@[i] == bytes[i]);
            assert(hex_value(digits[2 * i]) is Some);
            assert(hex_value(digits[2 * i + 1]) is Some);
            assert(hex_value(digits[2 * i])->0 < 16 && hex_value(digits[2 * i + 1])->0 < 16);
        }
    }
}

/// The digits of a stored secret are its text without white space, wherever that stands, and without the mark of
/// hexadecimal digits, if it starts with that. Nothing else is passed over.
pub proof fn law_space_in_a_secret_is_passed_over(s: Seq<char>, c: char)
    ensures
        without_space(Seq::empty()) == Seq::<char>::empty(),
        is_space(c) ==> without_space(s.push(c)) == without_space(s),
        !is_space(c) ==> without_space(s.push(c)) == without_space(s).push(c),
        secret_digits(s) == without_space(without_mark(trimmed(s))),
        without_mark(seq!['0', 'x'] + s) == s,
        !(s.len() >= 2 && s[0] == '0' && s[1] == 'x') ==> without_mark(s) == s,
{
    reveal(Seq::filter);
    assert(s.push(c).drop_last() =~= s);
    assert((seq!['0', 'x'] + s).skip(2) =~= s);
}

/// A stored secret is taken over as it reads, or its error is, and nothing is stored. Without one, a secret is drawn; it
/// is stored if a place is set for it, and only then.
pub proof fn law_secret_is_stored_only_when_drawn(
    stored: StoredSecret,
    r: Result<LoadedSecret, DiscoveryError>,
)
    requires
        is_loaded(stored, r),
    ensures
        r matches Ok(loaded) ==> (loaded.to_store is Some <==> stored is Absent),
        r is Err ==> stored is Present,
        stored matches StoredSecret::Present(contents) ==> (match r {
            Ok(loaded) => is_decoded(contents@, Ok(loaded.secret)),
            Err(e) => is_decoded(contents@, Err(e)),
        }),
        r matches Ok(loaded) ==> (loaded.to_store matches Some(text) ==> text@ == hex_text(loaded.secret@)),
{
}

}
