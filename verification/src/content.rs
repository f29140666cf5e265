//! What goes into one generated file: random filler, with a fixed test
//! signature in front of it when asked for.

use crate::random::RandomSource;
use vstd::prelude::*;
use vstd::string::*;

verus! {

/// The length of the test signature, in bytes.
pub const SIGNATURE_LENGTH: usize = 68;

/// The test signature that virus scanners agree to report, as text: 68
/// printable ASCII characters.
pub const SIGNATURE_TEXT: &'static str =
    "X5O!P%@AP[4\\PZX54(P^)7CC)7}$EICAR-STANDARD-ANTIVIRUS-TEST-FILE!$H+H*";

/// The test signature: one byte for each character of its text.
pub open spec fn signature() -> Seq<u8> {
    Seq::new(SIGNATURE_LENGTH as nat, |i: int| SIGNATURE_TEXT@[i] as u8)
}

/// How many bytes of filler follow the signature under a size limit of
/// `max_size`: what the limit leaves after the signature, and none where the
/// limit is shorter than the signature.
pub open spec fn padding_length(max_size: nat) -> nat {
    if max_size > SIGNATURE_LENGTH {
        (max_size - SIGNATURE_LENGTH) as nat
    } else {
        0
    }
}

/// What a file's bytes must satisfy. With a signature, they are the whole
/// signature followed by the padding that the limit leaves. Without one,
/// there are at least one and at most `max_size` of them.
pub open spec fn admissible_content(content: Seq<u8>, max_size: nat, use_signature: bool) -> bool {
    if use_signature {
        &&& content.len() == SIGNATURE_LENGTH + padding_length(max_size)
        &&& content.take(SIGNATURE_LENGTH as int) == signature()
    } else {
        1 <= content.len() <= max_size
    }
}

/// The bytes of a file, from its filler.
pub open spec fn composed(filler: Seq<u8>, use_signature: bool) -> Seq<u8> {
    if use_signature {
        signature() + filler
    } else {
        filler
    }
}

/// The test signature.
pub fn signature_bytes() -> (bytes: Vec<u8>)
    ensures
        bytes@ == signature(),
{
    proof {
        reveal_strlit("X5O!P%@AP[4\\PZX54(P^)7CC)7}$EICAR-STANDARD-ANTIVIRUS-TEST-FILE!$H+H*");
    }
    assert(is_ascii(SIGNATURE_TEXT));
    let bytes = SIGNATURE_TEXT.as_bytes_vec();
    proof {
        is_ascii_spec_bytes(SIGNATURE_TEXT);
        assert(bytes@ =~= signature());
    }
    bytes
}

/// Puts the signature, where one is asked for, in front of the filler.
pub fn compose_content(filler: Vec<u8>, use_signature: bool) -> (content: Vec<u8>)
    ensures
        content@ == composed(filler@, use_signature),
{
    if use_signature {
        let mut content = signature_bytes();
        let mut filler = filler;
        content.append(&mut filler);
        content
    } else {
        filler
    }
}

/// The number of filler bytes for a file under the given limit: the padding
/// behind a signature, or else a random length from one up to the limit.
pub fn filler_length(
    source: &mut RandomSource,
    max_size: usize,
    use_signature: bool,
) -> (len: usize)
    requires
        max_size >= 1,
    ensures
        use_signature ==> len == padding_length(max_size as nat),
        !use_signature ==> 1 <= len <= max_size,
{
    if use_signature {
        if max_size > SIGNATURE_LENGTH {
            max_size - SIGNATURE_LENGTH
        } else {
            0
        }
    } else {
        source.next_between(1, max_size)
    }
}

/// The bytes of one file under the given limit, its filler drawn from
/// `source`.
pub fn random_file_content(
    source: &mut RandomSource,
    max_size: usize,
    use_signature: bool,
) -> (content: Vec<u8>)
    requires
        max_size >= 1,
    ensures
        admissible_content(content@, max_size as nat, use_signature),
{
    let len = filler_length(source, max_size, use_signature);
    let filler = source.next_bytes(len);
    let content = compose_content(filler, use_signature);
    assert(use_signature ==> content@.take(SIGNATURE_LENGTH as int) =~= signature());
    content
}

/// With a signature and a limit of at least the signature's length, a file
/// begins with the signature and is exactly as long as the limit.
pub proof fn lemma_signed_content_fills_limit(content: Seq<u8>, max_size: nat)
    requires
        admissible_content(content, max_size, true),
        max_size >= SIGNATURE_LENGTH,
    ensures
        content.len() == max_size,
        signature().is_prefix_of(content),
{
}

/// With a signature and a limit shorter than the signature, a file is the
/// whole signature and nothing else: the limit does not cut it.
pub proof fn lemma_short_limit_keeps_signature(content: Seq<u8>, max_size: nat)
    requires
        admissible_content(content, max_size, true),
        max_size < SIGNATURE_LENGTH,
    ensures
        content == signature(),
{
    assert(content =~= content.take(SIGNATURE_LENGTH as int));
}

} // verus!
