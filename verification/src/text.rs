//! Text of a byte prefix, and the prefix match on it.

use vstd::prelude::*;
use vstd::string::*;
use vstd::utf8::*;

verus! {

/// What lossy decoding makes of bytes that are not valid UTF-8: the text in
/// which every invalid sequence is replaced by U+FFFD.
pub uninterp spec fn repaired_text(bytes: Seq<u8>) -> Seq<char>;

/// The text that lossy decoding makes of `bytes`: the decoded characters where
/// the bytes are valid UTF-8, the repaired text otherwise.
pub open spec fn lossy_text(bytes: Seq<u8>) -> Seq<char> {
    if valid_utf8(bytes) {
        decode_utf8(bytes)
    } else {
        repaired_text(bytes)
    }
}

/// Calls `String::from_utf8_lossy` and takes ownership of the text.
///
/// Trusted: valid UTF-8 comes back as the characters it encodes; for anything
/// else the result is the value that std computes from the bytes alone, known
/// here only by the name `repaired_text`.
#[verifier::external_body]
fn from_utf8_lossy(bytes: &[u8]) -> (text: String)
    ensures
        valid_utf8(bytes@) ==> text@ == decode_utf8(bytes@),
        !valid_utf8(bytes@) ==> text@ == repaired_text(bytes@),
{
    String::from_utf8_lossy(bytes).into_owned()
}

/// Decodes `bytes` as text, never failing.
pub fn decode_lossy(bytes: &[u8]) -> (text: String)
    ensures
        text@ == lossy_text(bytes@),
{
    from_utf8_lossy(bytes)
}

/// Whether `text` begins with `marker`, character by character and
/// case-sensitive. Every text begins with the empty marker.
pub fn starts_with(text: &str, marker: &str) -> (hit: bool)
    ensures
        hit == marker@.is_prefix_of(text@),
{
    let wanted: usize = marker.unicode_len();
    let have: usize = text.unicode_len();
    if wanted > have {
        return false;
    }
    let mut i: usize = 0;
    while i < wanted
        invariant
            wanted == marker@.len(),
            have == text@.len(),
            wanted <= have,
            i <= wanted,
            forall|k: int| 0 <= k < i ==> marker@[k] == text@[k],
        decreases wanted - i,
    {
        if marker.get_char(i) != text.get_char(i) {
            assert(marker@[i as int] != text@.subrange(0, marker@.len() as int)[i as int]);
            return false;
        }
        i += 1;
    }
    assert(marker@ =~= text@.subrange(0, marker@.len() as int));
    true
}

/// On valid UTF-8 the match on the text is a match on the bytes: the decoded
/// text begins with the marker exactly when the bytes begin with the marker's
/// encoding.
pub proof fn text_match_is_byte_match(bytes: Seq<u8>, marker: Seq<char>)
    requires
        valid_utf8(bytes),
    ensures
        marker.is_prefix_of(decode_utf8(bytes)) <==> encode_utf8(marker).is_prefix_of(bytes),
    decreases marker.len(),
{
    let text = decode_utf8(bytes);
    let code = encode_utf8(marker);
    if marker.len() == 0 {
        assert(marker =~= text.subrange(0, 0));
        assert(code =~= bytes.subrange(0, 0));
    } else {
        let tail = marker.drop_first();
        let head_code = encode_scalar(marker[0] as u32);
        let tail_code = encode_utf8(tail);
        encode_utf8_first_scalar(marker);
        assert(code == head_code + tail_code);
        assert(1 <= head_code.len() <= 4);
        if bytes.len() == 0 {
            assert(text.len() == 0);
        } else {
            let first = decode_first_scalar(bytes) as char;
            let rest = pop_first_scalar(bytes);
            let k = length_of_first_scalar(bytes);
            assert(1 <= k <= bytes.len());
            assert(text == seq![first] + decode_utf8(rest));
            assert(text.drop_first() =~= decode_utf8(rest));
            assert(text[0] == first);
            decode_utf8_first_scalar(bytes);
            char_is_scalar(first);
            assert(encode_scalar(first as u32) == bytes.subrange(0, k));
            text_match_is_byte_match(rest, tail);
            if marker.is_prefix_of(text) {
                assert(marker[0] == text.subrange(0, marker.len() as int)[0]);
                assert(marker[0] == first);
                assert(tail =~= decode_utf8(rest).subrange(0, tail.len() as int)) by {
                    assert forall|i: int| 0 <= i < tail.len() implies tail[i] == decode_utf8(
                        rest,
                    )[i] by {
                        assert(marker[i + 1] == text.subrange(0, marker.len() as int)[i + 1]);
                    }
                }
                assert(tail.is_prefix_of(decode_utf8(rest)));
                assert(tail_code.is_prefix_of(rest));
                assert(head_code == bytes.subrange(0, k));
                assert(code =~= bytes.subrange(0, code.len() as int)) by {
                    assert forall|i: int| 0 <= i < code.len() implies code[i] == bytes[i] by {
                        if i < k {
                            assert(code[i] == bytes.subrange(0, k)[i]);
                        } else {
                            assert(code[i] == tail_code[i - k]);
                            assert(tail_code[i - k] == rest.subrange(
                                0,
                                tail_code.len() as int,
                            )[i - k]);
                        }
                    }
                }
            }
            if code.is_prefix_of(bytes) {
                assert forall|i: int| 0 <= i < code.len() implies code[i] == bytes[i] by {
                    assert(code[i] == bytes.subrange(0, code.len() as int)[i]);
                }
                assert(code[0] == bytes[0]);
                assert(length_of_first_scalar(code) == k);
                assert(head_code.len() == k);
                assert(decode_first_scalar(code) == decode_first_scalar(bytes)) by {
                    if k >= 2 {
                        assert(code[1] == bytes[1]);
                    }
                    if k >= 3 {
                        assert(code[2] == bytes[2]);
                    }
                    if k >= 4 {
                        assert(code[3] == bytes[3]);
                    }
                }
                char_u32_cast(marker[0], marker[0] as u32);
                assert(first == marker[0]);
                assert(tail_code =~= rest.subrange(0, tail_code.len() as int)) by {
                    assert forall|i: int| 0 <= i < tail_code.len() implies tail_code[i]
                        == rest[i] by {
                        assert(tail_code[i] == code[i + k]);
                        assert(rest[i] == bytes[i + k]);
                    }
                }
                assert(tail_code.is_prefix_of(rest));
                assert(tail.is_prefix_of(decode_utf8(rest)));
                assert(marker =~= text.subrange(0, marker.len() as int)) by {
                    assert forall|i: int| 0 <= i < marker.len() implies marker[i] == text[i] by {
                        if i > 0 {
                            assert(tail[i - 1] == decode_utf8(rest).subrange(
                                0,
                                tail.len() as int,
                            )[i - 1]);
                        }
                    }
                }
            }
        }
    }
}

} // verus!
