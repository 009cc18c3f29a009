//! `file://` URIs and the paths that they stand for.
use crate::platform::{NovaError, Reason};
use crate::text::starts_with;
use vstd::prelude::*;
use vstd::string::*;
use vstd::utf8::*;

verus! {

/// The value of a hexadecimal digit.
pub open spec fn hex_digit(b: u8) -> Option<u8> {
    if 48 <= b <= 57 {
        Some((b - 48) as u8)
    } else if 97 <= b <= 102 {
        Some((b - 87) as u8)
    } else if 65 <= b <= 70 {
        Some((b - 55) as u8)
    } else {
        None
    }
}

/// The byte that the two characters behind a `%` stand for, if both are hexadecimal digits.
pub open spec fn hex_byte(a: u8, b: u8) -> Option<u8> {
    match (hex_digit(a), hex_digit(b)) {
        (Some(high), Some(low)) => Some((high * 16 + low) as u8),
        _ => None,
    }
}

/// Text with its percent escapes replaced by the bytes that they stand for. A `%` that starts no
/// escape stands for itself.
pub open spec fn percent_decoded(raw: Seq<u8>) -> Seq<u8>
    decreases raw.len(),
{
    if raw.len() == 0 {
        Seq::empty()
    } else if raw[0] == 37 && raw.len() > 2 && hex_byte(raw[1], raw[2]) is Some {
        seq![hex_byte(raw[1], raw[2])->0] + percent_decoded(raw.skip(3))
    } else {
        seq![raw[0]] + percent_decoded(raw.skip(1))
    }
}

/// Whether `raw` is a percent-encoding of `bytes`: each byte stands there as itself, unless it is
/// a `%`, or as a `%` and two hexadecimal digits.
pub open spec fn percent_encodes(raw: Seq<u8>, bytes: Seq<u8>) -> bool
    decreases raw.len(),
{
    if raw.len() == 0 || bytes.len() == 0 {
        raw.len() == 0 && bytes.len() == 0
    } else if raw[0] == 37 {
        &&& raw.len() > 2
        &&& hex_digit(raw[1]) is Some
        &&& hex_digit(raw[2]) is Some
        &&& bytes[0] == hex_digit(raw[1])->0 * 16 + hex_digit(raw[2])->0
        &&& percent_encodes(raw.skip(3), bytes.skip(1))
    } else {
        raw[0] == bytes[0] && percent_encodes(raw.skip(1), bytes.skip(1))
    }
}

/// Decoding undoes every percent-encoding.
pub proof fn lemma_decoding_undoes_encoding(raw: Seq<u8>, bytes: Seq<u8>)
    requires
        percent_encodes(raw, bytes),
    ensures
        percent_decoded(raw) == bytes,
    decreases raw.len(),
{
    if raw.len() == 0 {
        assert(bytes =~= Seq::<u8>::empty());
    } else if raw[0] == 37 {
        lemma_decoding_undoes_encoding(raw.skip(3), bytes.skip(1));
        assert(bytes =~= seq![bytes[0]] + bytes.skip(1));
    } else {
        lemma_decoding_undoes_encoding(raw.skip(1), bytes.skip(1));
        assert(bytes =~= seq![bytes[0]] + bytes.skip(1));
    }
}

/// Text without a `%` is its own decoding.
pub proof fn lemma_plain_text_decodes_to_itself(raw: Seq<u8>)
    requires
        forall|i: int| 0 <= i < raw.len() ==> raw[i] != 37,
    ensures
        percent_decoded(raw) == raw,
    decreases raw.len(),
{
    if raw.len() > 0 {
        lemma_plain_text_decodes_to_itself(raw.skip(1));
        assert(raw =~= seq![raw[0]] + raw.skip(1));
    } else {
        assert(raw =~= Seq::<u8>::empty());
    }
}

fn hex_digit_value(b: u8) -> (value: Option<u8>)
    ensures
        value == hex_digit(b),
        value matches Some(v) ==> v < 16,
{
    if 48 <= b && b <= 57 {
        Some(b - 48)
    } else if 97 <= b && b <= 102 {
        Some(b - 87)
    } else if 65 <= b && b <= 70 {
        Some(b - 55)
    } else {
        None
    }
}

fn hex_byte_value(a: u8, b: u8) -> (value: Option<u8>)
    ensures
        value == hex_byte(a, b),
{
    match (hex_digit_value(a), hex_digit_value(b)) {
        (Some(high), Some(low)) => Some(high * 16 + low),
        _ => None,
    }
}

/// Replaces the percent escapes of a text by the bytes that they stand for.
pub fn percent_decode(raw: &[u8]) -> (bytes: Vec<u8>)
    ensures
        bytes@ == percent_decoded(raw@),
{
    let mut bytes: Vec<u8> = Vec::new();
    let mut i: usize = 0;
    assert(raw@.skip(0) =~= raw@);
    assert(bytes@ + percent_decoded(raw@) =~= percent_decoded(raw@));
    while i < raw.len()
        invariant
            i <= raw@.len(),
            bytes@ + percent_decoded(raw@.skip(i as int)) == percent_decoded(raw@),
        decreases raw.len() - i,
    {
        let ghost before = bytes@;
        let ghost rest = raw@.skip(i as int);
        if raw[i] == 37 && raw.len() - i > 2 {
            if let Some(value) = hex_byte_value(raw[i + 1], raw[i + 2]) {
                bytes.push(value);
                i = i + 3;
                assert(rest.skip(3) =~= raw@.skip(i as int));
                assert(bytes@ + percent_decoded(raw@.skip(i as int)) =~= before + percent_decoded(
                    rest,
                ));
                continue ;
            }
        }
        bytes.push(raw[i]);
        i = i + 1;
        assert(rest.skip(1) =~= raw@.skip(i as int));
        assert(bytes@ + percent_decoded(raw@.skip(i as int)) =~= before + percent_decoded(rest));
    }
    assert(bytes@ + percent_decoded(raw@.skip(i as int)) =~= bytes@);
    bytes
}

/// The text that `String::from_utf8_lossy` makes of bytes.
pub uninterp spec fn lossy_text(bytes: Seq<u8>) -> Seq<char>;

/// `String::from_utf8_lossy`: UTF-8 is decoded, and the result is a function of the bytes. What
/// it puts in the place of bytes that are not UTF-8 is left unsaid.
#[verifier::external_body]
fn text_of_bytes(bytes: &[u8]) -> (text: String)
    ensures
        text@ == lossy_text(bytes@),
        valid_utf8(bytes@) ==> text@ == decode_utf8(bytes@),
{
    String::from_utf8_lossy(bytes).into_owned()
}

/// The bytes of the path in a `file://` URI.
pub open spec fn uri_path_bytes(uri: Seq<char>) -> Seq<u8> {
    percent_decoded(encode_utf8(uri.skip("file://"@.len() as int)))
}

/// Turns a `file://` URI into a path, undoing percent-encoding.
pub fn uri_to_path(uri: &str) -> (path: Result<String, NovaError>)
    ensures
        path is Ok <==> "file://"@.is_prefix_of(uri@),
        match path {
            Ok(path) => {
                &&& path@ == lossy_text(uri_path_bytes(uri@))
                &&& valid_utf8(uri_path_bytes(uri@)) ==> path@ == decode_utf8(uri_path_bytes(uri@))
            },
            Err(error) => error@ == Reason::Message(
                "the portal returned an unusable URI: "@ + uri@,
            ),
        },
        forall|plain: Seq<char>|
            "file://"@.is_prefix_of(uri@) && percent_encodes(
                encode_utf8(uri@.skip("file://"@.len() as int)),
                #[trigger] encode_utf8(plain),
            ) ==> path is Ok && path->Ok_0@ == plain,
{
    if !starts_with(uri, "file://") {
        let mut words = "the portal returned an unusable URI: ".to_owned();
        words.append(uri);
        return Err(NovaError::Message(words));
    }
    let raw = uri.substring_char("file://".unicode_len(), uri.unicode_len());
    assert(raw@ =~= uri@.skip("file://"@.len() as int));
    let bytes = percent_decode(raw.as_bytes());
    let path = text_of_bytes(bytes.as_slice());
    proof {
        assert forall|plain: Seq<char>|
            percent_encodes(
                encode_utf8(uri@.skip("file://"@.len() as int)),
                #[trigger] encode_utf8(plain),
            ) implies path@ == plain by {
            lemma_decoding_undoes_encoding(encode_utf8(raw@), encode_utf8(plain));
            encode_utf8_valid_utf8(plain);
            encode_utf8_decode_utf8(plain);
        }
    }
    Ok(path)
}

/* ── What decoding does ─────────────────────────────────────────── */

/// The hexadecimal digits are the ten decimal digits and the letters from a to f in either case,
/// and each has its value.
pub proof fn lemma_hexadecimal_digits(value: u8, b: u8)
    requires
        value < 16,
    ensures
        value < 10 ==> hex_digit((0x30 + value) as u8) == Some(value),
        value >= 10 ==> hex_digit((0x61 + value - 10) as u8) == Some(value),
        value >= 10 ==> hex_digit((0x41 + value - 10) as u8) == Some(value),
        hex_digit(b) == Some(value) ==> b == 0x30 + value || b == 0x61 + value - 10 || b == 0x41
            + value - 10,
        b < 0x30 || 0x39 < b < 0x41 || 0x46 < b < 0x61 || 0x66 < b ==> hex_digit(b) is None,
{
}

/// An escape is replaced by its byte, and what comes behind it is decoded by itself.
pub proof fn lemma_escape_is_decoded(high: u8, low: u8, rest: Seq<u8>)
    requires
        hex_digit(high) is Some,
        hex_digit(low) is Some,
    ensures
        ({
            let decoded = percent_decoded(seq![0x25u8, high, low] + rest);
            &&& decoded.len() == 1 + percent_decoded(rest).len()
            &&& decoded[0] == 16 * hex_digit(high)->0 + hex_digit(low)->0
            &&& decoded.skip(1) == percent_decoded(rest)
        }),
{
    let raw = seq![0x25u8, high, low] + rest;
    assert(raw.skip(3) =~= rest);
    assert(percent_decoded(raw).skip(1) =~= percent_decoded(rest));
}

/// A byte that starts no escape stands for itself, and what comes behind it is decoded by itself:
/// any byte but a `%`, and a `%` without two hexadecimal digits behind it.
pub proof fn lemma_other_bytes_stand(b: u8, rest: Seq<u8>)
    requires
        b != 0x25 || rest.len() < 2 || hex_digit(rest[0]) is None || hex_digit(rest[1]) is None,
    ensures
        ({
            let decoded = percent_decoded(seq![b] + rest);
            &&& decoded.len() == 1 + percent_decoded(rest).len()
            &&& decoded[0] == b
            &&& decoded.skip(1) == percent_decoded(rest)
        }),
{
    let raw = seq![b] + rest;
    assert(raw.skip(1) =~= rest);
    assert(rest.len() >= 2 ==> raw[1] == rest[0] && raw[2] == rest[1]);
    assert(percent_decoded(raw).skip(1) =~= percent_decoded(rest));
}

/// The path in a URI is all that comes behind `file://`, decoded.
pub proof fn lemma_path_is_the_rest(rest: Seq<char>)
    ensures
        "file://"@.is_prefix_of("file://"@ + rest),
        uri_path_bytes("file://"@ + rest) == percent_decoded(encode_utf8(rest)),
{
    let uri = "file://"@ + rest;
    assert(uri.skip("file://"@.len() as int) =~= rest);
    assert("file://"@ =~= uri.subrange(0, "file://"@.len() as int));
}

} // verus!
