//! The identity key of an audio file: its absolute path as a file URI.

use vstd::prelude::*;
use vstd::string::*;

verus! {

/// Whether a byte of a path stays as it is in a file URI: ASCII letters,
/// digits and the slash.
pub open spec fn kept_in_path(byte: u8) -> bool {
    (0x30 <= byte <= 0x39) || (0x41 <= byte <= 0x5a) || (0x61 <= byte <= 0x7a) || byte == 0x2f
}

/// The upper-case hexadecimal digit for a value below 16.
pub open spec fn hex_upper(value: u8) -> char {
    if value < 10 {
        (0x30 + value) as char
    } else {
        (0x37 + value) as char
    }
}

/// The percent-encoding of one byte: `%` and two upper-case hexadecimal
/// digits.
pub open spec fn percent_triple(byte: u8) -> Seq<char> {
    seq!['%', hex_upper(byte / 16), hex_upper(byte % 16)]
}

/// One byte of a path, percent-encoded unless it is kept.
pub open spec fn percent_encoded_byte(byte: u8) -> Seq<char> {
    if kept_in_path(byte) {
        seq![byte as char]
    } else {
        percent_triple(byte)
    }
}

/// The percent-encoding of a path's bytes.
pub open spec fn percent_encoded(bytes: Seq<u8>) -> Seq<char> {
    bytes.map_values(|byte: u8| percent_encoded_byte(byte)).flatten()
}

/// `percent_encoding::percent_encode_byte`: the percent-encoding of one byte,
/// whatever the byte.
#[verifier::external_body]
fn percent_encode_byte(byte: u8) -> (out: &'static str)
    ensures
        out@ == percent_triple(byte),
{
    percent_encoding::percent_encode_byte(byte)
}

/// The file URI of an absolute path: `file://` and the path's UTF-8 bytes,
/// each percent-encoded unless it is an ASCII letter, a digit or a slash.
pub open spec fn uri_of(path: Seq<char>) -> Seq<char> {
    "file://"@ + percent_encoded(vstd::utf8::encode_utf8(path))
}

/// Encoding one more byte appends that byte's encoding.
pub proof fn lemma_percent_encoded_push(bytes: Seq<u8>, byte: u8)
    ensures
        percent_encoded(bytes.push(byte)) == percent_encoded(bytes) + percent_encoded_byte(byte),
{
    let pieces = bytes.map_values(|b: u8| percent_encoded_byte(b));
    let more = bytes.push(byte).map_values(|b: u8| percent_encoded_byte(b));
    assert(more =~= pieces.push(percent_encoded_byte(byte)));
    pieces.lemma_flatten_push(percent_encoded_byte(byte));
}

/// Builds the URI that identifies the audio file at this absolute path.
pub fn audio_uri(path: &str) -> (uri: String)
    ensures
        uri@ == uri_of(path@),
{
    let bytes = path.as_bytes();
    let mut uri = String::from_str("file://");
    let n = bytes.len();
    let mut i: usize = 0;
    while i < n
        invariant
            n == bytes@.len(),
            i <= n,
            bytes@ == path.spec_bytes(),
            uri@ == "file://"@ + percent_encoded(bytes@.take(i as int)),
        decreases n - i,
    {
        let byte = bytes[i];
        proof {
            lemma_percent_encoded_push(bytes@.take(i as int), byte);
            assert(bytes@.take(i as int).push(byte) =~= bytes@.take(i + 1));
        }
        if (0x30 <= byte && byte <= 0x39) || (0x41 <= byte && byte <= 0x5a) || (0x61 <= byte
            && byte <= 0x7a) || byte == 0x2f {
            uri.push(byte as char);
        } else {
            uri.append(percent_encode_byte(byte));
        }
        i += 1;
    }
    assert(bytes@.take(n as int) =~= bytes@);
    uri
}

/// The encoding of a list of bytes begins with the encoding of its first
/// byte.
pub proof fn lemma_percent_encoded_first(bytes: Seq<u8>)
    requires
        bytes.len() > 0,
    ensures
        percent_encoded(bytes) == percent_encoded_byte(bytes.first()) + percent_encoded(
            bytes.drop_first(),
        ),
{
    let pieces = bytes.map_values(|b: u8| percent_encoded_byte(b));
    assert(pieces.drop_first() =~= bytes.drop_first().map_values(|b: u8| percent_encoded_byte(b)));
}

/// Two lists of bytes with the same encoding are the same list.
pub proof fn lemma_percent_encoded_injective(a: Seq<u8>, b: Seq<u8>)
    requires
        percent_encoded(a) == percent_encoded(b),
    ensures
        a == b,
    decreases a.len(),
{
    if a.len() == 0 {
        if b.len() > 0 {
            lemma_percent_encoded_first(b);
        }
    } else if b.len() == 0 {
        lemma_percent_encoded_first(a);
    } else {
        lemma_percent_encoded_first(a);
        lemma_percent_encoded_first(b);
        let x = a.first();
        let y = b.first();
        let head_a = percent_encoded_byte(x);
        let head_b = percent_encoded_byte(y);
        let rest_a = percent_encoded(a.drop_first());
        let rest_b = percent_encoded(b.drop_first());
        let whole = percent_encoded(a);
        assert(whole[0] == head_b[0]);
        if !kept_in_path(x) {
            assert(whole[1] == head_b[1] && whole[2] == head_b[2]);
        }
        assert(x == y);
        assert(rest_a =~= whole.subrange(head_a.len() as int, whole.len() as int));
        assert(rest_b =~= whole.subrange(head_b.len() as int, whole.len() as int));
        lemma_percent_encoded_injective(a.drop_first(), b.drop_first());
        assert(b =~= seq![y] + b.drop_first());
    }
}

/// The `uri` identifies the path: two paths with the same `uri` are the same
/// path.
pub proof fn law_uri_identifies_path(a: Seq<char>, b: Seq<char>)
    requires
        uri_of(a) == uri_of(b),
    ensures
        a == b,
{
    let scheme = "file://"@;
    let tail_a = percent_encoded(vstd::utf8::encode_utf8(a));
    let tail_b = percent_encoded(vstd::utf8::encode_utf8(b));
    assert(tail_a =~= uri_of(a).subrange(scheme.len() as int, uri_of(a).len() as int));
    assert(tail_b =~= uri_of(b).subrange(scheme.len() as int, uri_of(b).len() as int));
    lemma_percent_encoded_injective(vstd::utf8::encode_utf8(a), vstd::utf8::encode_utf8(b));
    vstd::utf8::encode_utf8_decode_utf8(a);
    vstd::utf8::encode_utf8_decode_utf8(b);
}

} // verus!
