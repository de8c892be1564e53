//! Content-addressed output names. The stylesheet and every re-encoded
//! image are written under a name derived from a SHA-256 digest, so that
//! equal inputs always map to equal output names.

use vstd::prelude::*;
use vstd::utf8::encode_utf8;
use crate::strutil;
use sha2::Digest;

verus! {

/// The SHA-256 digest of a byte sequence. Which 32 bytes it is stays
/// abstract here; the build relies only on the digest being a function of
/// the input bytes.
pub uninterp spec fn sha256_of(data: Seq<u8>) -> Seq<u8>;

/// Relies on sha2's `Sha256` (through the `Digest` trait): the digest
/// depends on the input bytes alone and is exactly 32 bytes long.
#[verifier::external_body]
fn sha256_digest(data: &[u8]) -> (r: Vec<u8>)
    ensures
        r@ == sha256_of(data@),
        r@.len() == 32,
{
    sha2::Sha256::digest(data).to_vec()
}

/// The lower-case hex digit for a value below sixteen.
pub open spec fn spec_hex_digit(d: int) -> char {
    if d < 10 {
        ((48 + d) as u8) as char
    } else {
        ((87 + d) as u8) as char
    }
}

fn hex_digit_char(d: u8) -> (c: char)
    requires
        d < 16,
    ensures
        c == spec_hex_digit(d as int),
{
    let b: u8 = if d < 10 {
        48 + d
    } else {
        87 + d
    };
    b as char
}

/// The lower-case hex encoding of a byte sequence, two digits per byte.
pub open spec fn spec_hex(data: Seq<u8>) -> Seq<char>
    decreases data.len(),
{
    if data.len() == 0 {
        Seq::<char>::empty()
    } else {
        seq![
            spec_hex_digit(data[0] as int / 16),
            spec_hex_digit(data[0] as int % 16),
        ] + spec_hex(data.drop_first())
    }
}

fn to_hex(data: &Vec<u8>) -> (r: Vec<char>)
    ensures
        r@ == spec_hex(data@),
{
    let n = data.len();
    let mut r: Vec<char> = Vec::new();
    let mut i: usize = 0;
    proof {
        assert(data@.skip(0) =~= data@);
    }
    while i < n
        invariant
            i <= n,
            n == data@.len(),
            spec_hex(data@) =~= r@ + spec_hex(data@.skip(i as int)),
        decreases n - i,
    {
        let b = data[i];
        r.push(hex_digit_char(b / 16));
        r.push(hex_digit_char(b % 16));
        proof {
            assert(data@.skip(i as int).drop_first() =~= data@.skip(i + 1));
        }
        i += 1;
    }
    r
}

/// The output name of the compiled stylesheet:
/// `main.` + the hex digest of the stylesheet source bytes + `.css`.
pub open spec fn spec_stylesheet_name(css: Seq<char>) -> Seq<char> {
    "main."@ + spec_hex(sha256_of(encode_utf8(css))) + ".css"@
}

/// The fingerprinted output name for the stylesheet, from its full source
/// text.
pub fn stylesheet_output_name(css: &str) -> (r: String)
    ensures
        r@ == spec_stylesheet_name(css@),
{
    let digest = sha256_digest(css.as_bytes());
    let hex = to_hex(&digest);
    let mut out = strutil::str_to_chars("main.");
    strutil::push_all(&mut out, &hex);
    let tail = strutil::str_to_chars(".css");
    strutil::push_all(&mut out, &tail);
    proof {
        assert(out@ =~= spec_stylesheet_name(css@));
    }
    strutil::chars_to_string(&out)
}

/// The output name of a re-encoded image: the hex digest of the source
/// file *name* (not the image bytes) + `.jpg`.
pub open spec fn spec_image_name(source_name: Seq<char>) -> Seq<char> {
    spec_hex(sha256_of(encode_utf8(source_name))) + ".jpg"@
}

/// The fingerprinted output name for an image, from its source file name.
pub fn image_output_name(source_name: &str) -> (r: String)
    ensures
        r@ == spec_image_name(source_name@),
{
    let digest = sha256_digest(source_name.as_bytes());
    let mut out = to_hex(&digest);
    let tail = strutil::str_to_chars(".jpg");
    strutil::push_all(&mut out, &tail);
    proof {
        assert(out@ =~= spec_image_name(source_name@));
    }
    strutil::chars_to_string(&out)
}

/// Fingerprinting is deterministic: equal stylesheet sources get equal
/// output names.
pub proof fn lemma_stylesheet_fingerprint_deterministic(a: Seq<char>, b: Seq<char>)
    requires
        a == b,
    ensures
        spec_stylesheet_name(a) == spec_stylesheet_name(b),
{
}

/// Fingerprinting is deterministic: equal image source names get equal
/// output names, in this build or any other.
pub proof fn lemma_image_fingerprint_deterministic(a: Seq<char>, b: Seq<char>)
    requires
        a == b,
    ensures
        spec_image_name(a) == spec_image_name(b),
{
}

} // verus!
