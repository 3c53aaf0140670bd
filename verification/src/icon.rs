use vstd::prelude::*;
use base64::engine::general_purpose;
use base64::{alphabet, engine, Engine};

verus! {

/// The character of the standard base64 alphabet for a six-bit value.
pub open spec fn base64_char(n: nat) -> char {
    if n < 26 {
        (('A' as nat) + n) as char
    } else if n < 52 {
        (('a' as nat) + n - 26) as char
    } else if n < 62 {
        (('0' as nat) + n - 52) as char
    } else if n == 62 {
        '+'
    } else {
        '/'
    }
}

/// Standard base64 with padding: every three bytes become four characters;
/// a last group of one or two bytes becomes two or three characters and `=`
/// padding up to four.
pub open spec fn spec_base64(b: Seq<u8>) -> Seq<char>
    decreases b.len(),
{
    if b.len() == 0 {
        Seq::empty()
    } else if b.len() == 1 {
        seq![base64_char((b[0] / 4) as nat), base64_char(((b[0] % 4) * 16) as nat), '=', '=']
    } else if b.len() == 2 {
        seq![
            base64_char((b[0] / 4) as nat),
            base64_char(((b[0] % 4) * 16 + b[1] / 16) as nat),
            base64_char(((b[1] % 16) * 4) as nat),
            '=',
        ]
    } else {
        seq![
            base64_char((b[0] / 4) as nat),
            base64_char(((b[0] % 4) * 16 + b[1] / 16) as nat),
            base64_char(((b[1] % 16) * 4 + b[2] / 64) as nat),
            base64_char((b[2] % 64) as nat),
        ] + spec_base64(b.subrange(3, b.len() as int))
    }
}

/// The encoding of a general-purpose base64 engine with the standard
/// alphabet and padding (`Engine::encode`), which is RFC 4648 base64 as
/// `spec_base64` states it. The engine panics when the encoded length does
/// not fit in `usize`, which `requires` rules out.
#[verifier::external_body]
fn base64_standard(bytes: &[u8]) -> (r: String)
    requires
        bytes@.len() <= usize::MAX / 4 * 3,
    ensures
        r@ == spec_base64(bytes@),
{
    engine::GeneralPurpose::new(&alphabet::STANDARD, general_purpose::PAD).encode(bytes)
}

/// The server icon as a data URL: a PNG image in base64.
pub fn png_data_url(png: &[u8]) -> (r: String)
    requires
        png@.len() <= usize::MAX / 4 * 3,
    ensures
        r@ == "data:image/png;base64,"@ + spec_base64(png@),
{
    let encoded = base64_standard(png);
    let mut r = String::new();
    r.append("data:image/png;base64,");
    r.append(encoded.as_str());
    r
}

} // verus!
