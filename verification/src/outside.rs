//! The calls into other crates and into parts of `std` that have no specification of their own.
//!
//! Each contract here is taken on trust; everything else in the library is proved.

use argon2::password_hash::rand_core::OsRng;
use argon2::password_hash::PasswordHasher;
use argon2::password_hash::PasswordVerifier;
use argon2::password_hash::SaltString;
use argon2::Argon2;
use argon2::PasswordHash;
use bytes::BytesMut;
use rand::Rng;
use rand::RngCore;
use vstd::prelude::*;
use vstd::utf8::*;

use crate::text;

verus! {

// ---------------------------------------------------------------------------------------------
// rand
// ---------------------------------------------------------------------------------------------

/// `RngCore::fill_bytes` of `rand::thread_rng()` fills 32 bytes at random; nothing is claimed of
/// their values.
#[verifier::external_body]
pub(crate) fn random_bytes() -> (r: [u8; 32]) {
    let mut bytes = [0u8; 32];
    rand::thread_rng().fill_bytes(&mut bytes);
    bytes
}

/// `Rng::gen_range` of `rand::thread_rng()` draws a number below the given bound. It panics on an
/// empty range, so the bound is not zero.
#[verifier::external_body]
pub(crate) fn random_index(bound: usize) -> (r: usize)
    requires
        0 < bound,
    ensures
        r < bound,
{
    rand::thread_rng().gen_range(0..bound)
}

// ---------------------------------------------------------------------------------------------
// hex
// ---------------------------------------------------------------------------------------------

/// The lower-case hexadecimal digit of a number below 16.
pub open spec fn hex_digit(n: int) -> char {
    if n < 10 {
        (48 + n) as u8 as char
    } else {
        (87 + n) as u8 as char
    }
}

/// Two lower-case hexadecimal digits per byte, the high one first.
pub open spec fn hex_lower(bytes: Seq<u8>) -> Seq<char> {
    Seq::new(
        2 * bytes.len(),
        |i: int|
            if i % 2 == 0 {
                hex_digit(bytes[i / 2] as int / 16)
            } else {
                hex_digit(bytes[i / 2] as int % 16)
            },
    )
}

/// `hex::encode` writes each byte as two lower-case hexadecimal digits.
#[verifier::external_body]
pub(crate) fn hex_encode(bytes: &[u8]) -> (r: String)
    ensures
        r@ == hex_lower(bytes@),
{
    hex::encode(bytes)
}

// ---------------------------------------------------------------------------------------------
// argon2
// ---------------------------------------------------------------------------------------------

/// What verifying `password` against the PHC string `hash` answers.
pub uninterp spec fn argon2_accepts(password: Seq<char>, hash: Seq<char>) -> bool;

/// The parallelism parameter may stand at `i`.
pub open spec fn lanes_at(s: Seq<char>, i: int) -> bool {
    0 <= i && i + 1 < s.len() && s[i] == 'p' && s[i + 1] == '='
}

/// The nine characters from `i` on are decimal digits.
pub open spec fn nine_digits_at(s: Seq<char>, i: int) -> bool {
    &&& i + 9 <= s.len()
    &&& forall|k: int| i <= k < i + 9 ==> text::digit_value(#[trigger] s[k]) is Some
}

/// The last `p=` in `hash` has no nine decimal digits behind it. Of a parameter that stands there
/// several times the last counts. The `argon2` crate multiplies the parallelism by eight in 32 bits,
/// which overflows for some numbers of nine digits or more and for none below; it accepts no text
/// with such a number, for there are at most 0xffffff lanes.
pub open spec fn lanes_bounded(hash: Seq<char>) -> bool {
    forall|i: int| #[trigger]
        lanes_at(hash, i) && nine_digits_at(hash, i + 2) ==> exists|j: int|
            i < j && #[trigger] lanes_at(hash, j)
}

/// A character of the base64 alphabet.
pub open spec fn is_b64_char(c: char) -> bool {
    let n = c as u32;
    ||| 0x41 <= n <= 0x5a
    ||| 0x61 <= n <= 0x7a
    ||| 0x30 <= n <= 0x39
    ||| c == '+'
    ||| c == '/'
}

/// Between `min` and `max` characters of base64 without padding.
pub open spec fn is_b64(s: Seq<char>, min: nat, max: nat) -> bool {
    &&& min <= s.len() <= max
    &&& forall|i: int| 0 <= i < s.len() ==> is_b64_char(#[trigger] s[i])
}

/// The algorithm, version and cost fields of a hash made with the default parameters.
pub open spec fn phc_head() -> Seq<char> {
    "$argon2id$v=19$m=19456,t=2,p=1$"@
}

/// The shape of a hash made with the default parameters: those fields, a salt of 16 bytes and an
/// output of 32, both in base64 without padding.
pub open spec fn is_default_phc(hash: Seq<char>) -> bool {
    &&& hash.len() == 97
    &&& phc_head().is_prefix_of(hash)
    &&& is_b64(hash.subrange(31, 53), 22, 22)
    &&& hash[53] == '$'
    &&& is_b64(hash.subrange(54, 97), 43, 43)
}

/// A number in decimal digits without leading zeros.
pub open spec fn is_plain_decimal(s: Seq<char>) -> bool {
    text::digits_value(s) is Some && (s.len() > 1 ==> s[0] != '0')
}

/// A parameter of a hash: a cost, or a key identifier or associated data in base64.
pub open spec fn is_phc_param(s: Seq<char>) -> bool {
    match text::split_once(s, '=') {
        Some((name, value)) => if name == "m"@ || name == "t"@ || name == "p"@ {
            is_plain_decimal(value)
        } else {
            (name == "keyid"@ || name == "data"@) && is_b64(value, 0, 64)
        },
        None => false,
    }
}

/// The parameters of a hash, with commas between.
pub open spec fn is_phc_params(s: Seq<char>) -> bool {
    let params = text::split_on(s, ',');
    forall|i: int| 0 <= i < params.len() ==> is_phc_param(#[trigger] params[i])
}

/// The version of a hash.
pub open spec fn is_phc_version(s: Seq<char>) -> bool {
    s == "v=16"@ || s == "v=19"@
}

/// A well-formed hash: fields that each begin with a dollar sign. The name of the algorithm comes first,
/// then the version and the parameters, each of which may be missing, then the salt and the output.
pub open spec fn is_phc_string(hash: Seq<char>) -> bool {
    let f = text::split_on(hash, '$');
    let n = f.len() as int;
    &&& 4 <= n <= 6
    &&& f[0].len() == 0
    &&& f[1] == "argon2d"@ || f[1] == "argon2i"@ || f[1] == "argon2id"@
    &&& n == 5 ==> is_phc_version(f[2]) || is_phc_params(f[2])
    &&& n == 6 ==> is_phc_version(f[2]) && is_phc_params(f[3])
    &&& is_b64(f[n - 2], 11, 64)
    &&& is_b64(f[n - 1], 14, 86)
}

/// `PasswordHasher::hash_password` of the default `argon2::Argon2`, with a salt that
/// `SaltString::generate` draws from the system. The PHC string that it gives has the default
/// parameters, and verifying the same password against it succeeds. It gives an error for a password
/// of more than `u32::MAX` bytes and for no other. What depends on the salt is left unsaid.
#[verifier::external_body]
pub(crate) fn argon2_hash(password: &str) -> (r: Result<String, String>)
    ensures
        match r {
            Ok(h) => encode_utf8(password@).len() <= u32::MAX && is_default_phc(h@) && argon2_accepts(
                password@,
                h@,
            ),
            Err(_) => encode_utf8(password@).len() > u32::MAX,
        },
{
    let salt = SaltString::generate(&mut OsRng);
    Argon2::default()
        .hash_password(password.as_bytes(), &salt)
        .map(|h| h.to_string())
        .map_err(|e| e.to_string())
}

/// `PasswordHash::new` reads a PHC string and `PasswordVerifier::verify_password` computes the hash
/// of the password with the parameters and the salt found there. The answer is a function of the
/// two texts, and is yes for no text that is not a well-formed hash.
#[verifier::external_body]
pub(crate) fn argon2_verify(password: &str, hash: &str) -> (r: bool)
    requires
        lanes_bounded(hash@),
    ensures
        r == argon2_accepts(password@, hash@),
        r ==> is_phc_string(hash@),
{
    match PasswordHash::new(hash) {
        Ok(parsed) => Argon2::default().verify_password(password.as_bytes(), &parsed).is_ok(),
        Err(_) => false,
    }
}

// ---------------------------------------------------------------------------------------------
// mime_guess
// ---------------------------------------------------------------------------------------------

/// The media type that is guessed from the extension of a path.
pub uninterp spec fn guessed_mime(path: Seq<char>) -> Seq<char>;

/// `mime_guess::from_path` and `first_or_octet_stream`: the media type listed for the extension of
/// the path, `application/octet-stream` where none is listed. It is a function of the path alone.
#[verifier::external_body]
pub(crate) fn guess_mime(path: &str) -> (r: String)
    ensures
        r@ == guessed_mime(path@),
{
    mime_guess::from_path(path).first_or_octet_stream().to_string()
}

// ---------------------------------------------------------------------------------------------
// percent_encoding
// ---------------------------------------------------------------------------------------------

/// The byte of an ASCII letter or digit.
pub open spec fn is_alnum_byte(b: u8) -> bool {
    0x30 <= b <= 0x39 || 0x41 <= b <= 0x5a || 0x61 <= b <= 0x7a
}

/// The upper-case hexadecimal digit of a number below 16.
pub open spec fn hex_digit_upper(n: int) -> char {
    if n < 10 {
        (48 + n) as u8 as char
    } else {
        (55 + n) as u8 as char
    }
}

/// ASCII letters and digits stay; every other byte becomes a percent sign and two digits.
pub open spec fn percent_encoded(bytes: Seq<u8>) -> Seq<char>
    decreases bytes.len(),
{
    if bytes.len() == 0 {
        Seq::empty()
    } else {
        let b = bytes[0];
        let head = if is_alnum_byte(b) {
            seq![b as char]
        } else {
            seq!['%', hex_digit_upper(b as int / 16), hex_digit_upper(b as int % 16)]
        };
        head + percent_encoded(bytes.drop_first())
    }
}

/// `percent_encoding::utf8_percent_encode` with the set `NON_ALPHANUMERIC`: every byte of the UTF-8
/// encoding that is no ASCII letter or digit is written as a percent sign and two upper-case
/// hexadecimal digits.
#[verifier::external_body]
pub(crate) fn percent_encode(s: &str) -> (r: String)
    ensures
        r@ == percent_encoded(encode_utf8(s@)),
{
    percent_encoding::utf8_percent_encode(s, percent_encoding::NON_ALPHANUMERIC).to_string()
}

// ---------------------------------------------------------------------------------------------
// bytes
// ---------------------------------------------------------------------------------------------

/// The growable byte buffer of the `bytes` crate.
#[verifier::external_type_specification]
#[verifier::external_body]
pub struct ExBytesMut(bytes::BytesMut);

/// The bytes that a buffer holds, in order.
pub uninterp spec fn buffered(b: BytesMut) -> Seq<u8>;

/// The lengths for which a buffer never needs a capacity beyond what an allocation can have: growing
/// multiplies what is needed by four at most.
pub open spec fn buffer_len_ok(n: nat) -> bool {
    n <= isize::MAX as int / 4
}

/// `BytesMut::with_capacity` gives an empty buffer. It panics where the capacity is more than an
/// allocation can have.
#[verifier::external_body]
pub(crate) fn buffer_with_capacity(capacity: usize) -> (r: BytesMut)
    requires
        buffer_len_ok(capacity as nat),
    ensures
        buffered(r) == Seq::<u8>::empty(),
{
    BytesMut::with_capacity(capacity)
}

/// `BytesMut::len` is the number of bytes held.
#[verifier::external_body]
pub(crate) fn buffer_len(b: &BytesMut) -> (r: usize)
    ensures
        r == buffered(*b).len(),
{
    b.len()
}

/// `BytesMut::extend_from_slice` appends the bytes. It panics where the new capacity is more than an
/// allocation can have.
#[verifier::external_body]
pub(crate) fn buffer_extend(b: &mut BytesMut, more: &[u8])
    requires
        buffer_len_ok(buffered(*old(b)).len() + more@.len()),
    ensures
        buffered(*final(b)) == buffered(*old(b)) + more@,
{
    b.extend_from_slice(more);
}

/// `BytesMut::split_to` takes the first `at` bytes out of the buffer, which keeps the rest. It
/// panics where the buffer holds fewer.
#[verifier::external_body]
pub(crate) fn buffer_split_to(b: &mut BytesMut, at: usize) -> (r: Vec<u8>)
    requires
        at <= buffered(*old(b)).len(),
    ensures
        r@ == buffered(*old(b)).take(at as int),
        buffered(*final(b)) == buffered(*old(b)).skip(at as int),
{
    b.split_to(at).freeze().to_vec()
}

/// `BytesMut::freeze` gives the bytes that the buffer holds.
#[verifier::external_body]
pub(crate) fn buffer_into_vec(b: BytesMut) -> (r: Vec<u8>)
    ensures
        r@ == buffered(b),
{
    b.freeze().to_vec()
}

// ---------------------------------------------------------------------------------------------
// std
// ---------------------------------------------------------------------------------------------

/// The lower-case form of a text by the Unicode rules.
pub uninterp spec fn lowercase(s: Seq<char>) -> Seq<char>;

/// The lower-case form of a text. Of ASCII text it changes the letters A to Z and nothing else.
pub open spec fn lower_text(s: Seq<char>) -> Seq<char> {
    if is_ascii_chars(s) {
        text::ascii_lower_all(s)
    } else {
        lowercase(s)
    }
}

/// `str::to_lowercase` gives the lower-case form of the text by the Unicode rules, a function of the
/// text alone; of ASCII text it changes the letters A to Z and nothing else.
#[verifier::external_body]
pub(crate) fn to_lowercase(s: &str) -> (r: String)
    ensures
        r@ == if is_ascii_chars(s@) {
            text::ascii_lower_all(s@)
        } else {
            lowercase(s@)
        },
{
    s.to_lowercase()
}

/// The text of a byte string, with replacement characters where it is not UTF-8.
pub uninterp spec fn utf8_lossy(bytes: Seq<u8>) -> Seq<char>;

/// The text of a byte string. Valid UTF-8 is decoded as it stands.
pub open spec fn lossy_text(bytes: Seq<u8>) -> Seq<char> {
    if valid_utf8(bytes) {
        decode_utf8(bytes)
    } else {
        utf8_lossy(bytes)
    }
}

/// `String::from_utf8_lossy` decodes UTF-8 and puts U+FFFD in the place of what is not valid, a
/// function of the bytes alone; valid UTF-8 it decodes as it stands.
#[verifier::external_body]
pub(crate) fn from_utf8_lossy(bytes: &[u8]) -> (r: String)
    ensures
        r@ == if valid_utf8(bytes@) {
            decode_utf8(bytes@)
        } else {
            utf8_lossy(bytes@)
        },
{
    String::from_utf8_lossy(bytes).into_owned()
}

} // verus!
