//! Passwords, session cookies and the cookies that unlock shared files.

use vstd::prelude::*;
use vstd::utf8::*;

use crate::constants;
use crate::outside;
use crate::text;

verus! {

/// The name of the session cookie.
pub const COOKIE_NAME: &'static str = "tgstate_session";

// ---------------------------------------------------------------------------------------------
// Session tokens
// ---------------------------------------------------------------------------------------------

/// A lower-case hexadecimal digit.
pub open spec fn is_hex_char(c: char) -> bool {
    let n = c as u32;
    0x30 <= n <= 0x39 || 0x61 <= n <= 0x66
}

/// Sixty-four lower-case hexadecimal digits.
pub open spec fn is_session_token(s: Seq<char>) -> bool {
    s.len() == 64 && forall|i: int| 0 <= i < s.len() ==> is_hex_char(#[trigger] s[i])
}

/// A text in hexadecimal has two digits per byte and nothing but digits.
pub proof fn lemma_hex_chars(bytes: Seq<u8>)
    ensures
        outside::hex_lower(bytes).len() == 2 * bytes.len(),
        forall|i: int|
            0 <= i < 2 * bytes.len() ==> is_hex_char(#[trigger] outside::hex_lower(bytes)[i]),
{
}

/// The session token that 32 bytes make: each byte as two hexadecimal digits.
pub fn session_token_from_bytes(bytes: &[u8; 32]) -> (r: String)
    ensures
        r@ == outside::hex_lower(bytes@),
        is_session_token(r@),
{
    proof {
        lemma_hex_chars(bytes@);
    }
    outside::hex_encode(bytes.as_slice())
}

/// A random session token. It does not depend on the password, so no cookie can be told from it.
pub fn generate_session_token() -> (r: String)
    ensures
        is_session_token(r@),
{
    let bytes = outside::random_bytes();
    session_token_from_bytes(&bytes)
}

// ---------------------------------------------------------------------------------------------
// Cookie policy
// ---------------------------------------------------------------------------------------------

/// A text that switches an option on: `1`, `true`, `yes` or `on` in any case, with white space
/// round it.
pub open spec fn is_truthy(s: Seq<char>) -> bool {
    let t = text::ascii_lower_all(text::trimmed(s));
    t == "1"@ || t == "true"@ || t == "yes"@ || t == "on"@
}

/// `s` with its ASCII letters in lower case.
pub fn to_ascii_lowercase(s: &str) -> (r: String)
    ensures
        r@ == text::ascii_lower_all(s@),
{
    let x = text::to_chars(s);
    let mut r = String::new();
    let mut i: usize = 0;
    let ghost want = text::ascii_lower_all(s@);
    while i < x.len()
        invariant
            x@ == s@,
            want == text::ascii_lower_all(s@),
            i <= x@.len(),
            r@ == want.take(i as int),
        decreases x@.len() - i,
    {
        r.push(text::char_ascii_lower(x[i]));
        assert(want.take(i + 1) =~= want.take(i as int).push(want[i as int]));
        i = i + 1;
    }
    assert(want.take(want.len() as int) =~= want);
    r
}

/// Tells whether a text switches an option on.
pub fn parse_truthy(s: &str) -> (r: bool)
    ensures
        r == is_truthy(s@),
{
    let t = to_ascii_lowercase(text::trim(s));
    text::str_eq(t.as_str(), "1") || text::str_eq(t.as_str(), "true") || text::str_eq(t.as_str(), "yes")
        || text::str_eq(t.as_str(), "on")
}

/// Session cookies are always marked `Secure`: the setting switches that on.
pub open spec fn always_secure(raw: Option<Seq<char>>) -> bool {
    match raw {
        Some(v) => is_truthy(v),
        None => false,
    }
}

/// Whether session cookies are always marked `Secure`, from the value of `COOKIE_SECURE`.
pub fn cookie_secure_override(raw: Option<&str>) -> (r: bool)
    ensures
        r == always_secure(text::opt_str_view(raw)),
{
    match raw {
        Some(v) => parse_truthy(v),
        None => false,
    }
}

/// The lifetime of a session cookie in seconds that a setting asks for: a 32-bit number above zero,
/// with white space round it; the default where the setting is anything else.
pub open spec fn session_max_age(raw: Option<Seq<char>>) -> int {
    match raw {
        Some(v) => match text::unsigned_value(text::trimmed(v)) {
            Some(n) => if 0 < n <= u32::MAX {
                n as int
            } else {
                constants::SESSION_MAX_AGE_SECS as int
            },
            None => constants::SESSION_MAX_AGE_SECS as int,
        },
        None => constants::SESSION_MAX_AGE_SECS as int,
    }
}

/// The lifetime of a session cookie, from the value of `SESSION_MAX_AGE_SECS`.
pub fn session_max_age_secs(raw: Option<&str>) -> (r: u32)
    ensures
        r == session_max_age(text::opt_str_view(raw)),
        r > 0,
{
    match raw {
        Some(v) => match text::parse_unsigned(text::trim(v), u32::MAX as u64) {
            Some(n) => if n > 0 {
                n as u32
            } else {
                constants::SESSION_MAX_AGE_SECS
            },
            None => constants::SESSION_MAX_AGE_SECS,
        },
        None => constants::SESSION_MAX_AGE_SECS,
    }
}

/// What the environment says about session cookies.
#[derive(Debug, Clone, Copy)]
pub struct CookiePolicy {
    /// Mark every session cookie `Secure`.
    pub secure_override: bool,
    /// The lifetime of a session cookie in seconds.
    pub max_age_secs: u32,
}

/// The mark of a cookie that is only sent over TLS.
pub open spec fn secure_mark(secure: bool) -> Seq<char> {
    if secure {
        "; Secure"@
    } else {
        Seq::empty()
    }
}

/// The `Set-Cookie` value of a session cookie.
pub open spec fn session_cookie(value: Seq<char>, secure: bool, max_age: nat) -> Seq<char> {
    COOKIE_NAME@ + "="@ + value + "; HttpOnly; SameSite=Strict; Path=/; Max-Age="@ + text::decimal(
        max_age,
    ) + secure_mark(secure)
}

/// The `Set-Cookie` value that sets the session cookie.
pub fn build_cookie(value: &str, is_https: bool, policy: &CookiePolicy) -> (r: String)
    ensures
        r@ == session_cookie(value@, is_https || policy.secure_override, policy.max_age_secs as nat),
{
    let mut s = String::from_str(COOKIE_NAME);
    s.append("=");
    s.append(value);
    s.append("; HttpOnly; SameSite=Strict; Path=/; Max-Age=");
    text::push_decimal(&mut s, policy.max_age_secs as u64);
    if is_https || policy.secure_override {
        s.append("; Secure");
    } else {
        assert(s@ + Seq::<char>::empty() =~= s@);
    }
    s
}

/// The `Set-Cookie` value that clears the session cookie.
pub open spec fn clear_cookie() -> Seq<char> {
    COOKIE_NAME@ + "=; HttpOnly; SameSite=Strict; Path=/; Max-Age=0"@
}

/// The `Set-Cookie` value that clears the session cookie.
pub fn build_clear_cookie() -> (r: String)
    ensures
        r@ == clear_cookie(),
{
    let mut s = String::from_str(COOKIE_NAME);
    s.append("=; HttpOnly; SameSite=Strict; Path=/; Max-Age=0");
    s
}

// ---------------------------------------------------------------------------------------------
// Passwords
// ---------------------------------------------------------------------------------------------

/// Compares two texts in a time that depends on their lengths alone.
pub fn secure_compare(a: &str, b: &str) -> (r: bool)
    ensures
        r == (a@ == b@),
{
    let x = a.as_bytes();
    let y = b.as_bytes();
    if x.len() != y.len() {
        return false;
    }
    let mut acc: u8 = 0;
    let mut i: usize = 0;
    while i < x.len()
        invariant
            i <= x@.len(),
            x@.len() == y@.len(),
            acc == 0 <==> (forall|j: int| 0 <= j < i ==> x@[j] == y@[j]),
        decreases x@.len() - i,
    {
        let p: u8 = x[i];
        let q: u8 = y[i];
        assert(acc | (p ^ q) == 0 <==> acc == 0 && p == q) by (bit_vector);
        acc = acc | (p ^ q);
        i = i + 1;
    }
    proof {
        if acc == 0 {
            assert(x@ =~= y@);
            text::lemma_encode_injective(a@, b@);
        }
    }
    acc == 0
}

/// `hash` is a PHC string against which `password` verifies.
pub open spec fn phc_accepts(password: Seq<char>, hash: Seq<char>) -> bool {
    &&& outside::is_phc_string(hash)
    &&& outside::lanes_bounded(hash)
    &&& outside::argon2_accepts(password, hash)
}

/// A text without `c` is one piece.
proof fn lemma_one_piece(s: Seq<char>, c: char)
    requires
        forall|i: int| 0 <= i < s.len() ==> #[trigger] s[i] != c,
    ensures
        text::split_on(s, c) == seq![s],
{
    text::lemma_position(s, c, s.len());
}

/// The costs of the default parameters are parameters of a hash.
proof fn lemma_default_params()
    ensures
        outside::is_phc_params("m=19456,t=2,p=1"@),
{
    reveal_strlit("m=19456,t=2,p=1");
    reveal_strlit("m");
    reveal_strlit("t");
    reveal_strlit("p");
    let m = seq!['m', '=', '1', '9', '4', '5', '6'];
    let t = seq!['t', '=', '2'];
    let p = seq!['p', '=', '1'];
    let tp = t + seq![','] + p;
    assert("m=19456,t=2,p=1"@ =~= m + seq![','] + tp);
    text::lemma_split_on_join(m, ',', tp);
    text::lemma_split_on_join(t, ',', p);
    lemma_one_piece(m, ',');
    lemma_one_piece(t, ',');
    lemma_one_piece(p, ',');
    let params = text::split_on("m=19456,t=2,p=1"@, ',');
    assert(params =~= seq![m, t, p]);
    assert(outside::is_phc_param(m)) by {
        let v = seq!['1', '9', '4', '5', '6'];
        assert(m =~= "m"@ + seq!['='] + v);
        text::lemma_split_once_join("m"@, '=', v);
        reveal_with_fuel(text::digits_value, 6);
        assert(text::digits_value(v) is Some);
    }
    assert(outside::is_phc_param(t)) by {
        assert(t =~= "t"@ + seq!['='] + seq!['2']);
        text::lemma_split_once_join("t"@, '=', seq!['2']);
    }
    assert(outside::is_phc_param(p)) by {
        assert(p =~= "p"@ + seq!['='] + seq!['1']);
        text::lemma_split_once_join("p"@, '=', seq!['1']);
    }
}

/// A hash with the default parameters is well-formed.
proof fn lemma_default_phc_formed(hash: Seq<char>)
    requires
        outside::is_default_phc(hash),
    ensures
        outside::is_phc_string(hash),
{
    reveal_strlit("$argon2id$v=19$m=19456,t=2,p=1$");
    reveal_strlit("argon2id");
    reveal_strlit("v=19");
    reveal_strlit("m=19456,t=2,p=1");
    let salt = hash.subrange(31, 53);
    let output = hash.subrange(54, 97);
    let e = Seq::<char>::empty();
    let d = seq!['$'];
    let f4 = salt + d + output;
    let f3 = "m=19456,t=2,p=1"@ + d + f4;
    let f2 = "v=19"@ + d + f3;
    let f1 = "argon2id"@ + d + f2;
    assert forall|i: int| 0 <= i < 31 implies hash[i] == outside::phc_head()[i] by {}
    assert(hash =~= e + d + f1);
    text::lemma_split_on_join(e, '$', f1);
    text::lemma_split_on_join("argon2id"@, '$', f2);
    text::lemma_split_on_join("v=19"@, '$', f3);
    text::lemma_split_on_join("m=19456,t=2,p=1"@, '$', f4);
    text::lemma_split_on_join(salt, '$', output);
    lemma_one_piece(e, '$');
    lemma_one_piece("argon2id"@, '$');
    lemma_one_piece("v=19"@, '$');
    lemma_one_piece("m=19456,t=2,p=1"@, '$');
    assert forall|i: int| 0 <= i < salt.len() implies #[trigger] salt[i] != '$' by {
        assert(outside::is_b64_char(salt[i]));
    }
    assert forall|i: int| 0 <= i < output.len() implies #[trigger] output[i] != '$' by {
        assert(outside::is_b64_char(output[i]));
    }
    lemma_one_piece(salt, '$');
    lemma_one_piece(output, '$');
    lemma_default_params();
    assert(text::split_on(hash, '$') =~= seq![
        e,
        "argon2id"@,
        "v=19"@,
        "m=19456,t=2,p=1"@,
        salt,
        output,
    ]);
}

/// A hash with the default parameters is well-formed, and is within the bound on the parallelism
/// parameter.
pub proof fn lemma_default_phc_bounded(hash: Seq<char>)
    requires
        outside::is_default_phc(hash),
    ensures
        outside::lanes_bounded(hash),
        outside::is_phc_string(hash),
        hash[0] == '$',
        forall|i: int| 0 <= i < hash.len() ==> !text::is_whitespace(#[trigger] hash[i]),
{
    lemma_default_phc_formed(hash);
    reveal_strlit("$argon2id$v=19$m=19456,t=2,p=1$");
    let head = outside::phc_head();
    assert(hash[0] == head[0]);
    assert forall|i: int| 31 <= i < hash.len() && i != 53 implies outside::is_b64_char(
        #[trigger] hash[i],
    ) by {
        if i < 53 {
            assert(hash.subrange(31, 53)[i - 31] == hash[i]);
        } else {
            assert(hash.subrange(54, 97)[i - 54] == hash[i]);
        }
    }
    assert forall|i: int| 0 <= i < hash.len() implies !text::is_whitespace(#[trigger] hash[i]) by {
        if i < head.len() {
            assert(hash[i] == head[i]);
        }
    }
    assert forall|i: int| #[trigger] outside::lanes_at(hash, i) implies !outside::nine_digits_at(
        hash,
        i + 2,
    ) by {
        if i + 1 < head.len() {
            assert(hash[i] == head[i] && hash[i + 1] == head[i + 1]);
            assert(i == 27);
            assert(hash[i + 3] == head[i + 3]);
            assert(text::digit_value(hash[i + 3]) is None);
        }
    }
}

/// Tells whether the last `p=` has no nine decimal digits behind it.
fn lanes_are_bounded(hash: &str) -> (r: bool)
    ensures
        r == outside::lanes_bounded(hash@),
{
    let x = text::to_chars(hash);
    let mut n: usize = x.len();
    while n > 1 && !(x[n - 2] == 'p' && x[n - 1] == '=')
        invariant
            n <= x@.len(),
            forall|j: int| n - 1 <= j ==> !#[trigger] outside::lanes_at(x@, j),
        decreases n,
    {
        n = n - 1;
    }
    if n <= 1 {
        return true;
    }
    let ghost last = n - 2;
    assert(outside::lanes_at(x@, last));
    let mut k: usize = 0;
    while k < 9 && k < x.len() - n && text::char_is_digit(x[n + k])
        invariant
            k <= 9,
            n + k <= x@.len(),
            forall|j: int| n <= j < n + k ==> text::digit_value(#[trigger] x@[j]) is Some,
        decreases 9 - k,
    {
        k = k + 1;
    }
    if k == 9 {
        assert(outside::nine_digits_at(x@, last + 2));
        return false;
    }
    assert(!outside::nine_digits_at(x@, last + 2)) by {
        if n + 9 <= x@.len() {
            assert(text::digit_value(x@[n + k]) is None);
        }
    }
    assert forall|i: int| #[trigger]
        outside::lanes_at(x@, i) && outside::nine_digits_at(x@, i + 2) implies exists|j: int|
        i < j && #[trigger] outside::lanes_at(x@, j) by {
        assert(i < last);
    }
    true
}

/// A password that is not too long to be hashed.
pub open spec fn can_be_hashed(password: Seq<char>) -> bool {
    text::byte_len(password) <= u32::MAX
}

/// Hashes a password with a random salt. The hash is a PHC string, and the password verifies
/// against it.
pub fn hash_password(password: &str) -> (r: Result<String, String>)
    ensures
        match r {
            Ok(h) => can_be_hashed(password@) && outside::is_default_phc(h@) && phc_accepts(
                password@,
                h@,
            ),
            Err(_) => !can_be_hashed(password@),
        },
{
    let r = outside::argon2_hash(password);
    proof {
        text::lemma_byte_len(password@);
        if r is Ok {
            lemma_default_phc_bounded(r->Ok_0@);
        }
    }
    r
}

/// Tells whether a password verifies against a PHC string.
pub fn verify_password(password: &str, hash: &str) -> (r: bool)
    ensures
        r == phc_accepts(password@, hash@),
{
    if lanes_are_bounded(hash) {
        outside::argon2_verify(password, hash)
    } else {
        false
    }
}

/// A stored password that is a hash and not plain text.
pub open spec fn is_phc(stored: Seq<char>) -> bool {
    "$argon2"@.is_prefix_of(stored)
}

/// Tells whether a stored password is a hash and not plain text.
pub fn is_hashed(stored: &str) -> (r: bool)
    ensures
        r == is_phc(stored@),
{
    text::starts_with(stored, "$argon2")
}

/// `input` is the password that `stored` stands for, hashed or plain.
pub open spec fn stored_accepts(input: Seq<char>, stored: Seq<char>) -> bool {
    if is_phc(stored) {
        phc_accepts(input, stored)
    } else {
        input == stored
    }
}

/// Tells whether `input` is the password that `stored` stands for, hashed or plain.
pub fn verify_password_auto(input: &str, stored: &str) -> (r: bool)
    ensures
        r == stored_accepts(input@, stored@),
{
    if is_hashed(stored) {
        verify_password(input, stored)
    } else {
        secure_compare(input, stored)
    }
}

/// What `hash_password` gives is recognised as a hash, survives trimming, and accepts the password
/// that it was made of.
pub proof fn law_hashed_password_is_accepted(password: Seq<char>, hash: Seq<char>)
    requires
        outside::is_default_phc(hash),
        phc_accepts(password, hash),
    ensures
        is_phc(hash),
        text::trimmed(hash) == hash,
        stored_accepts(password, hash),
{
    lemma_default_phc_bounded(hash);
    reveal_strlit("$argon2id$v=19$m=19456,t=2,p=1$");
    reveal_strlit("$argon2");
    let head = outside::phc_head();
    assert forall|i: int| 0 <= i < 7 implies hash[i] == "$argon2"@[i] by {
        assert(hash[i] == head[i]);
    }
    assert("$argon2"@ =~= hash.subrange(0, 7));
    text::lemma_trimmed_same(hash);
}

/// A text that is no well-formed hash accepts no password, and one that is, is recognised as a hash.
pub proof fn law_only_hashes_accept(password: Seq<char>, hash: Seq<char>)
    requires
        phc_accepts(password, hash),
    ensures
        outside::is_phc_string(hash),
        is_phc(hash),
{
    reveal_strlit("$argon2");
    reveal_strlit("argon2d");
    reveal_strlit("argon2i");
    reveal_strlit("argon2id");
    let f = text::split_on(hash, '$');
    text::lemma_position_found(hash, '$');
    assert(f[0] == hash.take(text::position(hash, '$') as int));
    let rest = hash.skip(1);
    let g = text::split_on(rest, '$');
    assert(f =~= seq![hash.take(0)] + g);
    text::lemma_position_found(rest, '$');
    let name = g[0];
    assert(name == f[1]);
    assert(name =~= rest.take(name.len() as int));
    assert forall|i: int| 0 <= i < 7 implies hash[i] == "$argon2"@[i] by {
        if i > 0 {
            assert(hash[i] == rest[i - 1] && rest[i - 1] == name[i - 1]);
        }
    }
    assert("$argon2"@ =~= hash.subrange(0, 7));
}

// ---------------------------------------------------------------------------------------------
// Cookies of a request
// ---------------------------------------------------------------------------------------------

/// The value of the first part of the form `name=value`, white space round the part aside.
pub open spec fn cookie_among(parts: Seq<Seq<char>>, name: Seq<char>) -> Option<Seq<char>>
    decreases parts.len(),
{
    if parts.len() == 0 {
        None
    } else {
        match text::split_once(text::trimmed(parts[0]), '=') {
            Some((k, v)) => if k == name {
                Some(v)
            } else {
                cookie_among(parts.drop_first(), name)
            },
            None => cookie_among(parts.drop_first(), name),
        }
    }
}

/// The value of a cookie in a `Cookie` header.
pub open spec fn cookie_in(header: Seq<char>, name: Seq<char>) -> Option<Seq<char>> {
    cookie_among(text::split_on(header, ';'), name)
}

/// The value of a cookie in an optional `Cookie` header.
pub open spec fn cookie_in_opt(header: Option<Seq<char>>, name: Seq<char>) -> Option<Seq<char>> {
    match header {
        Some(h) => cookie_in(h, name),
        None => None,
    }
}

/// The value of a cookie in a `Cookie` header.
pub fn extract_cookie_value<'a>(cookie_header: Option<&'a str>, name: &str) -> (r: Option<&'a str>)
    ensures
        text::opt_str_view(r) == cookie_in_opt(text::opt_str_view(cookie_header), name@),
{
    let cookies = match cookie_header {
        Some(c) => c,
        None => {
            return None;
        },
    };
    let x = text::to_chars(cookies);
    let mut at: usize = 0;
    assert(x@.skip(0) =~= cookies@);
    loop
        invariant
            x@ == cookies@,
            at <= x@.len(),
            cookie_in(cookies@, name@) == cookie_in(x@.skip(at as int), name@),
            text::opt_str_view(cookie_header) == Some(cookies@),
        decreases x@.len() - at,
    {
        let e: usize = text::find_from(&x, at, ';');
        let part = cookies.substring_char(at, e);
        let ghost rest = x@.skip(at as int);
        proof {
            let p = e - at;
            assert(rest.take(p) =~= part@);
            let parts = text::split_on(rest, ';');
            if e == x@.len() {
                assert(rest =~= part@);
                assert(parts.drop_first() =~= Seq::<Seq<char>>::empty());
                assert(cookie_among(Seq::<Seq<char>>::empty(), name@) is None);
            } else {
                assert(rest.skip(p + 1) =~= x@.skip(e + 1));
                assert(parts.drop_first() =~= text::split_on(x@.skip(e + 1), ';'));
            }
            assert(parts[0] == part@);
        }
        match text::str_split_once(text::trim(part), '=') {
            Some((k, v)) => {
                if text::str_eq(k, name) {
                    return Some(v);
                }
            },
            None => {},
        }
        if e == x.len() {
            return None;
        }
        at = e + 1;
    }
}

// ---------------------------------------------------------------------------------------------
// Unlocking shared files
// ---------------------------------------------------------------------------------------------

/// The name of the cookie that unlocks a shared file.
pub open spec fn share_name(id: Seq<char>) -> Seq<char> {
    "sp_"@ + id
}

/// The name of the cookie that unlocks a shared file.
pub fn share_cookie_name(id: &str) -> (r: String)
    ensures
        r@ == share_name(id@),
{
    let mut s = String::from_str("sp_");
    s.append(id);
    s
}

/// The credential that a share password hash makes: its bytes in hexadecimal, which need no
/// quoting in a cookie.
pub open spec fn share_credential(stored_hash: Seq<char>) -> Seq<char> {
    outside::hex_lower(encode_utf8(stored_hash))
}

/// The credential that a share password hash makes.
pub fn share_cookie_value(stored_hash: &str) -> (r: String)
    ensures
        r@ == share_credential(stored_hash@),
{
    outside::hex_encode(stored_hash.as_bytes())
}

/// A request with this `Cookie` header has unlocked the shared file.
pub open spec fn unlocked(header: Option<Seq<char>>, id: Seq<char>, stored_hash: Seq<char>) -> bool {
    cookie_in_opt(header, share_name(id)) == Some(share_credential(stored_hash))
}

/// Tells whether a request has unlocked a shared file: its cookie for the file must be the
/// credential of the stored hash.
pub fn share_unlocked(cookie_header: Option<&str>, id: &str, stored_hash: &str) -> (r: bool)
    ensures
        r == unlocked(text::opt_str_view(cookie_header), id@, stored_hash@),
{
    let name = share_cookie_name(id);
    match extract_cookie_value(cookie_header, name.as_str()) {
        Some(v) => {
            let want = share_cookie_value(stored_hash);
            secure_compare(v, want.as_str())
        },
        None => false,
    }
}

/// The `Set-Cookie` value that unlocks a shared file.
pub open spec fn share_cookie(id: Seq<char>, stored_hash: Seq<char>, secure: bool) -> Seq<char> {
    share_name(id) + "="@ + share_credential(stored_hash)
        + "; HttpOnly; SameSite=Lax; Path=/; Max-Age=86400"@ + secure_mark(secure)
}

/// The `Set-Cookie` value that unlocks a shared file.
pub fn build_share_cookie(id: &str, stored_hash: &str, is_https: bool) -> (r: String)
    ensures
        r@ == share_cookie(id@, stored_hash@, is_https),
{
    let mut s = share_cookie_name(id);
    s.append("=");
    s.append(share_cookie_value(stored_hash).as_str());
    s.append("; HttpOnly; SameSite=Lax; Path=/; Max-Age=86400");
    if is_https {
        s.append("; Secure");
    } else {
        assert(s@ + Seq::<char>::empty() =~= s@);
    }
    s
}

// ---------------------------------------------------------------------------------------------
// Laws of the unlocking cookie
// ---------------------------------------------------------------------------------------------

proof fn lemma_cookie_among_concat(p: Seq<Seq<char>>, q: Seq<Seq<char>>, name: Seq<char>)
    ensures
        cookie_among(p + q, name) == match cookie_among(p, name) {
            Some(v) => Some(v),
            None => cookie_among(q, name),
        },
    decreases p.len(),
{
    if p.len() == 0 {
        assert(p + q =~= q);
    } else {
        assert((p + q).drop_first() =~= p.drop_first() + q);
        lemma_cookie_among_concat(p.drop_first(), q, name);
    }
}

/// Cookies of a header that is two headers with a semicolon between: those of the first come first.
pub proof fn law_cookie_of_joined_headers(a: Seq<char>, b: Seq<char>, name: Seq<char>)
    ensures
        cookie_in(a + seq![';'] + b, name) == match cookie_in(a, name) {
            Some(v) => Some(v),
            None => cookie_in(b, name),
        },
{
    text::lemma_split_on_join(a, ';', b);
    lemma_cookie_among_concat(text::split_on(a, ';'), text::split_on(b, ';'), name);
}

/// The `name=value` part of the cookie that unlocks a shared file.
pub open spec fn share_pair(id: Seq<char>, stored_hash: Seq<char>) -> Seq<char> {
    share_name(id) + "="@ + share_credential(stored_hash)
}

/// The first part of the `Set-Cookie` value is `name=value`, and the value is hexadecimal, so
/// neither a semicolon nor a comma of the hash can cut it short.
pub proof fn law_share_cookie_first_part(id: Seq<char>, stored_hash: Seq<char>, secure: bool)
    requires
        !id.contains(';'),
    ensures
        text::split_on(share_cookie(id, stored_hash, secure), ';')[0] == share_pair(id, stored_hash),
        forall|i: int|
            0 <= i < share_credential(stored_hash).len() ==> is_hex_char(
                #[trigger] share_credential(stored_hash)[i],
            ),
{
    lemma_hex_chars(encode_utf8(stored_hash));
    let pair = share_pair(id, stored_hash);
    lemma_share_pair_plain(id, stored_hash);
    reveal_strlit("; HttpOnly; SameSite=Lax; Path=/; Max-Age=86400");
    let tail = "; HttpOnly; SameSite=Lax; Path=/; Max-Age=86400"@ + secure_mark(secure);
    let s = share_cookie(id, stored_hash, secure);
    assert(s =~= pair + seq![';'] + tail.drop_first());
    text::lemma_split_on_join(pair, ';', tail.drop_first());
    text::lemma_position_found(pair, ';');
    assert(text::split_on(pair, ';') =~= seq![pair]);
}

proof fn lemma_share_pair_plain(id: Seq<char>, stored_hash: Seq<char>)
    requires
        !id.contains(';'),
    ensures
        !share_pair(id, stored_hash).contains(';'),
        share_pair(id, stored_hash)[0] == 's',
        !text::is_whitespace(share_pair(id, stored_hash).last()),
        text::trimmed(share_pair(id, stored_hash)) == share_pair(id, stored_hash),
        text::trimmed(seq![' '] + share_pair(id, stored_hash)) == share_pair(id, stored_hash),
        !id.contains('=') ==> text::split_once(share_pair(id, stored_hash), '=') == Some(
            (share_name(id), share_credential(stored_hash)),
        ),
{
    reveal_strlit("sp_");
    reveal_strlit("=");
    let name = share_name(id);
    let value = share_credential(stored_hash);
    let pair = share_pair(id, stored_hash);
    lemma_hex_chars(encode_utf8(stored_hash));
    assert forall|i: int| 0 <= i < pair.len() implies pair[i] != ';' by {
        if i < 3 {
            assert(pair[i] == "sp_"@[i]);
        } else if i < name.len() {
            assert(pair[i] == id[i - 3]);
            assert(id.contains(id[i - 3]));
        } else if i > name.len() {
            assert(pair[i] == value[i - name.len() - 1]);
            assert(is_hex_char(value[i - name.len() - 1]));
        }
    }
    if value.len() > 0 {
        assert(pair.last() == value.last());
        assert(is_hex_char(value[value.len() - 1]));
    }
    text::lemma_trimmed_same(pair);
    let spaced = seq![' '] + pair;
    assert(spaced.drop_first() =~= pair);
    assert(text::trimmed_start(spaced) == text::trimmed_start(pair));
    if !id.contains('=') {
        assert forall|i: int| 0 <= i < name.len() implies name[i] != '=' by {
            if i < 3 {
                assert(name[i] == "sp_"@[i]);
            } else {
                assert(id.contains(id[i - 3]));
            }
        }
        text::lemma_split_once_join(name, '=', value);
        assert(pair =~= name + seq!['='] + value);
    }
}

/// The cookie that unlocks a shared file does unlock it: sent back alone, or between other cookies
/// of which none before it has its name, it makes the request an unlocked one.
pub proof fn law_share_cookie_unlocks(
    id: Seq<char>,
    stored_hash: Seq<char>,
    secure: bool,
    before: Seq<char>,
    after: Seq<char>,
)
    requires
        !id.contains(';'),
        !id.contains('='),
        cookie_in(before, share_name(id)) is None,
    ensures
        ({
            let pair = text::split_on(share_cookie(id, stored_hash, secure), ';')[0];
            &&& unlocked(Some(pair), id, stored_hash)
            &&& unlocked(Some(pair + "; "@ + after), id, stored_hash)
            &&& unlocked(Some(before + "; "@ + pair), id, stored_hash)
            &&& unlocked(Some(before + "; "@ + pair + "; "@ + after), id, stored_hash)
        }),
{
    law_share_cookie_first_part(id, stored_hash, secure);
    lemma_share_pair_plain(id, stored_hash);
    reveal_strlit("; ");
    let pair = share_pair(id, stored_hash);
    let name = share_name(id);
    let spaced = seq![' '] + pair;
    assert(!spaced.contains(';')) by {
        assert forall|i: int| 0 <= i < spaced.len() implies spaced[i] != ';' by {
            if i > 0 {
                assert(spaced[i] == pair[i - 1]);
                assert(pair.contains(pair[i - 1]));
            }
        }
    }
    text::lemma_position_found(pair, ';');
    text::lemma_position_found(spaced, ';');
    assert(text::split_on(pair, ';') =~= seq![pair]);
    assert(text::split_on(spaced, ';') =~= seq![spaced]);
    assert(cookie_in(pair, name) == Some(share_credential(stored_hash)));
    assert(cookie_in(spaced, name) == Some(share_credential(stored_hash)));
    let tail = seq![' '] + after;
    assert(pair + "; "@ + after =~= pair + seq![';'] + tail);
    law_cookie_of_joined_headers(pair, tail, name);
    assert(before + "; "@ + pair =~= before + seq![';'] + spaced);
    law_cookie_of_joined_headers(before, spaced, name);
    assert(before + "; "@ + pair + "; "@ + after =~= (before + seq![';'] + spaced) + seq![';'] + tail);
    law_cookie_of_joined_headers(before + seq![';'] + spaced, tail, name);
}

proof fn lemma_hex_injective(a: Seq<u8>, b: Seq<u8>)
    requires
        outside::hex_lower(a) == outside::hex_lower(b),
    ensures
        a == b,
{
    let x = outside::hex_lower(a);
    let y = outside::hex_lower(b);
    assert(x.len() == 2 * a.len() && y.len() == 2 * b.len());
    assert forall|i: int| 0 <= i < a.len() implies a[i] == b[i] by {
        assert(x[2 * i] == outside::hex_digit(a[i] as int / 16));
        assert(y[2 * i] == outside::hex_digit(b[i] as int / 16));
        assert(x[2 * i + 1] == outside::hex_digit(a[i] as int % 16));
        assert(y[2 * i + 1] == outside::hex_digit(b[i] as int % 16));
    }
    assert(a =~= b);
}

/// A cookie unlocks a file for one stored hash at most: where the share password has changed, the
/// old cookie no longer unlocks.
pub proof fn law_unlocked_for_one_hash(
    header: Option<Seq<char>>,
    id: Seq<char>,
    hash: Seq<char>,
    other: Seq<char>,
)
    requires
        unlocked(header, id, hash),
        unlocked(header, id, other),
    ensures
        hash == other,
{
    lemma_hex_injective(encode_utf8(hash), encode_utf8(other));
    text::lemma_encode_injective(hash, other);
}

// ---------------------------------------------------------------------------------------------
// Laws of cookies and passwords
// ---------------------------------------------------------------------------------------------

/// An option is switched on by `1`, `true`, `yes` and `on`, in any case and with white space round them,
/// and by nothing else.
pub proof fn law_options_are_switched_on(a: Seq<char>, t: Seq<char>, b: Seq<char>)
    requires
        forall|i: int| 0 <= i < a.len() ==> text::is_whitespace(#[trigger] a[i]),
        forall|i: int| 0 <= i < b.len() ==> text::is_whitespace(#[trigger] b[i]),
        t.len() > 0 ==> !text::is_whitespace(t[0]) && !text::is_whitespace(t.last()),
    ensures
        ({
            let lower = text::ascii_lower_all(t);
            is_truthy(a + t + b) <==> lower == "1"@ || lower == "true"@ || lower == "yes"@ || lower == "on"@
        }),
        always_secure(Some(a + t + b)) == is_truthy(a + t + b),
        !always_secure(None),
{
    text::law_trimmed_of_surrounded(a, t, b);
}

/// Lower case changes the letters from A to Z, each to its own small letter, and nothing else.
pub proof fn law_lower_case_of_ascii(s: Seq<char>, i: int)
    requires
        0 <= i < s.len(),
    ensures
        text::ascii_lower_all(s).len() == s.len(),
        0x41 <= s[i] as u32 <= 0x5a ==> text::ascii_lower_all(s)[i] as u32 == s[i] as u32 + 32,
        !(0x41 <= s[i] as u32 <= 0x5a) ==> text::ascii_lower_all(s)[i] == s[i],
{
}

/// A session lasts as long as was set, where that is a positive number of 32 bits, and seven days
/// elsewhere.
pub proof fn law_sessions_last_as_set(n: nat, v: Seq<char>)
    ensures
        0 < n <= u32::MAX && text::unsigned_value(text::trimmed(v)) == Some(n) ==> session_max_age(Some(v)) == n,
        n > u32::MAX && text::unsigned_value(text::trimmed(v)) == Some(n) ==> session_max_age(Some(v)) == 604800,
        text::unsigned_value(text::trimmed(v)) == Some(0nat) ==> session_max_age(Some(v)) == 604800,
        text::unsigned_value(text::trimmed(v)) is None ==> session_max_age(Some(v)) == 604800,
        session_max_age(None) == 604800,
{
}

/// A session cookie holds the token under its name. It is kept from scripts and from other sites, counts
/// for every path, lasts as long as sessions do, and is marked for TLS where it is to be.
pub proof fn law_session_cookies_are_guarded(token: Seq<char>, secure: bool, max_age: nat)
    ensures
        session_cookie(token, secure, max_age) == "tgstate_session="@ + token
            + "; HttpOnly; SameSite=Strict; Path=/; Max-Age="@ + text::decimal(max_age) + if secure {
            "; Secure"@
        } else {
            ""@
        },
        clear_cookie() == "tgstate_session="@ + "; HttpOnly; SameSite=Strict; Path=/; Max-Age=0"@,
{
    reveal_strlit("tgstate_session");
    reveal_strlit("=");
    reveal_strlit("tgstate_session=");
    reveal_strlit("");
    reveal_strlit("=; HttpOnly; SameSite=Strict; Path=/; Max-Age=0");
    reveal_strlit("; HttpOnly; SameSite=Strict; Path=/; Max-Age=0");
    assert(COOKIE_NAME@ == "tgstate_session"@);
    assert(COOKIE_NAME@ + "="@ =~= "tgstate_session="@);
    assert(""@ =~= Seq::<char>::empty());
    assert("=; HttpOnly; SameSite=Strict; Path=/; Max-Age=0"@ =~= "="@
        + "; HttpOnly; SameSite=Strict; Path=/; Max-Age=0"@);
    assert(clear_cookie() =~= "tgstate_session="@ + "; HttpOnly; SameSite=Strict; Path=/; Max-Age=0"@);
}

/// The cookie that unlocks a file bears the identifier of the file in its name, and what it holds is the
/// stored hash, byte by byte. It is kept from scripts, lasts a day, and is marked for TLS where the
/// request came over it.
pub proof fn law_share_cookies_are_guarded(id: Seq<char>, hash: Seq<char>, secure: bool)
    ensures
        share_cookie(id, hash, secure) == "sp_"@ + id + "="@ + outside::hex_lower(encode_utf8(hash))
            + "; HttpOnly; SameSite=Lax; Path=/; Max-Age=86400"@ + if secure {
            "; Secure"@
        } else {
            ""@
        },
        share_name(id) == "sp_"@ + id,
{
    reveal_strlit("");
    assert(""@ =~= Seq::<char>::empty());
}

/// A cookie is found by its name: what stands behind the first equals sign is its value.
pub proof fn law_cookies_are_found(name: Seq<char>, value: Seq<char>, other: Seq<char>)
    requires
        name.len() > 0,
        !name.contains('='),
        !name.contains(';'),
        !value.contains(';'),
        !text::is_whitespace(name[0]),
        value.len() > 0 ==> !text::is_whitespace(value.last()),
    ensures
        cookie_in(name + seq!['='] + value, name) == Some(value),
        other != name ==> cookie_in(name + seq!['='] + value, other) is None,
        cookie_in_opt(Some(name + seq!['='] + value), name) == Some(value),
        cookie_in_opt(None, name) is None,
{
    let pair = name + seq!['='] + value;
    assert forall|i: int| 0 <= i < pair.len() implies pair[i] != ';' by {
        if i < name.len() {
            assert(name.contains(name[i]));
        } else if i > name.len() {
            assert(pair[i] == value[i - name.len() - 1]);
            assert(value.contains(value[i - name.len() - 1]));
        }
    }
    assert(!pair.contains(';'));
    text::law_split_where_the_separator_is(pair, ';');
    if value.len() > 0 {
        assert(pair.last() == value.last());
    } else {
        assert(pair.last() == '=');
    }
    text::lemma_trimmed_same(pair);
    text::lemma_split_once_join(name, '=', value);
    assert(seq![pair].drop_first() =~= Seq::<Seq<char>>::empty());
    assert(cookie_among(Seq::<Seq<char>>::empty(), other) is None);
}

/// A stored password that is plain text accepts itself and nothing else; one that is a hash accepts what
/// verifies against it.
pub proof fn law_stored_passwords_accept(input: Seq<char>, stored: Seq<char>)
    ensures
        "$argon2"@.is_prefix_of(stored) ==> stored_accepts(input, stored) == phc_accepts(input, stored),
        !"$argon2"@.is_prefix_of(stored) ==> stored_accepts(input, stored) == (input == stored),
        can_be_hashed(input) <==> encode_utf8(input).len() <= u32::MAX,
        phc_accepts(input, stored) ==> outside::argon2_accepts(input, stored),
        outside::is_phc_string(stored) && outside::lanes_bounded(stored) && outside::argon2_accepts(
            input,
            stored,
        ) ==> phc_accepts(input, stored),
{
    text::lemma_byte_len(input);
}

/// A file is unlocked exactly by the cookie that bears its identifier and holds its hash.
pub proof fn law_files_are_unlocked_by_their_cookies(header: Option<Seq<char>>, id: Seq<char>, hash: Seq<char>)
    ensures
        unlocked(header, id, hash) <==> cookie_in_opt(header, "sp_"@ + id) == Some(
            outside::hex_lower(encode_utf8(hash)),
        ),
        !unlocked(None, id, hash),
{
}

/// A session token is 64 digits of hexadecimal, and nothing else is.
pub proof fn law_session_tokens_are_hexadecimal(s: Seq<char>)
    ensures
        is_session_token(s) <==> s.len() == 64 && forall|i: int|
            0 <= i < s.len() ==> (0x30 <= (#[trigger] s[i]) as u32 <= 0x39 || 0x61 <= s[i] as u32 <= 0x66),
{
    if s.len() == 64 && forall|i: int|
        0 <= i < s.len() ==> (0x30 <= (#[trigger] s[i]) as u32 <= 0x39 || 0x61 <= s[i] as u32 <= 0x66) {
        assert forall|i: int| 0 <= i < s.len() implies is_hex_char(#[trigger] s[i]) by {}
    }
    if is_session_token(s) {
        assert forall|i: int| 0 <= i < s.len() implies (0x30 <= (#[trigger] s[i]) as u32 <= 0x39 || 0x61
            <= s[i] as u32 <= 0x66) by {
            assert(is_hex_char(s[i]));
        }
    }
}

} // verus!
