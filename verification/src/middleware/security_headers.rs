//! The headers that every answer carries.

use vstd::prelude::*;

use crate::middleware::auth;
use crate::reply;
use crate::text;

verus! {

/// What pages may load: their own scripts, styles and requests, and images and media from files; they
/// hold no plugins and stand in no frame.
pub open spec fn content_policy() -> Seq<char> {
    "default-src 'self'; script-src 'self' 'unsafe-inline'; style-src 'self' 'unsafe-inline'; img-src 'self' data: blob:; media-src 'self' blob:; font-src 'self' data:; connect-src 'self'; object-src 'none'; base-uri 'self'; form-action 'self'; frame-ancestors 'none'"@
}

/// The headers that an answer carries.
pub open spec fn security_headers(https: bool) -> Seq<(Seq<char>, Seq<char>)> {
    let plain = reply::empty_headers().push(("X-Content-Type-Options"@, "nosniff"@)).push(
        ("X-Frame-Options"@, "DENY"@),
    ).push(("Referrer-Policy"@, "no-referrer"@)).push(
        (
            "Permissions-Policy"@,
            "geolocation=(), microphone=(), camera=(), payment=(), usb=()"@,
        ),
    ).push(("Content-Security-Policy"@, content_policy()));
    if https {
        plain.push(("Strict-Transport-Security"@, "max-age=31536000; includeSubDomains"@))
    } else {
        plain
    }
}

/// The request came over TLS, to this program or to the proxy before it.
pub open spec fn came_over_tls(forwarded_proto: Option<Seq<char>>, scheme: Option<Seq<char>>) -> bool {
    forwarded_proto == Some("https"@) || scheme == Some("https"@)
}

/// The headers that an answer is given, in place of those of the same names that it has.
pub fn security_headers_middleware(forwarded_proto: Option<&str>, scheme: Option<&str>) -> (r: Vec<
    (String, String),
>)
    ensures
        reply::headers_view(r@) == security_headers(
            came_over_tls(text::opt_str_view(forwarded_proto), text::opt_str_view(scheme)),
        ),
{
    let over_tls = auth::is_https(forwarded_proto) || auth::is_https(scheme);
    let mut r = reply::no_headers();
    reply::put_header(&mut r, "X-Content-Type-Options", "nosniff");
    reply::put_header(&mut r, "X-Frame-Options", "DENY");
    reply::put_header(&mut r, "Referrer-Policy", "no-referrer");
    reply::put_header(
        &mut r,
        "Permissions-Policy",
        "geolocation=(), microphone=(), camera=(), payment=(), usb=()",
    );
    reply::put_header(
        &mut r,
        "Content-Security-Policy",
        "default-src 'self'; script-src 'self' 'unsafe-inline'; style-src 'self' 'unsafe-inline'; img-src 'self' data: blob:; media-src 'self' blob:; font-src 'self' data:; connect-src 'self'; object-src 'none'; base-uri 'self'; form-action 'self'; frame-ancestors 'none'",
    );
    if over_tls {
        reply::put_header(
            &mut r,
            "Strict-Transport-Security",
            "max-age=31536000; includeSubDomains",
        );
    }
    r
}

/// Every answer forbids guessing types and framing, sends no referrer, asks for no device, and says what
/// pages may load; over TLS it asks to stay there for a year, and only then.
pub proof fn law_every_answer_is_guarded(https: bool)
    ensures
        ({
            let h = security_headers(https);
            &&& h.contains(("X-Content-Type-Options"@, "nosniff"@))
            &&& h.contains(("X-Frame-Options"@, "DENY"@))
            &&& h.contains(("Referrer-Policy"@, "no-referrer"@))
            &&& h.contains(
                (
                    "Permissions-Policy"@,
                    "geolocation=(), microphone=(), camera=(), payment=(), usb=()"@,
                ),
            )
            &&& exists|p: Seq<char>|
                "default-src 'self'; "@.is_prefix_of(p) && #[trigger] h.contains(
                    ("Content-Security-Policy"@, p),
                )
            &&& https <==> h.contains(
                ("Strict-Transport-Security"@, "max-age=31536000; includeSubDomains"@),
            )
        }),
{
    let h = security_headers(https);
    assert(h[0] == ("X-Content-Type-Options"@, "nosniff"@));
    assert(h[1] == ("X-Frame-Options"@, "DENY"@));
    assert(h[2] == ("Referrer-Policy"@, "no-referrer"@));
    assert(h[3] == (
        "Permissions-Policy"@,
        "geolocation=(), microphone=(), camera=(), payment=(), usb=()"@,
    ));
    assert(h[4] == ("Content-Security-Policy"@, content_policy()));
    if https {
        assert(h[5] == ("Strict-Transport-Security"@, "max-age=31536000; includeSubDomains"@));
    }
    reveal_strlit("default-src 'self'; ");
    reveal_strlit(
        "default-src 'self'; script-src 'self' 'unsafe-inline'; style-src 'self' 'unsafe-inline'; img-src 'self' data: blob:; media-src 'self' blob:; font-src 'self' data:; connect-src 'self'; object-src 'none'; base-uri 'self'; form-action 'self'; frame-ancestors 'none'",
    );
    assert(content_policy().subrange(0, 20) =~= "default-src 'self'; "@);
    assert(h.contains(("Content-Security-Policy"@, content_policy())));
    reveal_strlit("X-Content-Type-Options");
    reveal_strlit("X-Frame-Options");
    reveal_strlit("Referrer-Policy");
    reveal_strlit("Permissions-Policy");
    reveal_strlit("Content-Security-Policy");
    reveal_strlit("Strict-Transport-Security");
    assert("X-Content-Type-Options"@.len() == 22);
    assert("X-Frame-Options"@.len() == 15);
    assert("Referrer-Policy"@.len() == 15);
    assert("Permissions-Policy"@.len() == 18);
    assert("Content-Security-Policy"@.len() == 23);
    assert("Strict-Transport-Security"@.len() == 25);
    assert("X-Frame-Options"@[0] != "Referrer-Policy"@[0]);
}

/// A request came over TLS where the proxy says so or its own scheme does, and nowhere else.
pub proof fn law_tls_is_told_by_proxy_or_scheme(forwarded_proto: Option<Seq<char>>, scheme: Option<Seq<char>>)
    ensures
        came_over_tls(Some("https"@), scheme),
        came_over_tls(forwarded_proto, Some("https"@)),
        forwarded_proto != Some("https"@) && scheme != Some("https"@) ==> !came_over_tls(
            forwarded_proto,
            scheme,
        ),
{
}

} // verus!
