//! Bug-report URL construction. Privacy by design: the prefilled issue
//! holds only the app version and platform — nothing from the user's
//! machine — and the user submits it in their browser.

use crate::text::push_char;
use vstd::prelude::*;
use vstd::utf8::encode_utf8;

verus! {

/// RFC 3986 unreserved bytes, kept as they are in a query component.
pub open spec fn unreserved(b: u8) -> bool {
    (65 <= b && b <= 90) || (97 <= b && b <= 122) || (48 <= b && b <= 57) || b == 45 || b == 95
        || b == 46 || b == 126
}

/// The upper-case hexadecimal digit of a value below 16.
pub open spec fn hex_digit(d: u8) -> char {
    if d < 10 {
        (48 + d) as char
    } else {
        (55 + d) as char
    }
}

/// The encoding of one byte: itself when unreserved, else `%XX`.
pub open spec fn encode_byte(b: u8) -> Seq<char> {
    if unreserved(b) {
        seq![b as char]
    } else {
        seq!['%', hex_digit(b / 16), hex_digit(b % 16)]
    }
}

pub open spec fn encode_bytes(bs: Seq<u8>) -> Seq<char>
    decreases bs.len(),
{
    if bs.len() == 0 {
        seq![]
    } else {
        encode_bytes(bs.drop_last()) + encode_byte(bs.last())
    }
}

/// Percent-encoding of a text's UTF-8 bytes for a URL query component.
pub open spec fn percent_encoded(input: Seq<char>) -> Seq<char> {
    encode_bytes(encode_utf8(input))
}

fn hex_char(d: u8) -> (c: char)
    requires
        d < 16,
    ensures
        c == hex_digit(d),
{
    if d < 10 {
        (48 + d) as char
    } else {
        (55 + d) as char
    }
}

/// Percent-encodes `input` for a URL query component (RFC 3986
/// unreserved characters kept).
pub fn percent_encode(input: &str) -> (out: String)
    ensures
        out@ == percent_encoded(input@),
{
    let bytes = input.as_bytes();
    let mut out = String::new();
    let mut i: usize = 0;
    proof {
        assert(bytes@.take(0) =~= Seq::<u8>::empty());
    }
    while i < bytes.len()
        invariant
            i <= bytes@.len(),
            bytes@ == encode_utf8(input@),
            out@ == encode_bytes(bytes@.take(i as int)),
        decreases bytes@.len() - i,
    {
        let b = bytes[i];
        proof {
            assert(bytes@.take(i + 1).drop_last() =~= bytes@.take(i as int));
            assert(bytes@.take(i + 1).last() == b);
        }
        let ghost before = out@;
        if (65 <= b && b <= 90) || (97 <= b && b <= 122) || (48 <= b && b <= 57) || b == 45 || b
            == 95 || b == 46 || b == 126 {
            push_char(&mut out, b as char);
        } else {
            push_char(&mut out, '%');
            push_char(&mut out, hex_char(b / 16));
            push_char(&mut out, hex_char(b % 16));
        }
        proof {
            assert(out@ =~= before + encode_byte(b));
        }
        i += 1;
    }
    proof {
        assert(bytes@.take(bytes@.len() as int) =~= bytes@);
    }
    out
}

/// A character that may stand in an encoded query component.
pub open spec fn query_safe(c: char) -> bool {
    ('A' <= c && c <= 'Z') || ('a' <= c && c <= 'z') || ('0' <= c && c <= '9') || c == '-' || c
        == '_' || c == '.' || c == '~' || c == '%'
}

proof fn lemma_encode_bytes_safe(bs: Seq<u8>)
    ensures
        forall|i: int|
            0 <= i < encode_bytes(bs).len() ==> query_safe(#[trigger] encode_bytes(bs)[i]),
    decreases bs.len(),
{
    if bs.len() > 0 {
        lemma_encode_bytes_safe(bs.drop_last());
        let prev = encode_bytes(bs.drop_last());
        let b = bs.last();
        let e = encode_byte(b);
        assert(b / 16 < 16 && b % 16 < 16);
        assert forall|i: int| 0 <= i < e.len() implies query_safe(#[trigger] e[i]) by {
            if unreserved(b) {
                assert(e[i] == b as char);
            }
        }
        assert forall|i: int|
            0 <= i < encode_bytes(bs).len() implies query_safe(#[trigger] encode_bytes(bs)[i]) by {
            if i < prev.len() {
                assert(encode_bytes(bs)[i] == prev[i]);
            } else {
                assert(encode_bytes(bs)[i] == e[i - prev.len()]);
            }
        }
    }
}

/// An encoded component never holds a character that would break the
/// query string (a space, a newline, `&`, `=`, `?`, `#`, …): only
/// unreserved characters and `%` escapes.
pub proof fn encoded_is_query_safe(input: Seq<char>)
    ensures
        forall|i: int|
            0 <= i < percent_encoded(input).len() ==> query_safe(
                #[trigger] percent_encoded(input)[i],
            ),
{
    lemma_encode_bytes_safe(encode_utf8(input));
}

/// The repository bug reports go to.
pub open spec fn repo_url() -> Seq<char> {
    "https://github.com/gregnazario/worktree-ui"@
}

/// The version the app reports.
pub open spec fn version() -> Seq<char> {
    "0.1.0"@
}

/// The app's version.
pub fn app_version() -> (v: &'static str)
    ensures
        v@ == version(),
{
    "0.1.0"
}

/// The platform's display name for an `std::env::consts::OS` value.
pub open spec fn platform_label_of(os: Seq<char>) -> Seq<char> {
    if os == "macos"@ {
        "macOS"@
    } else if os == "windows"@ {
        "Windows"@
    } else if os == "freebsd"@ {
        "FreeBSD"@
    } else {
        "Linux"@
    }
}

/// Names the platform.
pub fn platform_label(os: &str) -> (l: &'static str)
    ensures
        l@ == platform_label_of(os@),
{
    let v = crate::text::chars_of(os);
    if crate::text::eq_str(&v, "macos") {
        "macOS"
    } else if crate::text::eq_str(&v, "windows") {
        "Windows"
    } else if crate::text::eq_str(&v, "freebsd") {
        "FreeBSD"
    } else {
        "Linux"
    }
}

/// The issue template the user completes: the version and platform,
/// nothing else.
pub open spec fn issue_body_of(os: Seq<char>, arch: Seq<char>) -> Seq<char> {
    "### What happened\n\n\n### Steps to reproduce\n\n1. \n2. \n\n### Expected\n\n\n---\nworktree-tool "@
        + version() + " on "@ + platform_label_of(os) + " ("@ + arch + ")"@
}

/// Builds the issue template for the platform (`std::env::consts::OS`
/// and `ARCH`).
pub fn issue_body(os: &str, arch: &str) -> (b: String)
    ensures
        b@ == issue_body_of(os@, arch@),
{
    let mut b = String::from_str(
        "### What happened\n\n\n### Steps to reproduce\n\n1. \n2. \n\n### Expected\n\n\n---\nworktree-tool ",
    );
    b.append(app_version());
    b.append(" on ");
    b.append(platform_label(os));
    b.append(" (");
    b.append(arch);
    b.append(")");
    b
}

/// GitHub's prefilled new-issue URL.
pub open spec fn report_url_of(body: Seq<char>) -> Seq<char> {
    repo_url() + "/issues/new?title="@ + percent_encoded("Bug: "@) + "&body="@ + percent_encoded(
        body,
    )
}

/// Builds the new-issue URL prefilled with `body` (see `issue_body`).
pub fn report_bug_url(body: &str) -> (url: String)
    ensures
        url@ == report_url_of(body@),
{
    let mut url = String::from_str("https://github.com/gregnazario/worktree-ui");
    url.append("/issues/new?title=");
    url.append(percent_encode("Bug: ").as_str());
    url.append("&body=");
    url.append(percent_encode(body).as_str());
    url
}

} // verus!
