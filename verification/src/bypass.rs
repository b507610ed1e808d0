//! Routing a page fetch: straight to the page, or through the helper that
//! fetches pages past anti-bot protection.
//!
//! The helper is asked as `{proxy}/html?url={page}`, the page's URL
//! percent-encoded so that it survives as one query parameter.

use crate::config::Config;
use crate::fetch::{html_get_page, ActionView, PageFetch, PageFetchView, APP_USER_AGENT};
use crate::text::push_char;
use vstd::prelude::*;
use vstd::utf8::encode_utf8;

verus! {

/// The bytes that percent-encoding leaves as they are: ASCII letters and
/// digits, `-`, `.`, `_` and `~`.
pub open spec fn is_unreserved(b: u8) -> bool {
    ||| 0x41 <= b <= 0x5A
    ||| 0x61 <= b <= 0x7A
    ||| 0x30 <= b <= 0x39
    ||| b == 0x2D
    ||| b == 0x2E
    ||| b == 0x5F
    ||| b == 0x7E
}

/// The hexadecimal digit, in upper case, of a number below sixteen.
pub open spec fn hex_digit(n: u8) -> char {
    if n < 10 {
        (0x30 + n) as char
    } else {
        (0x41 + (n - 10)) as char
    }
}

/// One byte, percent-encoded: itself if unreserved, else `%` and its two
/// hexadecimal digits.
pub open spec fn escaped(b: u8) -> Seq<char> {
    if is_unreserved(b) {
        seq![b as char]
    } else {
        seq!['%', hex_digit(b / 16), hex_digit(b % 16)]
    }
}

/// A row of bytes, percent-encoded byte by byte.
pub open spec fn percent_encoded(bytes: Seq<u8>) -> Seq<char>
    decreases bytes.len(),
{
    if bytes.len() == 0 {
        Seq::empty()
    } else {
        percent_encoded(bytes.drop_last()) + escaped(bytes.last())
    }
}

/// The URL under which the helper at `proxy` fetches `url`.
pub open spec fn proxied(proxy: Seq<char>, url: Seq<char>) -> Seq<char> {
    proxy + "/html?url="@ + percent_encoded(encode_utf8(url))
}

/// Where the requests for `url` go: to `url` itself when `use_cf_bypass` is
/// set, else to the helper.
pub open spec fn routed(config: &Config, url: Seq<char>) -> Seq<char> {
    if config.use_cf_bypass {
        url
    } else {
        proxied(config.cloudflare_proxy@, url)
    }
}

/// The number that an upper-case hexadecimal digit stands for.
pub open spec fn hex_value(c: char) -> Option<u8> {
    let v = c as u32;
    if 0x30 <= v <= 0x39 {
        Some((v - 0x30) as u8)
    } else if 0x41 <= v <= 0x46 {
        Some((v - 0x41 + 10) as u8)
    } else {
        None
    }
}

/// The bytes that a percent-encoded text stands for; `None` where the text is
/// not the percent-encoding of anything.
pub open spec fn percent_decoded(text: Seq<char>) -> Option<Seq<u8>>
    decreases text.len(),
{
    if text.len() == 0 {
        Some(Seq::empty())
    } else if text[0] == '%' {
        if text.len() >= 3 && hex_value(text[1]) is Some && hex_value(text[2]) is Some {
            match percent_decoded(text.skip(3)) {
                Some(rest) => Some(
                    seq![(hex_value(text[1])->0 * 16 + hex_value(text[2])->0) as u8] + rest,
                ),
                None => None,
            }
        } else {
            None
        }
    } else if (text[0] as u32) < 128 && is_unreserved(text[0] as u8) {
        match percent_decoded(text.skip(1)) {
            Some(rest) => Some(seq![text[0] as u8] + rest),
            None => None,
        }
    } else {
        None
    }
}

proof fn lemma_encoded_front(b: u8, rest: Seq<u8>)
    ensures
        percent_encoded(seq![b] + rest) == escaped(b) + percent_encoded(rest),
    decreases rest.len(),
{
    let whole = seq![b] + rest;
    if rest.len() == 0 {
        assert(whole.drop_last() =~= Seq::<u8>::empty());
        assert(percent_encoded(whole.drop_last()) =~= Seq::<char>::empty());
        assert(whole.last() == b);
        assert(percent_encoded(whole) =~= escaped(b) + percent_encoded(rest));
    } else {
        assert(whole.drop_last() =~= seq![b] + rest.drop_last());
        assert(whole.last() == rest.last());
        lemma_encoded_front(b, rest.drop_last());
        assert(percent_encoded(whole) =~= escaped(b) + percent_encoded(rest));
    }
}

proof fn lemma_hex_digit_value(n: u8)
    requires
        n < 16,
    ensures
        hex_value(hex_digit(n)) == Some(n),
        (hex_digit(n) as u32) < 128,
        is_unreserved(hex_digit(n) as u8),
        hex_digit(n) != '%',
{
}

proof fn lemma_decoded_front(b: u8, tail: Seq<char>)
    ensures
        percent_decoded(escaped(b) + tail) == match percent_decoded(tail) {
            Some(rest) => Some(seq![b] + rest),
            None => None,
        },
{
    let text = escaped(b) + tail;
    if is_unreserved(b) {
        assert(text[0] == b as char);
        assert(text[0] as u8 == b);
        assert(text.skip(1) =~= tail);
    } else {
        lemma_hex_digit_value(b / 16);
        lemma_hex_digit_value(b % 16);
        assert(text[0] == '%');
        assert(text[1] == hex_digit(b / 16));
        assert(text[2] == hex_digit(b % 16));
        assert(text.skip(3) =~= tail);
        assert(((b / 16) * 16 + b % 16) as u8 == b);
    }
}

/// Percent-encoding loses nothing: the encoded text decodes to the bytes it
/// was made of.
pub proof fn law_percent_encoding_is_reversible(bytes: Seq<u8>)
    ensures
        percent_decoded(percent_encoded(bytes)) == Some(bytes),
    decreases bytes.len(),
{
    if bytes.len() == 0 {
    } else {
        let b = bytes[0];
        let rest = bytes.drop_first();
        assert(bytes =~= seq![b] + rest);
        lemma_encoded_front(b, rest);
        lemma_decoded_front(b, percent_encoded(rest));
        law_percent_encoding_is_reversible(rest);
    }
}

/// Two URLs that the helper is asked for in the same words are the same URL.
pub proof fn law_proxied_url_names_one_page(proxy: Seq<char>, first: Seq<char>, second: Seq<char>)
    requires
        proxied(proxy, first) == proxied(proxy, second),
    ensures
        first == second,
{
    let lead = proxy + "/html?url="@;
    let a = percent_encoded(encode_utf8(first));
    let b = percent_encoded(encode_utf8(second));
    assert((lead + a).skip(lead.len() as int) =~= a);
    assert((lead + b).skip(lead.len() as int) =~= b);
    law_percent_encoding_is_reversible(encode_utf8(first));
    law_percent_encoding_is_reversible(encode_utf8(second));
    vstd::utf8::encode_utf8_decode_utf8(first);
    vstd::utf8::encode_utf8_decode_utf8(second);
}

/// A percent-encoded text holds nothing but `%` and unreserved characters, so
/// none of the characters that part a query string occurs in it.
pub proof fn law_percent_encoded_text_is_plain(bytes: Seq<u8>, i: int)
    requires
        0 <= i < percent_encoded(bytes).len(),
    ensures
        percent_encoded(bytes)[i] == '%' || ((percent_encoded(bytes)[i] as u32) < 128
            && is_unreserved(percent_encoded(bytes)[i] as u8)),
    decreases bytes.len(),
{
    if bytes.len() > 0 {
        let head = percent_encoded(bytes.drop_last());
        if i < head.len() {
            law_percent_encoded_text_is_plain(bytes.drop_last(), i);
        } else {
            lemma_hex_digit_value(bytes.last() / 16);
            lemma_hex_digit_value(bytes.last() % 16);
        }
    }
}

fn hex(n: u8) -> (c: char)
    requires
        n < 16,
    ensures
        c == hex_digit(n),
{
    if n < 10 {
        (0x30 + n) as char
    } else {
        (0x41 + (n - 10)) as char
    }
}

fn unreserved(b: u8) -> (keep: bool)
    ensures
        keep == is_unreserved(b),
{
    (0x41 <= b && b <= 0x5A) || (0x61 <= b && b <= 0x7A) || (0x30 <= b && b <= 0x39) || b == 0x2D
        || b == 0x2E || b == 0x5F || b == 0x7E
}

/// Appends the percent-encoding of the UTF-8 bytes of `s` to `out`.
pub fn push_percent_encoded(out: &mut String, s: &str)
    ensures
        final(out)@ == old(out)@ + percent_encoded(encode_utf8(s@)),
{
    let bytes = s.as_bytes();
    let ghost before = out@;
    let mut i: usize = 0;
    while i < bytes.len()
        invariant
            i <= bytes@.len(),
            bytes@ == encode_utf8(s@),
            out@ == before + percent_encoded(bytes@.take(i as int)),
        decreases bytes@.len() - i,
    {
        let b = bytes[i];
        proof {
            let upto = bytes@.take(i + 1);
            assert(upto.drop_last() =~= bytes@.take(i as int));
            assert(upto.last() == b);
            assert(percent_encoded(upto) == percent_encoded(bytes@.take(i as int)) + escaped(b));
        }
        let ghost sofar = out@;
        if unreserved(b) {
            push_char(out, b as char);
            assert(out@ =~= sofar + escaped(b));
        } else {
            push_char(out, '%');
            push_char(out, hex(b / 16));
            push_char(out, hex(b % 16));
            assert(out@ =~= sofar + escaped(b));
        }
        proof {
            assert(out@ =~= before + percent_encoded(bytes@.take(i + 1)));
        }
        i += 1;
    }
    proof {
        assert(bytes@.take(bytes@.len() as int) =~= bytes@);
    }
}

/// The percent-encoding of the UTF-8 bytes of `s`.
pub fn percent_encode(s: &str) -> (out: String)
    ensures
        out@ == percent_encoded(encode_utf8(s@)),
{
    let mut out = String::new();
    push_percent_encoded(&mut out, s);
    proof {
        assert(Seq::<char>::empty() + percent_encoded(encode_utf8(s@)) =~= percent_encoded(
            encode_utf8(s@),
        ));
    }
    out
}

/// The URL that the requests for `url` go to under `config`.
pub fn fetch_target(config: &Config, url: String) -> (target: String)
    ensures
        target@ == routed(config, url@),
{
    if config.use_cf_bypass {
        url
    } else {
        let mut target = config.cloudflare_proxy.clone();
        target.append("/html?url=");
        push_percent_encoded(&mut target, url.as_str());
        target
    }
}

/// Begins a fetch of the page at `url`, routed as `config` says: with
/// `use_cf_bypass` set the requests go to `url` unchanged, else to the helper,
/// which gets `url` percent-encoded as its `url` parameter. Retries are those
/// of `html_get_page`.
pub fn html_get_page_cf(config: &Config, url: String) -> (fetch: PageFetch)
    ensures
        fetch@ == PageFetchView::start(
            config.max_retry,
            config.default_sleep,
            routed(config, url@),
        ),
        fetch@.wf(),
        config.valid() ==> fetch@.action() == (ActionView::Send {
            url: routed(config, url@),
            user_agent: APP_USER_AGENT@,
        }),
{
    html_get_page(config, fetch_target(config, url))
}

} // verus!
