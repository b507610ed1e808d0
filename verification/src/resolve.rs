//! Making an absolute URL out of a link found on a page.
//!
//! Parsing, joining and changing URLs is the work of the `url` crate; what is
//! decided here is the order of the steps and what each result leads to. A URL
//! passes from step to step written out in full, and each step parses it anew.
//!
//! The `url` crate counts the bytes of a URL in 32 bits, and its setters give
//! up the process where a count overflows. So no text is handed to a setter
//! that is longer than `CHANGE_LIMIT` bytes: a change on such a text is left
//! out, as one that the URL refuses.

use crate::text::{blank, is_blank, is_white_space, same_text, starts_with};
use vstd::prelude::*;
use vstd::string::StringSliceAdditionalSpecFns;
use vstd::utf8::encode_utf8;

verus! {

/// Why a link could not be made absolute.
#[derive(Debug, Clone, PartialEq, Eq)]
pub enum UrlError {
    /// The base does not parse as an absolute URL; `reason` is the parser's.
    InvalidBase { base: String, reason: String },
    /// The link parses neither alone nor against the base; `reason` is the
    /// parser's, from the attempt against the base.
    Unresolvable { url: String, reason: String },
    /// The link resolves to `resolved`, and that is no absolute URL written out
    /// in full: it has no scheme or no host, or could not take them from the
    /// base.
    NotAbsolute { url: String, resolved: String },
}

/// `UrlError` as a mathematical value.
pub enum UrlErrorView {
    InvalidBase { base: Seq<char>, reason: Seq<char> },
    Unresolvable { url: Seq<char>, reason: Seq<char> },
    NotAbsolute { url: Seq<char>, resolved: Seq<char> },
}

impl View for UrlError {
    type V = UrlErrorView;

    open spec fn view(&self) -> UrlErrorView {
        match *self {
            UrlError::InvalidBase { base, reason } => UrlErrorView::InvalidBase {
                base: base@,
                reason: reason@,
            },
            UrlError::Unresolvable { url, reason } => UrlErrorView::Unresolvable {
                url: url@,
                reason: reason@,
            },
            UrlError::NotAbsolute { url, resolved } => UrlErrorView::NotAbsolute {
                url: url@,
                resolved: resolved@,
            },
        }
    }
}

impl UrlErrorView {
    /// The sentence that reports this failure.
    pub open spec fn message(self) -> Seq<char> {
        match self {
            UrlErrorView::InvalidBase { base, reason } => "Failed to parse base URL '"@ + base
                + "': "@ + reason,
            UrlErrorView::Unresolvable { url, reason } => "Failed to resolve URL '"@ + url + "': "@
                + reason,
            UrlErrorView::NotAbsolute { url, resolved } => "URL '"@ + url + "' resolves to '"@
                + resolved + "', which is no absolute URL"@,
        }
    }
}

impl UrlError {
    /// The sentence that reports this failure.
    pub fn message(&self) -> (text: String)
        ensures
            text@ == self@.message(),
    {
        match self {
            UrlError::InvalidBase { base, reason } => {
                let mut text = "Failed to parse base URL '".to_string();
                text.append(base.as_str());
                text.append("': ");
                text.append(reason.as_str());
                text
            },
            UrlError::Unresolvable { url, reason } => {
                let mut text = "Failed to resolve URL '".to_string();
                text.append(url.as_str());
                text.append("': ");
                text.append(reason.as_str());
                text
            },
            UrlError::NotAbsolute { url, resolved } => {
                let mut text = "URL '".to_string();
                text.append(url.as_str());
                text.append("' resolves to '");
                text.append(resolved.as_str());
                text.append("', which is no absolute URL");
                text
            },
        }
    }
}

/// What resolution reads of a parsed URL.
#[derive(Debug, Clone, PartialEq, Eq)]
pub struct ParsedUrl {
    /// The URL written out in full.
    pub href: String,
    /// The scheme, without the colon.
    pub scheme: String,
    /// The host as written in `href`, if the URL has one.
    pub host: Option<String>,
    /// The port, unless it is absent or the default of the scheme.
    pub port: Option<u16>,
}

/// `ParsedUrl` as a mathematical value.
pub struct UrlRecord {
    pub href: Seq<char>,
    pub scheme: Seq<char>,
    pub host: Option<Seq<char>>,
    pub port: Option<u16>,
}

/// The mathematical value of a text that may be absent.
pub open spec fn text_view(text: Option<String>) -> Option<Seq<char>> {
    match text {
        Some(t) => Some(t@),
        None => None,
    }
}

impl View for ParsedUrl {
    type V = UrlRecord;

    open spec fn view(&self) -> UrlRecord {
        UrlRecord {
            href: self.href@,
            scheme: self.scheme@,
            host: text_view(self.host),
            port: self.port,
        }
    }
}

/// The mathematical value of what a parse gave.
pub open spec fn parse_view(parsed: Result<ParsedUrl, String>) -> Result<UrlRecord, Seq<char>> {
    match parsed {
        Ok(url) => Ok(url@),
        Err(reason) => Err(reason@),
    }
}

/// The most bytes that a text may have to take part in a change of a URL: a
/// sixteenth of what 32 bits count. A URL and a host of that length, the host
/// grown fourfold by its encoding, still stay within 32 bits together.
pub const CHANGE_LIMIT: usize = 0x0FFF_FFFF;

/// A text is short enough to take part in a change of a URL: written in UTF-8
/// it has at most `CHANGE_LIMIT` bytes.
pub open spec fn fits(text: Seq<char>) -> bool {
    encode_utf8(text).len() <= CHANGE_LIMIT
}

/// What the `url` crate makes of `input` taken as an absolute URL: the URL, or
/// the parser's reason for refusing it.
pub uninterp spec fn url_parse(input: Seq<char>) -> Result<UrlRecord, Seq<char>>;

/// What the `url` crate makes of `reference` taken as a reference against the
/// URL that `base` parses to; the parser's reason where either step fails.
pub uninterp spec fn url_join(base: Seq<char>, reference: Seq<char>) -> Result<
    UrlRecord,
    Seq<char>,
>;

/// The URL that `href` parses to, written out after its scheme was set to
/// `scheme`; `None` where `href` does not parse or the change is refused.
pub uninterp spec fn url_with_scheme(href: Seq<char>, scheme: Seq<char>) -> Option<Seq<char>>;

/// The URL that `href` parses to, written out after its host was set to `host`;
/// `None` where `href` does not parse or the change is refused.
pub uninterp spec fn url_with_host(href: Seq<char>, host: Seq<char>) -> Option<Seq<char>>;

/// The URL that `href` parses to, written out after its port was set to `port`;
/// `None` where `href` does not parse or the change is refused.
pub uninterp spec fn url_with_port(href: Seq<char>, port: u16) -> Option<Seq<char>>;

/// Parses an absolute URL. Trusted: `Url::parse` of the `url` crate, whose
/// result depends on the input alone; what is read of the URL comes from its
/// `as_str`, `scheme`, `host_str` and `port`.
#[verifier::external_body]
fn parse_url(input: &str) -> (parsed: Result<ParsedUrl, String>)
    ensures
        parse_view(parsed) == url_parse(input@),
{
    match url::Url::parse(input) {
        Ok(url) => Ok(
            ParsedUrl {
                href: url.as_str().to_string(),
                scheme: url.scheme().to_string(),
                host: url.host_str().map(|host| host.to_string()),
                port: url.port(),
            },
        ),
        Err(reason) => Err(reason.to_string()),
    }
}

/// Resolves a reference against a base. Trusted: `Url::join` of the `url`
/// crate, on the URL that `Url::parse` makes of `base`; the result depends on
/// the two texts alone.
#[verifier::external_body]
fn join_url(base: &str, reference: &str) -> (joined: Result<ParsedUrl, String>)
    ensures
        parse_view(joined) == url_join(base@, reference@),
{
    match url::Url::parse(base) {
        Ok(base) => match base.join(reference) {
            Ok(url) => Ok(
                ParsedUrl {
                    href: url.as_str().to_string(),
                    scheme: url.scheme().to_string(),
                    host: url.host_str().map(|host| host.to_string()),
                    port: url.port(),
                },
            ),
            Err(reason) => Err(reason.to_string()),
        },
        Err(reason) => Err(reason.to_string()),
    }
}

/// Sets the scheme of a URL. Trusted: `Url::set_scheme` of the `url` crate, on
/// the URL that `Url::parse` makes of `href`. A refused change leaves the URL
/// as it was and is reported as `None`. Both texts must fit: the setter does
/// not return where the new URL is too long for its 32-bit positions.
#[verifier::external_body]
fn with_scheme(href: &str, scheme: &str) -> (changed: Option<String>)
    requires
        fits(href@),
        fits(scheme@),
    ensures
        text_view(changed) == url_with_scheme(href@, scheme@),
{
    match url::Url::parse(href) {
        Ok(mut url) => match url.set_scheme(scheme) {
            Ok(()) => Some(url.to_string()),
            Err(()) => None,
        },
        Err(_) => None,
    }
}

/// Sets the host of a URL. Trusted: `Url::set_host` of the `url` crate, called
/// with a host to set, never to remove one, on the URL that `Url::parse` makes
/// of `href`. A refused change leaves the URL as it was and is reported as
/// `None`. Both texts must fit: the setter does not return where the new URL
/// is too long for its 32-bit positions.
#[verifier::external_body]
fn with_host(href: &str, host: &str) -> (changed: Option<String>)
    requires
        fits(href@),
        fits(host@),
    ensures
        text_view(changed) == url_with_host(href@, host@),
{
    match url::Url::parse(href) {
        Ok(mut url) => match url.set_host(Some(host)) {
            Ok(()) => Some(url.to_string()),
            Err(_) => None,
        },
        Err(_) => None,
    }
}

/// Sets the port of a URL. Trusted: `Url::set_port` of the `url` crate, on the
/// URL that `Url::parse` makes of `href`. A refused change leaves the URL as it
/// was and is reported as `None`. The text must fit: the setter does not
/// return where the new URL is too long for its 32-bit positions.
#[verifier::external_body]
fn with_port(href: &str, port: u16) -> (changed: Option<String>)
    requires
        fits(href@),
    ensures
        text_view(changed) == url_with_port(href@, port),
{
    match url::Url::parse(href) {
        Ok(mut url) => match url.set_port(Some(port)) {
            Ok(()) => Some(url.to_string()),
            Err(()) => None,
        },
        Err(_) => None,
    }
}

impl UrlRecord {
    /// A URL without a scheme, or without a host that is more than the empty
    /// text, has no origin of its own.
    pub open spec fn lacks_origin(self) -> bool {
        self.scheme.len() == 0 || match self.host {
            Some(host) => host.len() == 0,
            None => true,
        }
    }

    /// The URL has the scheme and the host of `base`, and its port if `base`
    /// has one.
    pub open spec fn has_origin_of(self, base: UrlRecord) -> bool {
        &&& self.scheme == base.scheme
        &&& self.host == base.host
        &&& base.port is Some ==> self.port == base.port
    }
}

impl ParsedUrl {
    /// Tells whether the URL has no scheme, or no host but perhaps an empty one.
    pub fn lacks_origin(&self) -> (lacking: bool)
        ensures
            lacking == self@.lacks_origin(),
    {
        self.scheme.as_str().is_empty() || match &self.host {
            Some(host) => host.as_str().is_empty(),
            None => true,
        }
    }

    /// Tells whether the URL has the scheme and the host of `base`, and its
    /// port if `base` has one.
    pub fn has_origin_of(&self, base: &ParsedUrl) -> (same: bool)
        ensures
            same == self@.has_origin_of(base@),
    {
        let same_host = match &self.host {
            Some(host) => match &base.host {
                Some(other) => same_text(host.as_str(), other.as_str()),
                None => false,
            },
            None => base.host.is_none(),
        };
        let same_port = match base.port {
            Some(port) => match self.port {
                Some(own) => own == port,
                None => false,
            },
            None => true,
        };
        same_text(self.scheme.as_str(), base.scheme.as_str()) && same_host && same_port
    }
}

/// `changed` if a change was made, else `current`.
pub open spec fn or_unchanged(changed: Option<Seq<char>>, current: Seq<char>) -> Seq<char> {
    match changed {
        Some(text) => text,
        None => current,
    }
}

/// The base and the link as parsed, given what the three parses gave: the
/// base must parse; the link is what it parses to alone or, failing that, what
/// it resolves to against the base.
pub open spec fn picked(
    base_text: Seq<char>,
    candidate: Seq<char>,
    base: Result<UrlRecord, Seq<char>>,
    alone: Result<UrlRecord, Seq<char>>,
    against_base: Result<UrlRecord, Seq<char>>,
) -> Result<(UrlRecord, UrlRecord), UrlErrorView> {
    match base {
        Err(reason) => Err(UrlErrorView::InvalidBase { base: base_text, reason }),
        Ok(parsed_base) => match alone {
            Ok(target) => Ok((parsed_base, target)),
            Err(_) => match against_base {
                Ok(target) => Ok((parsed_base, target)),
                Err(reason) => Err(UrlErrorView::Unresolvable { url: candidate, reason }),
            },
        },
    }
}

/// `href` after its scheme was set to `scheme`, if the two texts fit and the
/// URL admits the change; `href` as it is, if not.
pub open spec fn schemed(href: Seq<char>, scheme: Seq<char>) -> Seq<char> {
    if fits(href) && fits(scheme) {
        or_unchanged(url_with_scheme(href, scheme), href)
    } else {
        href
    }
}

/// `href` after its host was set to `host`, if the two texts fit and the URL
/// admits the change; `href` as it is, if not.
pub open spec fn hosted(href: Seq<char>, host: Seq<char>) -> Seq<char> {
    if fits(href) && fits(host) {
        or_unchanged(url_with_host(href, host), href)
    } else {
        href
    }
}

/// `href` after its port was set to `port`, if the text fits and the URL admits
/// the change; `href` as it is, if not.
pub open spec fn ported(href: Seq<char>, port: u16) -> Seq<char> {
    if fits(href) {
        or_unchanged(url_with_port(href, port), href)
    } else {
        href
    }
}

/// `target` written out, after it took from `base` what it lacks: where it has
/// no origin of its own, the scheme, then the host if `base` has one, then the
/// port if `base` has one. A change is left out where the URL does not admit
/// it, and where a text is too long to take part in it.
pub open spec fn with_origin_of(target: UrlRecord, base: UrlRecord) -> Seq<char> {
    if target.lacks_origin() {
        let after_scheme = schemed(target.href, base.scheme);
        let after_host = match base.host {
            Some(host) => hosted(after_scheme, host),
            None => after_scheme,
        };
        match base.port {
            Some(port) => ported(after_host, port),
            None => after_host,
        }
    } else {
        target.href
    }
}

/// Whether `text` is an absolute URL written out in full, and the answer to
/// the link: it is not blank, `read` (what it parses to) is a URL with an
/// origin that is written out as `text` itself, and where the link had no
/// origin of its own (`lacked`) the origin is that of `base`.
pub open spec fn is_settled(
    text: Seq<char>,
    read: Result<UrlRecord, Seq<char>>,
    lacked: bool,
    base: UrlRecord,
) -> bool {
    &&& !is_blank(text)
    &&& read matches Ok(url) && url.href == text && !url.lacks_origin() && (lacked
        ==> url.has_origin_of(base))
}

/// What the resolution of `candidate` ends with, once `text` has come of it.
pub open spec fn settled(
    candidate: Seq<char>,
    text: Seq<char>,
    read: Result<UrlRecord, Seq<char>>,
    lacked: bool,
    base: UrlRecord,
) -> Result<Seq<char>, UrlErrorView> {
    if is_settled(text, read, lacked, base) {
        Ok(text)
    } else {
        Err(UrlErrorView::NotAbsolute { url: candidate, resolved: text })
    }
}

/// The absolute URL that `candidate`, found on the page at `base`, stands for.
pub open spec fn absolute_url(base: Seq<char>, candidate: Seq<char>) -> Result<
    Seq<char>,
    UrlErrorView,
> {
    if is_blank(candidate) {
        Ok(Seq::empty())
    } else if "http"@.is_prefix_of(candidate) {
        Ok(candidate)
    } else {
        match picked(
            base,
            candidate,
            url_parse(base),
            url_parse(candidate),
            url_join(base, candidate),
        ) {
            Err(error) => Err(error),
            Ok((parsed_base, target)) => {
                let text = with_origin_of(target, parsed_base);
                settled(candidate, text, url_parse(text), target.lacks_origin(), parsed_base)
            },
        }
    }
}

/// A blank link stands for no link, whatever the base: it resolves to the
/// empty string, and the base is not even looked at.
pub proof fn law_blank_link_resolves_to_nothing(base: Seq<char>, candidate: Seq<char>)
    requires
        is_blank(candidate),
    ensures
        absolute_url(base, candidate) == Ok::<Seq<char>, UrlErrorView>(Seq::empty()),
{
}

/// A link that begins with `http` resolves to itself, whatever the base.
pub proof fn law_http_link_resolves_to_itself(base: Seq<char>, candidate: Seq<char>)
    requires
        "http"@.is_prefix_of(candidate),
    ensures
        absolute_url(base, candidate) == Ok::<Seq<char>, UrlErrorView>(candidate),
{
    reveal_strlit("http");
    let prefix = "http"@;
    assert(prefix[0] == 'h');
    assert(candidate.subrange(0, prefix.len() as int)[0] == candidate[0]);
    assert(!is_white_space(candidate[0]));
}

/// Any other link resolves to an absolute URL or to a failure: what comes out
/// as `Ok` parses as a URL with a scheme and a host, neither of them empty, and
/// is that URL written out in full.
pub proof fn law_resolved_link_is_absolute(base: Seq<char>, candidate: Seq<char>)
    requires
        !is_blank(candidate),
        !"http"@.is_prefix_of(candidate),
        absolute_url(base, candidate) is Ok,
    ensures
        url_parse(absolute_url(base, candidate)->Ok_0) matches Ok(url) && url.href
            == absolute_url(base, candidate)->Ok_0 && url.scheme.len() > 0 && (url.host matches Some(
            host,
        ) && host.len() > 0),
{
}

/// A link that has no origin of its own comes out with that of the base: its
/// scheme, its host, and its port if it has one.
pub proof fn law_link_without_origin_takes_the_bases(base: Seq<char>, candidate: Seq<char>)
    requires
        !is_blank(candidate),
        !"http"@.is_prefix_of(candidate),
        absolute_url(base, candidate) is Ok,
        picked(base, candidate, url_parse(base), url_parse(candidate), url_join(base, candidate))
            matches Ok(pair) && pair.1.lacks_origin(),
    ensures
        url_parse(absolute_url(base, candidate)->Ok_0) matches Ok(url) && url_parse(base) matches Ok(
            parsed_base,
        ) && url.has_origin_of(parsed_base),
{
}

/// Resolving what a resolution gave, against the same base, gives it back.
pub proof fn law_resolution_is_idempotent(base: Seq<char>, candidate: Seq<char>)
    requires
        absolute_url(base, candidate) is Ok,
    ensures
        absolute_url(base, absolute_url(base, candidate)->Ok_0) == absolute_url(base, candidate),
{
    let out = absolute_url(base, candidate)->Ok_0;
    if is_blank(candidate) {
    } else if "http"@.is_prefix_of(candidate) {
    } else if "http"@.is_prefix_of(out) {
    } else {
        let parsed_base = url_parse(base)->Ok_0;
        let read = url_parse(out)->Ok_0;
        assert(picked(base, out, url_parse(base), url_parse(out), url_join(base, out)) == Ok::<
            (UrlRecord, UrlRecord),
            UrlErrorView,
        >((parsed_base, read)));
        assert(with_origin_of(read, parsed_base) == out);
    }
}

/// The mathematical value of what a resolution gave.
pub open spec fn resolution_view(result: Result<String, UrlError>) -> Result<
    Seq<char>,
    UrlErrorView,
> {
    match result {
        Ok(url) => Ok(url@),
        Err(error) => Err(error@),
    }
}

/// Picks the base and the link as parsed out of what the three parses gave:
/// `base` of the base, `alone` of the link by itself, `against_base` of the link
/// as a reference against the base. A refused base is `InvalidBase`; the link
/// parsed alone wins over the link resolved; a link refused both ways is
/// `Unresolvable`, with the reason of the second refusal.
pub fn pick_target(
    base_url: &str,
    url: &str,
    base: Result<ParsedUrl, String>,
    alone: Result<ParsedUrl, String>,
    against_base: Result<ParsedUrl, String>,
) -> (result: Result<(ParsedUrl, ParsedUrl), UrlError>)
    ensures
        match result {
            Ok(pair) => picked(
                base_url@,
                url@,
                parse_view(base),
                parse_view(alone),
                parse_view(against_base),
            ) == Ok::<(UrlRecord, UrlRecord), UrlErrorView>((pair.0@, pair.1@)),
            Err(error) => picked(
                base_url@,
                url@,
                parse_view(base),
                parse_view(alone),
                parse_view(against_base),
            ) == Err::<(UrlRecord, UrlRecord), UrlErrorView>(error@),
        },
{
    let parsed_base = match base {
        Ok(parsed_base) => parsed_base,
        Err(reason) => {
            return Err(UrlError::InvalidBase { base: base_url.to_string(), reason });
        },
    };
    match alone {
        Ok(target) => Ok((parsed_base, target)),
        Err(_) => match against_base {
            Ok(target) => Ok((parsed_base, target)),
            Err(reason) => Err(UrlError::Unresolvable { url: url.to_string(), reason }),
        },
    }
}

/// Tells whether a text is short enough to take part in a change of a URL.
pub fn text_fits(text: &str) -> (short: bool)
    ensures
        short == fits(text@),
{
    text.as_bytes().len() <= CHANGE_LIMIT
}

/// Sets the scheme of the URL written out as `href`, if the two texts fit and
/// the URL admits the change; hands `href` back as it is, if not.
pub fn set_scheme(href: String, scheme: &str) -> (out: String)
    ensures
        out@ == schemed(href@, scheme@),
{
    if text_fits(href.as_str()) && text_fits(scheme) {
        match with_scheme(href.as_str(), scheme) {
            Some(changed) => changed,
            None => href,
        }
    } else {
        href
    }
}

/// Sets the host of the URL written out as `href`, if the two texts fit and
/// the URL admits the change; hands `href` back as it is, if not.
pub fn set_host(href: String, host: &str) -> (out: String)
    ensures
        out@ == hosted(href@, host@),
{
    if text_fits(href.as_str()) && text_fits(host) {
        match with_host(href.as_str(), host) {
            Some(changed) => changed,
            None => href,
        }
    } else {
        href
    }
}

/// Sets the port of the URL written out as `href`, if the text fits and the
/// URL admits the change; hands `href` back as it is, if not.
pub fn set_port(href: String, port: u16) -> (out: String)
    ensures
        out@ == ported(href@, port),
{
    if text_fits(href.as_str()) {
        match with_port(href.as_str(), port) {
            Some(changed) => changed,
            None => href,
        }
    } else {
        href
    }
}

/// Writes `target` out, after it took from `base` what it lacks.
pub fn take_origin(target: ParsedUrl, base: &ParsedUrl) -> (href: String)
    ensures
        href@ == with_origin_of(target@, base@),
{
    if target.lacks_origin() {
        let after_scheme = set_scheme(target.href, base.scheme.as_str());
        let after_host = match &base.host {
            Some(host) => set_host(after_scheme, host.as_str()),
            None => after_scheme,
        };
        match base.port {
            Some(port) => set_port(after_host, port),
            None => after_host,
        }
    } else {
        target.href
    }
}

/// Ends the resolution of `url`, given the text that came of it and what that
/// text parses to (`read`): the text, if it is an absolute URL written out in
/// full and, where the link had no origin of its own (`lacked`), has that of
/// `base`; `NotAbsolute` if not.
pub fn settle(
    url: &str,
    text: String,
    read: Result<ParsedUrl, String>,
    lacked: bool,
    base: &ParsedUrl,
) -> (result: Result<String, UrlError>)
    ensures
        resolution_view(result) == settled(url@, text@, parse_view(read), lacked, base@),
{
    let sound = !blank(text.as_str()) && match &read {
        Ok(parsed) => same_text(parsed.href.as_str(), text.as_str()) && !parsed.lacks_origin() && (
        !lacked || parsed.has_origin_of(base)),
        Err(_) => false,
    };
    if sound {
        Ok(text)
    } else {
        Err(UrlError::NotAbsolute { url: url.to_string(), resolved: text })
    }
}

/// Makes `url`, a link found on the page at `base_url`, absolute.
///
/// A blank link gives the empty string. A link that begins with `http` comes
/// back as it is, unexamined. Any other link needs the base to parse
/// (`InvalidBase` if it does not); it is parsed alone or, failing that,
/// resolved against the base (`Unresolvable` if that fails too); what it then
/// lacks of scheme and host it takes from the base, with the port; and it
/// comes back only as an absolute URL written out in full, with a scheme and a
/// host (`NotAbsolute` if it is none).
pub fn get_absolute_url(base_url: &str, url: &str) -> (result: Result<String, UrlError>)
    ensures
        resolution_view(result) == absolute_url(base_url@, url@),
        is_blank(url@) ==> result is Ok && result->Ok_0@.len() == 0,
        !is_blank(url@) && !"http"@.is_prefix_of(url@) && result is Ok ==> (url_parse(
            result->Ok_0@,
        ) matches Ok(parsed) && parsed.href == result->Ok_0@ && !parsed.lacks_origin()),
{
    if blank(url) {
        return Ok(String::new());
    }
    if starts_with(url, "http") {
        return Ok(url.to_string());
    }
    let base = parse_url(base_url);
    let alone = parse_url(url);
    let against_base = join_url(base_url, url);
    let (base, target) = match pick_target(base_url, url, base, alone, against_base) {
        Ok(pair) => pair,
        Err(error) => {
            return Err(error);
        },
    };
    let lacked = target.lacks_origin();
    let text = take_origin(target, &base);
    let read = parse_url(text.as_str());
    settle(url, text, read, lacked, &base)
}

} // verus!
