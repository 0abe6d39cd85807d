//! The normal forms in which the method and the URI of a request are compared.

use vstd::prelude::*;
use vstd::utf8::encode_utf8;

use crate::error::{text_outcome, DpopError, DpopErrorView};
use crate::text::{
    characters, holds, is_white, join, joined, lemma_joined_characters, lemma_joined_split,
    lemma_lower_twice, lemma_split_joined, lemma_split_nonempty, lemma_split_pieces,
    lemma_trimmed_around, lemma_trimmed_upper, lower_text, pieces, same_text, split, text_between,
    texts, to_lower, to_upper, trim, trimmed, upper_text,
};

verus! {

// ---------------------------------------------------------------------------
// The method
// ---------------------------------------------------------------------------

/// The methods that a proof may be bound to.
pub open spec fn is_standard_method(method: Seq<char>) -> bool {
    ||| method == "GET"@
    ||| method == "POST"@
    ||| method == "PUT"@
    ||| method == "PATCH"@
    ||| method == "DELETE"@
    ||| method == "HEAD"@
    ||| method == "OPTIONS"@
    ||| method == "TRACE"@
}

/// The form in which two methods are compared: without white space around it, in capitals.
pub open spec fn method_normal_form(method: Seq<char>) -> Result<Seq<char>, DpopErrorView> {
    let capitals = upper_text(trimmed(method));
    if is_standard_method(capitals) {
        Ok(capitals)
    } else {
        Err(DpopErrorView::InvalidMethod)
    }
}

/// Normalize HTTP method for DPoP htm compare.
pub fn normalize_method(method: &str) -> (normal: Result<String, DpopError>)
    ensures
        text_outcome(normal) == method_normal_form(method@),
{
    let inner = trim(method);
    let capitals = to_upper(inner.as_str());
    let name: &str = capitals.as_str();
    if same_text(name, "GET") || same_text(name, "POST") || same_text(name, "PUT") || same_text(
        name,
        "PATCH",
    ) || same_text(name, "DELETE") || same_text(name, "HEAD") || same_text(name, "OPTIONS")
        || same_text(name, "TRACE") {
        Ok(capitals)
    } else {
        Err(DpopError::InvalidMethod)
    }
}

/// The normal form of a method is its own normal form.
pub proof fn lemma_normal_method_twice(method: Seq<char>)
    requires
        method_normal_form(method) is Ok,
    ensures
        method_normal_form(method_normal_form(method)->Ok_0) == method_normal_form(method),
{
    let normal = method_normal_form(method)->Ok_0;
    lemma_standard_method(normal);
    assert(trimmed(normal) == normal);
    assert(upper_text(normal) =~= normal);
}

/// A standard method is a word in capitals.
proof fn lemma_standard_method(method: Seq<char>)
    requires
        is_standard_method(method),
    ensures
        method.len() > 0,
        forall|i: int| 0 <= i < method.len() ==> 'A' <= #[trigger] method[i] <= 'Z',
{
    reveal_strlit("GET");
    reveal_strlit("POST");
    reveal_strlit("PUT");
    reveal_strlit("PATCH");
    reveal_strlit("DELETE");
    reveal_strlit("HEAD");
    reveal_strlit("OPTIONS");
    reveal_strlit("TRACE");
}

/// Two methods that differ in the case of their ASCII letters only have the same normal form.
pub proof fn lemma_method_case(left: Seq<char>, right: Seq<char>)
    requires
        upper_text(left) == upper_text(right),
    ensures
        method_normal_form(left) == method_normal_form(right),
{
    lemma_trimmed_upper(left);
    lemma_trimmed_upper(right);
}

/// White space around a method does not count.
pub proof fn lemma_method_white(method: Seq<char>, before: Seq<char>, after: Seq<char>)
    requires
        forall|i: int| 0 <= i < before.len() ==> is_white(#[trigger] before[i]),
        forall|i: int| 0 <= i < after.len() ==> is_white(#[trigger] after[i]),
    ensures
        method_normal_form(before + method + after) == method_normal_form(method),
{
    lemma_trimmed_around(before, method, after);
}

// ---------------------------------------------------------------------------
// The parts of a URL
// ---------------------------------------------------------------------------

/// The parts of an absolute URL, without its query and its fragment.
#[derive(Clone, Debug)]
pub struct UrlParts {
    /// The scheme, without the colon.
    pub scheme: String,
    /// The user name and password with the `@` behind them, or nothing.
    pub user_info: String,
    /// The host, where the URL has one.
    pub host: Option<String>,
    /// The port, where the URL names one.
    pub port: Option<u16>,
    /// The path.
    pub path: String,
}

/// [`UrlParts`], with each text as a sequence of characters.
pub struct UrlPartsView {
    pub scheme: Seq<char>,
    pub user_info: Seq<char>,
    pub host: Option<Seq<char>>,
    pub port: Option<u16>,
    pub path: Seq<char>,
}

impl View for UrlParts {
    type V = UrlPartsView;

    open spec fn view(&self) -> UrlPartsView {
        UrlPartsView {
            scheme: self.scheme@,
            user_info: self.user_info@,
            host: match self.host {
                Some(host) => Some(host@),
                None => None,
            },
            port: self.port,
            path: self.path@,
        }
    }
}

/// Whether a scheme is one of the two of the web.
pub open spec fn is_web(scheme: Seq<char>) -> bool {
    scheme == "http"@ || scheme == "https"@
}

/// Whether a port is the one that a scheme implies.
pub open spec fn is_default_port(scheme: Seq<char>, port: Option<u16>) -> bool {
    ||| scheme == "http"@ && port == Some(80u16)
    ||| scheme == "https"@ && port == Some(443u16)
}

/// Whether a character stands in a URL path as it is: printable ASCII other than the characters
/// that are percent-encoded there and the backslash, which is taken for a slash.
pub open spec fn is_path_char(c: char) -> bool {
    &&& '!' <= c <= '~'
    &&& c != '"' && c != '#' && c != '<' && c != '>' && c != '?' && c != '`' && c != '{' && c != '}'
    &&& c != '\\'
}

/// Whether a path segment stands for the current or the parent directory. A dot in it may be
/// written percent-encoded.
pub open spec fn is_dot_segment(segment: Seq<char>) -> bool {
    ||| is_dot(segment)
    ||| exists|i: int|
        0 <= i <= segment.len() && is_dot(#[trigger] segment.take(i)) && is_dot(segment.skip(i))
}

/// Whether a text is a dot, plain or percent-encoded.
pub open spec fn is_dot(text: Seq<char>) -> bool {
    text == "."@ || text == "%2e"@ || text == "%2E"@
}

/// Whether the URL parser leaves a path of an http or https URL as it is.
pub open spec fn is_settled_path(path: Seq<char>) -> bool {
    &&& path.len() > 0 && path[0] == '/'
    &&& forall|i: int| 0 <= i < path.len() ==> is_path_char(#[trigger] path[i])
    &&& forall|i: int|
        0 <= i < split(path.skip(1), '/').len() ==> !is_dot_segment(
            #[trigger] split(path.skip(1), '/')[i],
        )
}

/// Whether a text holds neither of the characters that a query and a fragment begin with.
pub open spec fn is_bare(text: Seq<char>) -> bool {
    !holds(text, '?') && !holds(text, '#')
}

/// What the URL parser guarantees of an http or https URL: a host, in small letters; no port
/// where it is the default one; a path that is settled; and before the path nothing that a query
/// or a fragment could begin with.
pub open spec fn is_web_url(parts: UrlPartsView) -> bool {
    &&& is_web(parts.scheme)
    &&& is_bare(parts.user_info)
    &&& parts.host matches Some(host) && host.len() > 0 && lower_text(host) == host && is_bare(host)
    &&& !is_default_port(parts.scheme, parts.port)
    &&& is_settled_path(parts.path)
}

/// The decimal digit of a number below ten.
pub open spec fn digit(n: nat) -> char {
    (48 + n) as char
}

/// A number in decimal notation.
pub open spec fn decimal(n: nat) -> Seq<char>
    decreases n,
{
    if n < 10 {
        seq![digit(n)]
    } else {
        decimal(n / 10).push(digit(n % 10))
    }
}

/// The port as it stands in a URL: a colon and the number, or nothing.
pub open spec fn port_text(port: Option<u16>) -> Seq<char> {
    match port {
        Some(port) => seq![':'] + decimal(port as nat),
        None => Seq::empty(),
    }
}

/// The text of a URL that has these parts, without a query and a fragment.
pub open spec fn url_text(parts: UrlPartsView) -> Seq<char> {
    let host = match parts.host {
        Some(host) => host,
        None => Seq::empty(),
    };
    parts.scheme + "://"@ + parts.user_info + host + port_text(parts.port) + parts.path
}

/// The parts with another path.
pub open spec fn with_path(parts: UrlPartsView, path: Seq<char>) -> UrlPartsView {
    UrlPartsView {
        scheme: parts.scheme,
        user_info: parts.user_info,
        host: parts.host,
        port: parts.port,
        path,
    }
}

/// What `url::Url::parse` makes of a text: the parts of the URL, or the text of the error.
pub uninterp spec fn url_parse(text: Seq<char>) -> Result<UrlPartsView, Seq<char>>;

/// The outcome of reading a URL.
pub open spec fn parts_outcome(outcome: Result<UrlParts, String>) -> Result<
    UrlPartsView,
    Seq<char>,
> {
    match outcome {
        Ok(parts) => Ok(parts@),
        Err(error) => Err(error@),
    }
}

/// Whether a text begins a query or a fragment.
pub open spec fn is_tail(text: Seq<char>) -> bool {
    text.len() > 0 && (text[0] == '?' || text[0] == '#')
}

/// The number of bytes that the URL parser writes for a text before a fragment: none for a tab or
/// a line break, one for a character that stands in a query as it is, and else three for each byte
/// of it.
pub open spec fn written_length(text: Seq<char>) -> nat
    decreases text.len(),
{
    if text.len() == 0 {
        0
    } else {
        let c = text.last();
        let length = if c == '\t' || c == '\n' || c == '\r' {
            0
        } else if '!' <= c <= '~' && c != '"' && c != '#' && c != '<' && c != '>' && c != '\'' {
            1
        } else {
            3 * encode_utf8(seq![c]).len()
        };
        written_length(text.drop_last()) + length
    }
}

/// Whether a URL with these parts has room for a query or a fragment: neither begins behind the
/// first 4 GB.
pub open spec fn tail_fits(parts: UrlPartsView, tail: Seq<char>) -> bool {
    &&& url_text(parts).len() <= u32::MAX
    &&& holds(tail, '#') ==> url_text(parts).len() + written_length(split(tail, '#')[0])
        <= u32::MAX
}

/// Whether a query or a fragment can be put behind a text as it stands: it holds none yet, and
/// ends in nothing that the URL parser drops at an end.
pub open spec fn takes_tail(text: Seq<char>) -> bool {
    is_bare(text) && text.len() > 0 && text.last() > ' '
}

/// Whether the URL that a text denotes keeps its parts when a query or a fragment is put behind
/// the text.
pub open spec fn keeps_parts_with_tail(text: Seq<char>, parts: UrlPartsView) -> bool {
    is_web(parts.scheme) && takes_tail(text) ==> forall|tail: Seq<char>|
        is_tail(tail) && tail_fits(parts, tail) ==> #[trigger] url_parse(text + tail) == Ok::<
            UrlPartsView,
            Seq<char>,
        >(parts)
}

/// Calls `url::Url::parse` and reads the parts off the URL. What is read, and the text of the
/// error, depend on the text alone. The scheme comes in small letters. Of an http or https URL the
/// parser guarantees what [`is_web_url`] says: it refuses an empty host, maps the host to ASCII in
/// small letters, drops the default port, encodes the path and resolves its dot segments, and
/// leaves no question mark and no number sign in what stands before the path. The parts do not
/// depend on a query or a fragment behind the text.
#[verifier::external_body]
pub(crate) fn parse_url(text: &str) -> (parts: Result<UrlParts, String>)
    ensures
        parts_outcome(parts) == url_parse(text@),
        parts matches Ok(parts) ==> lower_text(parts@.scheme) == parts@.scheme,
        parts matches Ok(parts) ==> is_web(parts@.scheme) ==> is_web_url(parts@),
        parts matches Ok(parts) ==> keeps_parts_with_tail(text@, parts@),
{
    let url = url::Url::parse(text).map_err(|e| e.to_string())?;
    Ok(
        UrlParts {
            scheme: url.scheme().to_string(),
            user_info: url[url::Position::BeforeUsername..url::Position::BeforeHost].to_string(),
            host: url.host_str().map(|host| host.to_string()),
            port: url.port(),
            path: url.path().to_string(),
        },
    )
}

/// What `url::Host::parse` says of a text: that it is a host, or the text of the error. A host that
/// a URL has need not be one again: a label of a thousand characters can be encoded in more than
/// are decoded.
pub uninterp spec fn host_parse(host: Seq<char>) -> Result<(), Seq<char>>;

/// The outcome of reading a host.
pub open spec fn host_outcome(outcome: Result<(), String>) -> Result<(), Seq<char>> {
    match outcome {
        Ok(_) => Ok(()),
        Err(error) => Err(error@),
    }
}

/// Calls `url::Host::parse`. Whether a text is a host, and the text of the error, depend on the
/// text alone.
#[verifier::external_body]
pub(crate) fn parse_host(host: &str) -> (outcome: Result<(), String>)
    ensures
        host_outcome(outcome) == host_parse(host@),
{
    url::Host::parse(host).map(|_| ()).map_err(|e| e.to_string())
}

/// Whether a host and a port are those of the http or https URL that a text denotes, the host can
/// be read again, and a path is one that the URL can be given as it stands, within the 4 GB that a
/// URL may take.
pub open spec fn keeps_the_rest(
    text: Seq<char>,
    host: Seq<char>,
    port: Option<u16>,
    path: Seq<char>,
) -> bool {
    match url_parse(text) {
        Ok(parts) => {
            &&& is_web_url(parts)
            &&& parts.host == Some(host)
            &&& host_parse(host) is Ok
            &&& parts.port == port
            &&& is_settled_path(path)
            &&& path.len() <= parts.path.len()
            &&& url_text(parts).len() <= u32::MAX
        },
        Err(_) => false,
    }
}

/// Calls the setters of `url::Url` on the URL that a text denotes, `set_host`, `set_fragment`,
/// `set_query`, `set_port` and `set_path`, and gives the URL up to the end of its path.
///
/// For an http or https URL that is given the host that it has, the port that it has, and a path
/// that is settled, the setters take these as they are, so that the result is the URL with that
/// path. The URL parser reads it back as the same parts. Both read the host with
/// `url::Host::parse`: a host that this refuses, and a URL of 4 GB or more, on which `set_path`
/// stops the program, are left out.
#[verifier::external_body]
pub(crate) fn write_url(text: &str, host: &str, port: Option<u16>, path: &str) -> (written: String)
    requires
        keeps_the_rest(text@, host@, port, path@),
    ensures
        written@ == url_text(with_path(url_parse(text@)->Ok_0, path@)),
        url_parse(written@) is Ok,
        url_parse(written@)->Ok_0 == with_path(url_parse(text@)->Ok_0, path@),
{
    let mut url = url::Url::parse(text).unwrap();
    url.set_host(Some(host)).unwrap();
    url.set_fragment(None);
    url.set_query(None);
    let _ = url.set_port(port);
    url.set_path(path);
    url[..url::Position::AfterPath].to_string()
}

// ---------------------------------------------------------------------------
// The URI
// ---------------------------------------------------------------------------

/// The segments of a path once the empty ones and those that stand for the current directory are
/// left out and each that stands for the parent directory has removed the one before it.
pub open spec fn resolved(segments: Seq<Seq<char>>) -> Seq<Seq<char>>
    decreases segments.len(),
{
    if segments.len() == 0 {
        segments
    } else {
        let before = resolved(segments.drop_last());
        let last = segments.last();
        if last == ""@ || last == "."@ {
            before
        } else if last == ".."@ {
            if before.len() > 0 {
                before.drop_last()
            } else {
                before
            }
        } else {
            before.push(last)
        }
    }
}

/// A path that begins with a slash, resolved.
pub open spec fn resolved_path(path: Seq<char>) -> Seq<char> {
    seq!['/'] + joined(resolved(split(path.skip(1), '/')), '/')
}

/// The parts of a URL in the form in which two are compared: the scheme and the host in small
/// letters, no default port, and a path that is resolved and not empty.
pub open spec fn normal_parts(parts: UrlPartsView) -> Result<UrlPartsView, DpopErrorView> {
    let scheme = lower_text(parts.scheme);
    let path = if parts.path.len() == 0 {
        seq!['/']
    } else {
        parts.path
    };
    if !is_web(scheme) {
        Err(DpopErrorView::MalformedHtu("scheme"@))
    } else if parts.host is None || parts.host->0.len() == 0 {
        Err(DpopErrorView::MalformedHtu("Missing host"@))
    } else if path[0] != '/' {
        Err(DpopErrorView::MalformedHtu("Missing path segment"@))
    } else {
        Ok(
            UrlPartsView {
                scheme,
                user_info: parts.user_info,
                host: Some(lower_text(parts.host->0)),
                port: if is_default_port(scheme, parts.port) {
                    None
                } else {
                    parts.port
                },
                path: resolved_path(path),
            },
        )
    }
}

/// The form in which two request URIs are compared.
///
/// A URL whose text takes 4 GB or more is refused, as the URL parser refuses it.
pub open spec fn htu_normal_form(uri: Seq<char>) -> Result<Seq<char>, DpopErrorView> {
    match url_parse(uri) {
        Err(reason) => Err(DpopErrorView::MalformedHtu(reason)),
        Ok(parts) => match normal_parts(parts) {
            Err(error) => Err(error),
            Ok(normal) => match host_parse(normal.host->0) {
                Err(reason) => Err(
                    DpopErrorView::MalformedHtu("Failed setting host: "@ + reason),
                ),
                Ok(_) => if url_text(parts).len() > u32::MAX {
                    Err(DpopErrorView::MalformedHtu("URLs more than 4 GB are not supported"@))
                } else {
                    Ok(url_text(normal))
                },
            },
        },
    }
}

/// Whether a URI keeps its normal form when a query or a fragment is put behind it.
pub open spec fn keeps_form_with_tail(uri: Seq<char>, normal: Seq<char>) -> bool {
    takes_tail(uri) ==> forall|tail: Seq<char>|
        is_tail(tail) && tail_fits(url_parse(uri)->Ok_0, tail) ==> #[trigger] htu_normal_form(
            uri + tail,
        ) == Ok::<Seq<char>, DpopErrorView>(normal)
}

/// Normalizes the parts of a URL.
pub fn normalize_parts(parts: &UrlParts) -> (normal: Result<UrlParts, DpopError>)
    ensures
        normal matches Ok(normal) ==> normal_parts(parts@) == Ok::<UrlPartsView, DpopErrorView>(
            normal@,
        ),
        normal matches Err(error) ==> normal_parts(parts@) == Err::<UrlPartsView, DpopErrorView>(
            error@,
        ),
{
    let scheme = to_lower(parts.scheme.as_str());
    let is_http = same_text(scheme.as_str(), "http");
    let is_https = same_text(scheme.as_str(), "https");
    if !is_http && !is_https {
        return Err(DpopError::MalformedHtu("scheme".to_owned()));
    }
    let host: String = match &parts.host {
        Some(host) if !host.as_str().is_empty() => to_lower(host.as_str()),
        _ => {
            return Err(DpopError::MalformedHtu("Missing host".to_owned()));
        },
    };
    let is_default = (is_http && parts.port == Some(80u16)) || (is_https && parts.port == Some(
        443u16,
    ));
    let port: Option<u16> = if is_default {
        None
    } else {
        parts.port
    };
    match normalize_path(parts.path.as_str()) {
        Some(path) => {
            let user_info = parts.user_info.clone();
            Ok(UrlParts { scheme, user_info, host: Some(host), port, path })
        },
        None => Err(DpopError::MalformedHtu("Missing path segment".to_owned())),
    }
}

/// Resolves a path. The empty path stands for the root; one that begins with another character
/// than a slash has no segments.
fn normalize_path(path: &str) -> (normal: Option<String>)
    ensures
        path@.len() == 0 ==> normal is Some && normal->0@ == resolved_path(seq!['/']),
        path@.len() > 0 ==> (normal is Some <==> path@[0] == '/'),
        path@.len() > 0 && path@[0] == '/' ==> normal->0@ == resolved_path(path@),
{
    let all = characters(path);
    if all.len() > 0 && all[0] != '/' {
        return None;
    }
    let from: usize = if all.len() > 0 {
        1
    } else {
        0
    };
    let inner = text_between(&all, from, all.len());
    proof {
        if all.len() > 0 {
            assert(inner@ =~= path@.skip(1));
        } else {
            assert(inner@ =~= seq!['/'].skip(1));
        }
    }
    let segments = pieces(inner.as_str(), '/');
    let kept = resolve(&segments);
    let mut out = String::new();
    out.push('/');
    out.append(join(&kept, '/').as_str());
    assert(out@ =~= seq!['/'] + joined(resolved(split(inner@, '/')), '/'));
    Some(out)
}

/// Resolves the segments of a path.
fn resolve(segments: &Vec<String>) -> (kept: Vec<String>)
    ensures
        texts(kept@) == resolved(texts(segments@)),
{
    let mut kept: Vec<String> = Vec::new();
    let mut i: usize = 0;
    assert(texts(segments@).take(0) =~= Seq::<Seq<char>>::empty());
    assert(texts(kept@) =~= Seq::<Seq<char>>::empty());
    while i < segments.len()
        invariant
            i <= segments@.len(),
            texts(kept@) == resolved(texts(segments@).take(i as int)),
        decreases segments@.len() - i,
    {
        let segment: &str = segments[i].as_str();
        let ghost next = texts(segments@).take(i + 1);
        let ghost before = texts(kept@);
        assert(next.drop_last() =~= texts(segments@).take(i as int));
        assert(next.last() == segment@);
        if same_text(segment, "") || same_text(segment, ".") {
        } else if same_text(segment, "..") {
            let _ = kept.pop();
            assert(texts(kept@) =~= if before.len() > 0 {
                before.drop_last()
            } else {
                before
            });
        } else {
            kept.push(segment.to_owned());
            assert(texts(kept@) =~= before.push(segment@));
        }
        i = i + 1;
    }
    assert(texts(segments@).take(segments@.len() as int) =~= texts(segments@));
    kept
}

/// Whether the text of a URL with these parts takes 4 GB or more.
fn is_oversized(parts: &UrlParts) -> (oversized: bool)
    ensures
        oversized == (url_text(parts@).len() > u32::MAX),
{
    let host: usize = match &parts.host {
        Some(host) => host.as_str().unicode_len(),
        None => 0,
    };
    let port: usize = match parts.port {
        Some(port) => decimal_length(port) + 1,
        None => 0,
    };
    let total: u128 = parts.scheme.as_str().unicode_len() as u128 + 3 + parts.user_info.as_str()
        .unicode_len() as u128 + host as u128 + port as u128 + parts.path.as_str().unicode_len()
        as u128;
    proof {
        reveal_strlit("://");
        assert("://"@.len() == 3);
        assert(port_text(parts@.port).len() == port);
        assert(url_text(parts@).len() == total);
    }
    total > u32::MAX as u128
}

/// The number of digits of a port.
fn decimal_length(n: u16) -> (length: usize)
    ensures
        length == decimal(n as nat).len(),
        length <= 5,
{
    reveal_with_fuel(decimal, 5);
    if n < 10 {
        1
    } else if n < 100 {
        2
    } else if n < 1000 {
        3
    } else if n < 10000 {
        4
    } else {
        5
    }
}

/// Normalize scheme/host/port/path for DPoP htu compare:
/// - http/https only; lowercase scheme+host
/// - drop query & fragment
/// - elide default ports (80/443)
/// - ensure non-empty path ("/")
/// - resolve dot-segments
///
/// What is normalized stays as it is when it is normalized again, and holds no query and no
/// fragment. A query and a fragment behind the input, or one of the two, do not change the result.
pub fn normalize_htu(input: &str) -> (normal: Result<String, DpopError>)
    ensures
        text_outcome(normal) == htu_normal_form(input@),
        normal matches Ok(text) ==> htu_normal_form(text@) == Ok::<Seq<char>, DpopErrorView>(
            text@,
        ),
        normal matches Ok(text) ==> is_bare(text@),
        normal matches Ok(text) ==> keeps_form_with_tail(input@, text@),
        normal matches Ok(text) ==> {
            let read = url_parse(input@)->Ok_0;
            let again = url_parse(text@)->Ok_0;
            &&& url_parse(input@) is Ok && url_parse(text@) is Ok
            &&& again.scheme == read.scheme
            &&& again.user_info == read.user_info
            &&& again.host == read.host
            &&& again.port == read.port
            &&& again.path == resolved_path(read.path)
            &&& (read.scheme == "http"@ && read.port != Some(80u16)) || (read.scheme == "https"@
                && read.port != Some(443u16))
        },
{
    let parts = match parse_url(input) {
        Ok(parts) => parts,
        Err(reason) => {
            return Err(DpopError::MalformedHtu(reason));
        },
    };
    let normal = normalize_parts(&parts)?;
    let host: &str = match &normal.host {
        Some(host) => host.as_str(),
        None => "",
    };
    if let Err(reason) = parse_host(host) {
        let mut message = String::from("Failed setting host: ");
        message.append(reason.as_str());
        return Err(DpopError::MalformedHtu(message));
    }
    if is_oversized(&parts) {
        return Err(
            DpopError::MalformedHtu(String::from("URLs more than 4 GB are not supported")),
        );
    }
    proof {
        lemma_normal_web_url(parts@);
        lemma_normal_parts_twice(parts@);
        lemma_url_text_bare(normal@);
    }
    Ok(write_url(input, host, normal.port, normal.path.as_str()))
}

/// Whether a fragment behind the URI and the query begins within the first 4 GB.
pub open spec fn has_room(uri: Seq<char>, query: Seq<char>) -> bool {
    url_text(url_parse(uri)->Ok_0).len() + 1 + written_length(query) <= u32::MAX
}

/// A query and a fragment never change a normal form: neither a query, nor a fragment, nor a query
/// with a fragment behind it, as far as the fragment begins within the first 4 GB.
pub proof fn lemma_query_and_fragment(
    uri: Seq<char>,
    normal: Seq<char>,
    query: Seq<char>,
    fragment: Seq<char>,
)
    requires
        htu_normal_form(uri) == Ok::<Seq<char>, DpopErrorView>(normal),
        keeps_form_with_tail(uri, normal),
        takes_tail(uri),
    ensures
        htu_normal_form(uri + seq!['#'] + fragment) == htu_normal_form(uri),
        !holds(query, '#') || has_room(uri, query) ==> htu_normal_form(uri + seq!['?'] + query)
            == htu_normal_form(uri),
        has_room(uri, query) ==> htu_normal_form(uri + seq!['?'] + query + seq!['#'] + fragment)
            == htu_normal_form(uri),
{
    let asked = seq!['?'] + query;
    lemma_written_query(query);
    lemma_written_before_fragment(asked, Seq::empty());
    lemma_written_before_fragment(Seq::empty(), seq!['#'] + fragment);
    lemma_written_before_fragment(asked, seq!['#'] + fragment);
    assert(Seq::<char>::empty() + (seq!['#'] + fragment) =~= seq!['#'] + fragment);
    assert(asked + Seq::<char>::empty() =~= asked);
    assert(!holds(query, '#') ==> !holds(asked, '#'));
    assert(uri + seq!['#'] + fragment =~= uri + (seq!['#'] + fragment));
    assert(uri + seq!['?'] + query =~= uri + asked);
    assert(uri + seq!['?'] + query + seq!['#'] + fragment =~= uri + (asked + (seq!['#']
        + fragment)));
}

/// A question mark takes one byte.
proof fn lemma_written_query(query: Seq<char>)
    ensures
        written_length(seq!['?'] + query) == 1 + written_length(query),
    decreases query.len(),
{
    let asked = seq!['?'] + query;
    if query.len() == 0 {
        assert(asked.drop_last() =~= Seq::<char>::empty());
        assert(written_length(asked.drop_last()) == 0);
        assert(asked.last() == '?');
    } else {
        assert(asked.drop_last() =~= seq!['?'] + query.drop_last());
        lemma_written_query(query.drop_last());
    }
}

/// What stands before a fragment takes no more than the query that it stands in.
proof fn lemma_written_before_fragment(query: Seq<char>, rest: Seq<char>)
    requires
        rest.len() > 0 ==> rest[0] == '#',
    ensures
        written_length(split(query + rest, '#')[0]) <= written_length(query),
        rest.len() > 0 ==> split(query + rest, '#').len() > 1,
    decreases query.len() + rest.len(),
{
    let whole = query + rest;
    if whole.len() > 0 {
        lemma_split_nonempty(whole.drop_last(), '#');
        let before = split(whole.drop_last(), '#');
        if rest.len() > 0 {
            assert(whole.drop_last() =~= query + rest.drop_last());
            lemma_written_before_fragment(query, rest.drop_last());
            assert(rest.len() == 1 ==> whole.last() == '#');
        } else {
            assert(whole =~= query);
            assert(whole.drop_last() =~= query.drop_last() + rest);
            lemma_written_before_fragment(query.drop_last(), rest);
            let longer = before[0].push(whole.last());
            assert(longer.drop_last() =~= before[0]);
        }
    } else {
        assert(split(whole, '#')[0] =~= query);
    }
}

/// Only digits occur in a number.
proof fn lemma_decimal_digits(n: nat)
    ensures
        forall|i: int| 0 <= i < decimal(n).len() ==> '0' <= #[trigger] decimal(n)[i] <= '9',
    decreases n,
{
    if n >= 10 {
        lemma_decimal_digits(n / 10);
        let before = decimal(n / 10);
        assert forall|i: int| 0 <= i < decimal(n).len() implies '0' <= #[trigger] decimal(n)[i]
            <= '9' by {
            if i < before.len() {
                assert(decimal(n)[i] == before[i]);
            } else {
                assert(decimal(n)[i] == digit(n % 10));
            }
        }
    }
}

/// The text of an http or https URL holds no query and no fragment.
proof fn lemma_url_text_bare(parts: UrlPartsView)
    requires
        is_web_url(parts),
    ensures
        is_bare(url_text(parts)),
{
    reveal_strlit("http");
    reveal_strlit("https");
    reveal_strlit("://");
    let before = parts.scheme + "://"@;
    let host = parts.host->0;
    let port = port_text(parts.port);
    let text = url_text(parts);
    if parts.port is Some {
        lemma_decimal_digits(parts.port->0 as nat);
    }
    assert forall|i: int| 0 <= i < text.len() implies text[i] != '?' && text[i] != '#' by {
        let a: int = before.len() as int;
        let b: int = a + parts.user_info.len();
        let c: int = b + host.len();
        let d: int = c + port.len();
        if i < a {
            assert(text[i] == before[i]);
        } else if i < b {
            assert(text[i] == parts.user_info[i - a]);
        } else if i < c {
            assert(text[i] == host[i - b]);
        } else if i < d {
            assert(text[i] == port[i - c]);
        } else {
            assert(text[i] == parts.path[i - d]);
            assert(is_path_char(parts.path[i - d]));
        }
    }
}

/// Of what the parser makes of an http or https URL, only the path is left to normalize.
proof fn lemma_normal_web_url(parts: UrlPartsView)
    requires
        is_web_url(parts),
    ensures
        normal_parts(parts) is Ok,
        normal_parts(parts)->Ok_0 == with_path(parts, resolved_path(parts.path)),
        is_settled_path(resolved_path(parts.path)),
        resolved_path(parts.path).len() <= parts.path.len(),
{
    lemma_resolved_path_settled(parts.path);
    lemma_web_is_lower(parts.scheme);
}

/// The schemes of the web are in small letters.
proof fn lemma_web_is_lower(scheme: Seq<char>)
    requires
        is_web(scheme),
    ensures
        lower_text(scheme) == scheme,
{
    reveal_strlit("http");
    reveal_strlit("https");
    assert(lower_text(scheme) =~= scheme);
}

/// Parts that are normal stay as they are.
pub proof fn lemma_normal_parts_twice(parts: UrlPartsView)
    requires
        normal_parts(parts) is Ok,
    ensures
        normal_parts(normal_parts(parts)->Ok_0) == normal_parts(parts),
{
    let path = if parts.path.len() == 0 {
        seq!['/']
    } else {
        parts.path
    };
    lemma_resolved_path_twice(path);
    lemma_lower_twice(parts.scheme);
    lemma_lower_twice(parts.host->0);
}

/// What makes parts normal: a scheme of the web, a host in small letters, no default port, and a
/// path that begins with a slash and is resolved.
pub proof fn lemma_normal_parts(parts: UrlPartsView)
    requires
        normal_parts(parts) is Ok,
    ensures
        is_web(normal_parts(parts)->Ok_0.scheme),
        normal_parts(parts)->Ok_0.user_info == parts.user_info,
        normal_parts(parts)->Ok_0.host matches Some(host) && host.len() > 0 && lower_text(host)
            == host,
        !is_default_port(normal_parts(parts)->Ok_0.scheme, normal_parts(parts)->Ok_0.port),
        normal_parts(parts)->Ok_0.path.len() > 0,
        normal_parts(parts)->Ok_0.path[0] == '/',
        resolved_path(normal_parts(parts)->Ok_0.path) == normal_parts(parts)->Ok_0.path,
{
    lemma_normal_parts_twice(parts);
    lemma_lower_twice(parts.host->0);
}

/// Whether a segment stays when a path is resolved.
pub open spec fn is_plain_segment(segment: Seq<char>) -> bool {
    segment != ""@ && segment != "."@ && segment != ".."@
}

/// A segment of a resolved path is one of those that were there, and none of the special ones.
pub proof fn lemma_resolved_segment(segments: Seq<Seq<char>>, i: int)
    requires
        0 <= i < resolved(segments).len(),
    ensures
        segments.contains(resolved(segments)[i]),
        is_plain_segment(resolved(segments)[i]),
    decreases segments.len(),
{
    let before = segments.drop_last();
    if i < resolved(before).len() {
        lemma_resolved_segment(before, i);
        let j = choose|j: int| 0 <= j < before.len() && before[j] == resolved(before)[i];
        assert(segments[j] == resolved(before)[i]);
    } else {
        assert(segments[segments.len() - 1] == resolved(segments)[i]);
    }
}

/// Segments of which none is special are resolved already.
pub proof fn lemma_resolved_plain(segments: Seq<Seq<char>>)
    requires
        forall|i: int| 0 <= i < segments.len() ==> is_plain_segment(#[trigger] segments[i]),
    ensures
        resolved(segments) == segments,
    decreases segments.len(),
{
    if segments.len() > 0 {
        let before = segments.drop_last();
        assert forall|i: int| 0 <= i < before.len() implies is_plain_segment(
            #[trigger] before[i],
        ) by {
            assert(before[i] == segments[i]);
        }
        lemma_resolved_plain(before);
        assert(is_plain_segment(segments[segments.len() - 1]));
        assert(before.push(segments.last()) =~= segments);
    }
}

/// Resolving a path does not make it longer.
pub proof fn lemma_resolved_length(segments: Seq<Seq<char>>)
    ensures
        joined(resolved(segments), '/').len() <= joined(segments, '/').len(),
        segments.len() == 0 ==> resolved(segments).len() == 0,
    decreases segments.len(),
{
    if segments.len() > 0 {
        let before = segments.drop_last();
        lemma_resolved_length(before);
        assert(segments =~= before.push(segments.last()));
        let kept = resolved(before);
        if kept.len() > 1 {
            assert(joined(kept, '/') == joined(kept.drop_last(), '/').push('/') + kept.last());
        }
        let longer = kept.push(segments.last());
        assert(longer.drop_last() =~= kept);
    }
}

/// A resolved path is resolved.
pub proof fn lemma_resolved_path_twice(path: Seq<char>)
    ensures
        resolved_path(resolved_path(path)) == resolved_path(path),
{
    let segments = split(path.skip(1), '/');
    let kept = resolved(segments);
    let inner = joined(kept, '/');
    assert(resolved_path(path).skip(1) =~= inner);
    assert forall|i: int| 0 <= i < kept.len() implies is_plain_segment(#[trigger] kept[i])
        && !holds(kept[i], '/') by {
        lemma_resolved_segment(segments, i);
        let j = choose|j: int| 0 <= j < segments.len() && segments[j] == kept[i];
        if holds(kept[i], '/') {
            let k = choose|k: int| 0 <= k < kept[i].len() && kept[i][k] == '/';
            lemma_split_pieces(path.skip(1), '/', j, k);
        }
    }
    if kept.len() > 0 {
        lemma_split_joined(kept, '/');
        lemma_resolved_plain(kept);
    } else {
        reveal_strlit("");
        assert(""@ =~= Seq::<char>::empty());
        assert(split(inner, '/') =~= seq![Seq::<char>::empty()]);
        let lone = seq![Seq::<char>::empty()];
        assert(resolved(lone.drop_last()) =~= Seq::<Seq<char>>::empty());
        assert(resolved(lone) =~= Seq::<Seq<char>>::empty());
        assert(kept =~= Seq::<Seq<char>>::empty());
    }
}

/// Resolving a path that is settled gives one that is settled and not longer.
pub proof fn lemma_resolved_path_settled(path: Seq<char>)
    requires
        is_settled_path(path),
    ensures
        is_settled_path(resolved_path(path)),
        resolved_path(path).len() <= path.len(),
{
    let segments = split(path.skip(1), '/');
    let kept = resolved(segments);
    let inner = joined(kept, '/');
    let new_path = resolved_path(path);
    assert(new_path.skip(1) =~= inner);
    lemma_resolved_length(segments);
    lemma_joined_split(path.skip(1), '/');
    assert forall|i: int| 0 <= i < new_path.len() implies is_path_char(#[trigger] new_path[i]) by {
        if i > 0 {
            let c = inner[i - 1];
            assert(new_path[i] == c);
            lemma_joined_characters(kept, '/', i - 1);
            if c != '/' {
                let n = choose|n: int| 0 <= n < kept.len() && holds(#[trigger] kept[n], c);
                lemma_resolved_segment(segments, n);
                let j = choose|j: int| 0 <= j < segments.len() && segments[j] == kept[n];
                let k = choose|k: int| 0 <= k < kept[n].len() && kept[n][k] == c;
                lemma_split_pieces(path.skip(1), '/', j, k);
                let m = choose|m: int| 0 <= m < path.skip(1).len() && path.skip(1)[m] == c;
                assert(path[m + 1] == c);
            }
        }
    }
    assert forall|i: int| 0 <= i < kept.len() implies !is_dot_segment(#[trigger] kept[i]) && !holds(
        kept[i],
        '/',
    ) by {
        lemma_resolved_segment(segments, i);
        let j = choose|j: int| 0 <= j < segments.len() && segments[j] == kept[i];
        assert(!is_dot_segment(segments[j]));
        if holds(kept[i], '/') {
            let k = choose|k: int| 0 <= k < kept[i].len() && kept[i][k] == '/';
            lemma_split_pieces(path.skip(1), '/', j, k);
        }
    }
    if kept.len() > 0 {
        lemma_split_joined(kept, '/');
    } else {
        assert(split(inner, '/') =~= seq![Seq::<char>::empty()]);
        lemma_empty_is_no_dot_segment();
    }
}

proof fn lemma_empty_is_no_dot_segment()
    ensures
        !is_dot_segment(Seq::<char>::empty()),
{
    reveal_strlit(".");
    reveal_strlit("%2e");
    reveal_strlit("%2E");
    let nothing = Seq::<char>::empty();
    assert("."@.len() == 1 && "%2e"@.len() == 3 && "%2E"@.len() == 3);
    assert(!is_dot(nothing));
    assert forall|i: int| 0 <= i <= nothing.len() implies !is_dot(#[trigger] nothing.take(i)) by {
        assert(nothing.take(i).len() == 0);
    }
}

} // verus!
