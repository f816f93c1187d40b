//! URL canonicalization: decides when two input strings denote the same
//! resource by reducing each to one canonical string, or rejects the input.

use crate::query::{
    fold_pairs, folded, lemma_folded_empty, lemma_folded_of_sorted, lemma_folded_sorted,
    pairs_view, strictly_sorted, Pair,
};
use crate::text::{
    chars_of, decimal, decimal_string, has_prefix, lowercase_of, starts_with, str_equal, text_of,
    to_lowercase,
};
use url::Url;
use vstd::prelude::*;

verus! {

/// Why an input was rejected.
#[derive(Debug, Clone, PartialEq, Eq)]
pub enum ValidationError {
    /// The input was empty.
    EmptyUrl,
    /// The input could not be parsed as an absolute URL; holds the input.
    MalformedUrl(String),
    /// The URL has no host, or one that is empty as written or once it is
    /// lower-cased.
    MissingHost,
    /// The host is a loopback or private address; holds the host.
    LocalAddress(String),
    /// The scheme is neither `http` nor `https`; holds the scheme.
    UnsupportedScheme(String),
}

/// `ValidationError` over character sequences.
pub enum ValidationErrorView {
    EmptyUrl,
    MalformedUrl(Seq<char>),
    MissingHost,
    LocalAddress(Seq<char>),
    UnsupportedScheme(Seq<char>),
}

impl View for ValidationError {
    type V = ValidationErrorView;

    open spec fn view(&self) -> ValidationErrorView {
        match self {
            ValidationError::EmptyUrl => ValidationErrorView::EmptyUrl,
            ValidationError::MalformedUrl(s) => ValidationErrorView::MalformedUrl(s@),
            ValidationError::MissingHost => ValidationErrorView::MissingHost,
            ValidationError::LocalAddress(s) => ValidationErrorView::LocalAddress(s@),
            ValidationError::UnsupportedScheme(s) => ValidationErrorView::UnsupportedScheme(s@),
        }
    }
}

/// The message that goes with a rejection.
pub open spec fn error_text(e: ValidationErrorView) -> Seq<char> {
    match e {
        ValidationErrorView::EmptyUrl => "URL cannot be empty"@,
        ValidationErrorView::MalformedUrl(s) => "Malformed URL: "@ + s,
        ValidationErrorView::MissingHost => "URL must have a host"@,
        ValidationErrorView::LocalAddress(s) => "Local addresses not allowed: "@ + s,
        ValidationErrorView::UnsupportedScheme(s) => "Unsupported URL scheme: "@ + s,
    }
}

impl ValidationError {
    /// The human-readable reason.
    pub fn to_string(&self) -> (s: String)
        ensures
            s@ == error_text(self@),
    {
        match self {
            ValidationError::EmptyUrl => String::from_str("URL cannot be empty"),
            ValidationError::MalformedUrl(input) => {
                String::from_str("Malformed URL: ").concat(input.as_str())
            },
            ValidationError::MissingHost => String::from_str("URL must have a host"),
            ValidationError::LocalAddress(host) => {
                String::from_str("Local addresses not allowed: ").concat(host.as_str())
            },
            ValidationError::UnsupportedScheme(scheme) => {
                String::from_str("Unsupported URL scheme: ").concat(scheme.as_str())
            },
        }
    }
}

/// The schemes that are accepted.
#[derive(Debug, Clone, Copy, PartialEq, Eq, Structural)]
pub enum Scheme {
    Http,
    Https,
}

/// The text of a scheme.
pub open spec fn scheme_text(s: Scheme) -> Seq<char> {
    match s {
        Scheme::Http => seq!['h', 't', 't', 'p'],
        Scheme::Https => seq!['h', 't', 't', 'p', 's'],
    }
}

/// The scheme that a text names, if it is an accepted one.
pub open spec fn scheme_of(text: Seq<char>) -> Option<Scheme> {
    if text == scheme_text(Scheme::Http) {
        Some(Scheme::Http)
    } else if text == scheme_text(Scheme::Https) {
        Some(Scheme::Https)
    } else {
        None
    }
}

/// The port that a scheme implies when none is written.
pub open spec fn default_port(s: Scheme) -> u16 {
    match s {
        Scheme::Http => 80,
        Scheme::Https => 443,
    }
}

impl Scheme {
    /// The scheme as it is written in a URL.
    pub fn as_str(&self) -> (s: &'static str)
        ensures
            s@ == scheme_text(*self),
    {
        proof {
            reveal_strlit("http");
            reveal_strlit("https");
        }
        let s = match self {
            Scheme::Http => "http",
            Scheme::Https => "https",
        };
        assert(s@ =~= scheme_text(*self));
        s
    }

    /// The scheme as it is written in a URL.
    pub fn to_string(&self) -> (s: String)
        ensures
            s@ == scheme_text(*self),
    {
        String::from_str(self.as_str())
    }

    /// The port that the scheme implies when none is written.
    pub fn default_port(&self) -> (p: u16)
        ensures
            p == default_port(*self),
    {
        match self {
            Scheme::Http => 80,
            Scheme::Https => 443,
        }
    }

    /// Reads a scheme; only `http` and `https`, in lower case, are accepted.
    pub fn parse(text: &str) -> (r: Option<Scheme>)
        ensures
            r == scheme_of(text@),
    {
        if str_equal(text, Scheme::Http.as_str()) {
            Some(Scheme::Http)
        } else if str_equal(text, Scheme::Https.as_str()) {
            Some(Scheme::Https)
        } else {
            None
        }
    }
}

/// What the canonicalizer reads from a parsed URL.
#[derive(Debug, Clone, PartialEq, Eq)]
pub struct UrlParts {
    /// The scheme, lower-cased, without the `:`.
    pub scheme: String,
    /// The host as written in the serialization, if the URL has one.
    pub host: Option<String>,
    /// The port, if one is written and it is not the scheme's default.
    pub port: Option<u16>,
    /// The path, percent-encoded.
    pub path: String,
    /// The raw query string, if the URL has one.
    pub query: Option<String>,
    /// The query string decoded into key/value pairs, in order of appearance.
    pub query_pairs: Vec<(String, String)>,
}

/// `UrlParts` over character sequences.
pub struct UrlPartsView {
    pub scheme: Seq<char>,
    pub host: Option<Seq<char>>,
    pub port: Option<u16>,
    pub path: Seq<char>,
    pub query: Option<Seq<char>>,
    pub query_pairs: Seq<Pair>,
}

impl View for UrlParts {
    type V = UrlPartsView;

    open spec fn view(&self) -> UrlPartsView {
        UrlPartsView {
            scheme: self.scheme@,
            host: text_of(self.host),
            port: self.port,
            path: self.path@,
            query: text_of(self.query),
            query_pairs: pairs_view(self.query_pairs@),
        }
    }
}

/// A URL that has been validated for internet content access: `http` or
/// `https`, a non-empty host that is not a local address, no default port,
/// a normalized path and query parameters sorted by key.
#[derive(Debug, Clone, PartialEq, Eq)]
pub struct ValidatedUrl {
    pub scheme: Scheme,
    /// Lower-cased; non-empty and not local.
    pub host: String,
    /// Only a port that is not the scheme's default.
    pub port: Option<u16>,
    /// `/`, or a path with one trailing slash stripped.
    pub path: String,
    /// The parameters in ascending order of key, each key once; `None` when
    /// there are none.
    pub query: Option<Vec<(String, String)>>,
}

/// `ValidatedUrl` over character sequences.
pub struct ValidatedUrlView {
    pub scheme: Scheme,
    pub host: Seq<char>,
    pub port: Option<u16>,
    pub path: Seq<char>,
    pub query: Option<Seq<Pair>>,
}

impl View for ValidatedUrl {
    type V = ValidatedUrlView;

    open spec fn view(&self) -> ValidatedUrlView {
        ValidatedUrlView {
            scheme: self.scheme,
            host: self.host@,
            port: self.port,
            path: self.path@,
            query: match self.query {
                Some(q) => Some(pairs_view(q@)),
                None => None,
            },
        }
    }
}

/// The coarse filter for loopback and private hosts: `localhost`, or a host
/// that starts with `127.`, `192.168.` or `10.`.
pub open spec fn is_local(host: Seq<char>) -> bool {
    ||| host == seq!['l', 'o', 'c', 'a', 'l', 'h', 'o', 's', 't']
    ||| has_prefix(host, seq!['1', '2', '7', '.'])
    ||| has_prefix(host, seq!['1', '9', '2', '.', '1', '6', '8', '.'])
    ||| has_prefix(host, seq!['1', '0', '.'])
}

/// The port that is kept: none if it is the scheme's default.
pub open spec fn normalized_port(scheme: Scheme, port: Option<u16>) -> Option<u16> {
    match port {
        Some(p) => if p == default_port(scheme) {
            None
        } else {
            Some(p)
        },
        None => None,
    }
}

/// The path that is kept: `/` for an empty path or `/`, otherwise the path
/// with exactly one trailing `/` stripped, if it has one.
pub open spec fn normalized_path(path: Seq<char>) -> Seq<char> {
    if path.len() == 0 || path == seq!['/'] {
        seq!['/']
    } else if path.last() == '/' {
        path.drop_last()
    } else {
        path
    }
}

/// The query that is kept: none without a query string or without pairs,
/// otherwise the pairs folded into entries sorted by key.
pub open spec fn normalized_query(query: Option<Seq<char>>, pairs: Seq<Pair>) -> Option<Seq<Pair>> {
    if query is None || pairs.len() == 0 {
        None
    } else {
        Some(folded(pairs))
    }
}

/// What validation makes of the parts of a parsed URL.
pub open spec fn validated(p: UrlPartsView) -> Result<ValidatedUrlView, ValidationErrorView> {
    match scheme_of(p.scheme) {
        None => Err(ValidationErrorView::UnsupportedScheme(p.scheme)),
        Some(scheme) => match p.host {
            None => Err(ValidationErrorView::MissingHost),
            Some(raw_host) => {
                let host = lowercase_of(raw_host);
                if raw_host.len() == 0 || host.len() == 0 {
                    Err(ValidationErrorView::MissingHost)
                } else if is_local(host) {
                    Err(ValidationErrorView::LocalAddress(host))
                } else {
                    Ok(
                        ValidatedUrlView {
                            scheme,
                            host,
                            port: normalized_port(scheme, p.port),
                            path: normalized_path(p.path),
                            query: normalized_query(p.query, p.query_pairs),
                        },
                    )
                }
            },
        },
    }
}

/// What every validated URL satisfies.
pub open spec fn well_formed(v: ValidatedUrlView) -> bool {
    &&& v.host.len() > 0
    &&& !is_local(v.host)
    &&& v.port != Some(default_port(v.scheme))
    &&& v.path.len() > 0
    &&& v.query matches Some(q) ==> q.len() > 0 && strictly_sorted(q)
}

/// One parameter: the bare key when the value is empty, else `key=value`.
pub open spec fn pair_text(p: Pair) -> Seq<char> {
    if p.1.len() == 0 {
        p.0
    } else {
        p.0 + seq!['='] + p.1
    }
}

/// The parameters in order, joined by `&`.
pub open spec fn joined(q: Seq<Pair>) -> Seq<char>
    decreases q.len(),
{
    if q.len() == 0 {
        Seq::empty()
    } else if q.len() == 1 {
        pair_text(q[0])
    } else {
        joined(q.drop_last()) + seq!['&'] + pair_text(q.last())
    }
}

/// `:` and the port in decimal, or nothing.
pub open spec fn port_text(port: Option<u16>) -> Seq<char> {
    match port {
        Some(p) => seq![':'] + decimal(p as nat),
        None => Seq::empty(),
    }
}

/// `?` and the joined parameters, or nothing when there are none.
pub open spec fn query_text(query: Option<Seq<Pair>>) -> Seq<char> {
    match query {
        Some(q) => if q.len() == 0 {
            Seq::empty()
        } else {
            seq!['?'] + joined(q)
        },
        None => Seq::empty(),
    }
}

/// The canonical string: `scheme://host[:port]path[?k1=v1&k2=v2&...]`.
pub open spec fn canonical_text(v: ValidatedUrlView) -> Seq<char> {
    scheme_text(v.scheme) + seq![':', '/', '/'] + v.host + port_text(v.port) + v.path + query_text(
        v.query,
    )
}

/// The parts that a validated URL is made of, as a parser would hand them
/// over: the scheme's text, the host, the port, the path, and the parameters
/// as pairs, with the rendered parameters as the raw query.
pub open spec fn parts_of(v: ValidatedUrlView) -> UrlPartsView {
    UrlPartsView {
        scheme: scheme_text(v.scheme),
        host: Some(v.host),
        port: v.port,
        path: v.path,
        query: match v.query {
            Some(q) => Some(joined(q)),
            None => None,
        },
        query_pairs: match v.query {
            Some(q) => q,
            None => Seq::empty(),
        },
    }
}

/// Validation is a fixed point on its own results: validating the parts of
/// a validated URL gives that URL back, for a host that lowercasing leaves
/// as it is and a path that has no further trailing slash to lose.
pub proof fn lemma_validated_is_fixed_point(v: ValidatedUrlView)
    requires
        well_formed(v),
        lowercase_of(v.host) == v.host,
        normalized_path(v.path) == v.path,
    ensures
        validated(parts_of(v)) == Ok::<ValidatedUrlView, ValidationErrorView>(v),
{
    let p = parts_of(v);
    assert(scheme_text(Scheme::Http) != scheme_text(Scheme::Https)) by {
        assert(scheme_text(Scheme::Http).len() == 4);
        assert(scheme_text(Scheme::Https).len() == 5);
    }
    assert(scheme_of(p.scheme) == Some(v.scheme));
    match v.query {
        Some(q) => {
            lemma_folded_of_sorted(q);
        },
        None => {},
    }
}

/// A normalized path is never empty.
pub proof fn lemma_normalized_path_nonempty(path: Seq<char>)
    ensures
        normalized_path(path).len() > 0,
{
    if path.len() == 1 && path.last() == '/' {
        assert(path =~= seq!['/']);
    }
}

/// Whether the host is a loopback or private address, by the coarse filter.
pub fn is_local_address(host: &str) -> (r: bool)
    ensures
        r == is_local(host@),
{
    proof {
        reveal_strlit("localhost");
        reveal_strlit("127.");
        reveal_strlit("192.168.");
        reveal_strlit("10.");
    }
    let h = chars_of(host);
    let localhost = chars_of("localhost");
    let loopback = chars_of("127.");
    let private_c = chars_of("192.168.");
    let private_a = chars_of("10.");
    assert(localhost@ =~= seq!['l', 'o', 'c', 'a', 'l', 'h', 'o', 's', 't']);
    assert(loopback@ =~= seq!['1', '2', '7', '.']);
    assert(private_c@ =~= seq!['1', '9', '2', '.', '1', '6', '8', '.']);
    assert(private_a@ =~= seq!['1', '0', '.']);
    let same = h.len() == localhost.len() && starts_with(&h, &localhost);
    proof {
        if h.len() == localhost.len() {
            assert(h@.take(h@.len() as int) =~= h@);
        }
    }
    same || starts_with(&h, &loopback) || starts_with(&h, &private_c) || starts_with(
        &h,
        &private_a,
    )
}

/// Drops the port if it is the scheme's default.
pub fn normalize_port(scheme: Scheme, port: Option<u16>) -> (r: Option<u16>)
    ensures
        r == normalized_port(scheme, port),
{
    match port {
        Some(p) => if p == scheme.default_port() {
            None
        } else {
            Some(p)
        },
        None => None,
    }
}

/// Normalizes a path: the root stays `/`, any other path loses exactly one
/// trailing `/`.
pub fn normalize_path(path: &str) -> (r: String)
    ensures
        r@ == normalized_path(path@),
{
    proof {
        reveal_strlit("/");
    }
    let n = path.unicode_len();
    if n == 0 {
        return String::from_str("/");
    }
    let last = path.get_char(n - 1);
    if last == '/' {
        if n == 1 {
            assert(path@ =~= seq!['/']);
            String::from_str("/")
        } else {
            assert(path@ != seq!['/']);
            String::from_str(path.substring_char(0, n - 1))
        }
    } else {
        assert(path@ != seq!['/']);
        String::from_str(path)
    }
}

/// Renders the parameters in order, joined by `&`.
pub fn join_pairs(q: &Vec<(String, String)>) -> (r: String)
    ensures
        r@ == joined(pairs_view(q@)),
{
    let ghost all = pairs_view(q@);
    let mut out = String::new();
    let mut i: usize = 0;
    assert(out@ =~= joined(all.take(0)));
    while i < q.len()
        invariant
            i <= q.len(),
            all == pairs_view(q@),
            out@ == joined(all.take(i as int)),
        decreases q.len() - i,
    {
        let ghost before = out@;
        if i > 0 {
            out.append("&");
        }
        out.append(q[i].0.as_str());
        if !q[i].1.as_str().is_empty() {
            out.append("=");
            out.append(q[i].1.as_str());
        }
        proof {
            reveal_strlit("&");
            reveal_strlit("=");
            let t = all.take(i as int + 1);
            assert(t.drop_last() =~= all.take(i as int));
            assert(t.last() == all[i as int]);
            if i == 0 {
                assert(before =~= Seq::<char>::empty());
                assert(out@ =~= pair_text(all[0]));
            } else {
                assert(out@ =~= before + seq!['&'] + pair_text(all[i as int]));
            }
        }
        i = i + 1;
    }
    assert(all.take(i as int) =~= all);
    out
}

impl ValidatedUrl {
    /// Validates and normalizes the parts of a parsed URL, in this order: the
    /// scheme must be `http` or `https`; the host must be present and not
    /// empty; the lower-cased host must not be a local address; a default
    /// port is dropped; the path loses one trailing slash; the decoded query
    /// pairs are folded into parameters sorted by key.
    pub fn try_from(parts: UrlParts) -> (r: Result<ValidatedUrl, ValidationError>)
        ensures
            result_view(r) == validated(parts@),
            r matches Ok(v) ==> well_formed(v@),
    {
        let UrlParts { scheme, host, port, path, query, query_pairs } = parts;
        let scheme = match Scheme::parse(scheme.as_str()) {
            Some(s) => s,
            None => {
                return Err(ValidationError::UnsupportedScheme(scheme));
            },
        };
        let raw_host = match host {
            Some(h) => h,
            None => {
                return Err(ValidationError::MissingHost);
            },
        };
        if raw_host.as_str().is_empty() {
            return Err(ValidationError::MissingHost);
        }
        let host = to_lowercase(raw_host.as_str());
        if host.as_str().is_empty() {
            return Err(ValidationError::MissingHost);
        }
        if is_local_address(host.as_str()) {
            return Err(ValidationError::LocalAddress(host));
        }
        let port = normalize_port(scheme, port);
        proof {
            lemma_normalized_path_nonempty(path@);
        }
        let path = normalize_path(path.as_str());
        let query = if query.is_some() && query_pairs.len() > 0 {
            let entries = fold_pairs(&query_pairs);
            proof {
                lemma_folded_sorted(pairs_view(query_pairs@));
                lemma_folded_empty(pairs_view(query_pairs@));
            }
            Some(entries)
        } else {
            None
        };
        Ok(ValidatedUrl { scheme, host, port, path, query })
    }

    /// The canonical string of the URL.
    pub fn to_string(&self) -> (s: String)
        ensures
            s@ == canonical_text(self@),
    {
        proof {
            reveal_strlit("://");
            reveal_strlit(":");
            reveal_strlit("?");
        }
        let mut out = String::from_str(self.scheme.as_str());
        out.append("://");
        out.append(self.host.as_str());
        match self.port {
            Some(p) => {
                out.append(":");
                let digits = decimal_string(p);
                out.append(digits.as_str());
            },
            None => {},
        }
        out.append(self.path.as_str());
        match &self.query {
            Some(q) => {
                if q.len() > 0 {
                    out.append("?");
                    let params = join_pairs(q);
                    out.append(params.as_str());
                }
            },
            None => {},
        }
        assert(out@ =~= canonical_text(self@));
        out
    }
}

/// A result over character sequences.
pub open spec fn result_view(r: Result<ValidatedUrl, ValidationError>) -> Result<
    ValidatedUrlView,
    ValidationErrorView,
> {
    match r {
        Ok(v) => Ok(v@),
        Err(e) => Err(e@),
    }
}

/// The parts of the URL that the parser reads from an input, if it accepts
/// the input as an absolute URL.
pub uninterp spec fn parsed_url(input: Seq<char>) -> Option<UrlPartsView>;

/// `url::Url::parse`, with the accessors `scheme`, `host_str`, `port`, `path`,
/// `query` and `query_pairs` read from the parsed URL. The parser is a
/// function of its input: the same string always gives the same parts, or is
/// always refused.
#[verifier::external_body]
fn parse_url(input: &str) -> (parts: Option<UrlParts>)
    ensures
        match parts {
            Some(p) => parsed_url(input@) == Some(p@),
            None => parsed_url(input@) is None,
        },
{
    match Url::parse(input) {
        Ok(u) => Some(UrlParts {
            scheme: u.scheme().to_string(),
            host: u.host_str().map(str::to_string),
            port: u.port(),
            path: u.path().to_string(),
            query: u.query().map(str::to_string),
            query_pairs: u.query_pairs().into_owned().collect(),
        }),
        Err(_) => None,
    }
}

/// What validation makes of an input string.
pub open spec fn validated_text(input: Seq<char>) -> Result<ValidatedUrlView, ValidationErrorView> {
    if input.len() == 0 {
        Err(ValidationErrorView::EmptyUrl)
    } else {
        match parsed_url(input) {
            None => Err(ValidationErrorView::MalformedUrl(input)),
            Some(p) => validated(p),
        }
    }
}

/// The canonical string of an input, or why the input is rejected.
pub open spec fn normalized_text(input: Seq<char>) -> Result<Seq<char>, ValidationErrorView> {
    match validated_text(input) {
        Ok(v) => Ok(canonical_text(v)),
        Err(e) => Err(e),
    }
}

/// Parses and validates a URL string.
pub fn validate_url(url_str: &str) -> (r: Result<ValidatedUrl, ValidationError>)
    ensures
        result_view(r) == validated_text(url_str@),
        r matches Ok(v) ==> well_formed(v@),
{
    if url_str.is_empty() {
        return Err(ValidationError::EmptyUrl);
    }
    match parse_url(url_str) {
        Some(parts) => ValidatedUrl::try_from(parts),
        None => Err(ValidationError::MalformedUrl(String::from_str(url_str))),
    }
}

/// Reduces a URL string to its canonical form.
pub fn normalize_url(url_str: &str) -> (r: Result<String, ValidationError>)
    ensures
        match r {
            Ok(s) => normalized_text(url_str@) == Ok::<Seq<char>, ValidationErrorView>(s@),
            Err(e) => normalized_text(url_str@) == Err::<Seq<char>, ValidationErrorView>(e@),
        },
{
    match validate_url(url_str) {
        Ok(v) => Ok(v.to_string()),
        Err(e) => Err(e),
    }
}

} // verus!
