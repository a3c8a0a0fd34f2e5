//! The typed header-key vocabulary: well-known request and response keys,
//! each with its canonical wire name, plus a custom fallback, and the
//! case-insensitive lookup from a wire name to a request key.

use vstd::prelude::*;
use vstd::string::*;
use vstd::utf8::is_ascii_chars;
use crate::text::{ascii_lower, lower_of, str_eq, to_lower, trim, trim_str};

verus! {

/// A value that names a header on the wire.
pub trait HeaderName {
    /// The wire name, as characters.
    spec fn name_view(&self) -> Seq<char>;

    /// The wire name.
    fn wire_name(&self) -> (r: &str)
        ensures
            r@ == self.name_view(),
    ;
}

/// Header keys of a request.
#[derive(Debug, Clone, PartialEq, Eq, Hash)]
pub enum HttpRequestHeaderKey {
    Accept,
    AcceptEncoding,
    AcceptLanguage,
    Authorization,
    Host,
    CacheControl,
    ContentType,
    ContentLength,
    Cookie,
    Custom(String),
    Origin,
    Referer,
    UserAgent,
}

/// Header keys of a response.
#[derive(Debug, Clone, PartialEq, Eq, Hash)]
pub enum HttpResponseHeaderKey {
    AccessControlAllowOrigin,
    Connection,
    ContentLength,
    ContentType,
    Custom(String),
    KeepAlive,
    LastModified,
}

impl HeaderName for HttpRequestHeaderKey {
    open spec fn name_view(&self) -> Seq<char> {
        match self {
            HttpRequestHeaderKey::Accept => "Accept"@,
            HttpRequestHeaderKey::AcceptEncoding => "Accept-Encoding"@,
            HttpRequestHeaderKey::AcceptLanguage => "Accept-Language"@,
            HttpRequestHeaderKey::Authorization => "Authorization"@,
            HttpRequestHeaderKey::Host => "Host"@,
            HttpRequestHeaderKey::CacheControl => "Cache-Control"@,
            HttpRequestHeaderKey::ContentType => "Content-Type"@,
            HttpRequestHeaderKey::ContentLength => "Content-Length"@,
            HttpRequestHeaderKey::Cookie => "Cookie"@,
            HttpRequestHeaderKey::Custom(s) => s@,
            HttpRequestHeaderKey::Origin => "Origin"@,
            HttpRequestHeaderKey::Referer => "Referer"@,
            HttpRequestHeaderKey::UserAgent => "User-Agent"@,
        }
    }

    fn wire_name(&self) -> (r: &str) {
        match self {
            HttpRequestHeaderKey::Accept => "Accept",
            HttpRequestHeaderKey::AcceptEncoding => "Accept-Encoding",
            HttpRequestHeaderKey::AcceptLanguage => "Accept-Language",
            HttpRequestHeaderKey::Authorization => "Authorization",
            HttpRequestHeaderKey::Host => "Host",
            HttpRequestHeaderKey::CacheControl => "Cache-Control",
            HttpRequestHeaderKey::ContentType => "Content-Type",
            HttpRequestHeaderKey::ContentLength => "Content-Length",
            HttpRequestHeaderKey::Cookie => "Cookie",
            HttpRequestHeaderKey::Custom(s) => s.as_str(),
            HttpRequestHeaderKey::Origin => "Origin",
            HttpRequestHeaderKey::Referer => "Referer",
            HttpRequestHeaderKey::UserAgent => "User-Agent",
        }
    }
}

impl HeaderName for HttpResponseHeaderKey {
    open spec fn name_view(&self) -> Seq<char> {
        match self {
            HttpResponseHeaderKey::AccessControlAllowOrigin => "Access-Control-Allow-Origin"@,
            HttpResponseHeaderKey::Connection => "Connection"@,
            HttpResponseHeaderKey::ContentLength => "Content-Length"@,
            HttpResponseHeaderKey::ContentType => "Content-Type"@,
            HttpResponseHeaderKey::Custom(s) => s@,
            HttpResponseHeaderKey::KeepAlive => "Keep-Alive"@,
            HttpResponseHeaderKey::LastModified => "Last-Modified"@,
        }
    }

    fn wire_name(&self) -> (r: &str) {
        match self {
            HttpResponseHeaderKey::AccessControlAllowOrigin => "Access-Control-Allow-Origin",
            HttpResponseHeaderKey::Connection => "Connection",
            HttpResponseHeaderKey::ContentLength => "Content-Length",
            HttpResponseHeaderKey::ContentType => "Content-Type",
            HttpResponseHeaderKey::Custom(s) => s.as_str(),
            HttpResponseHeaderKey::KeepAlive => "Keep-Alive",
            HttpResponseHeaderKey::LastModified => "Last-Modified",
        }
    }
}

impl<'a> HeaderName for &'a str {
    open spec fn name_view(&self) -> Seq<char> {
        (**self)@
    }

    fn wire_name(&self) -> (r: &str) {
        *self
    }
}

impl HeaderName for String {
    open spec fn name_view(&self) -> Seq<char> {
        self@
    }

    fn wire_name(&self) -> (r: &str) {
        self.as_str()
    }
}

/// The well-known request keys, in lookup order.
pub open spec fn known_request_keys() -> Seq<HttpRequestHeaderKey> {
    seq![
        HttpRequestHeaderKey::Accept,
        HttpRequestHeaderKey::AcceptEncoding,
        HttpRequestHeaderKey::AcceptLanguage,
        HttpRequestHeaderKey::Authorization,
        HttpRequestHeaderKey::Host,
        HttpRequestHeaderKey::CacheControl,
        HttpRequestHeaderKey::ContentType,
        HttpRequestHeaderKey::ContentLength,
        HttpRequestHeaderKey::Cookie,
        HttpRequestHeaderKey::Origin,
        HttpRequestHeaderKey::Referer,
        HttpRequestHeaderKey::UserAgent,
    ]
}

/// The first key of `keys` whose lowercased wire name is `lower`.
pub open spec fn first_key_with_lower_name(keys: Seq<HttpRequestHeaderKey>, lower: Seq<char>) -> Option<
    HttpRequestHeaderKey,
>
    decreases keys.len(),
{
    if keys.len() == 0 {
        None
    } else if ascii_lower(keys[0].name_view()) == lower {
        Some(keys[0])
    } else {
        first_key_with_lower_name(keys.drop_first(), lower)
    }
}

/// The well-known request key whose lowercased wire name is `lower`, if any.
pub open spec fn known_request_key(lower: Seq<char>) -> Option<HttpRequestHeaderKey> {
    first_key_with_lower_name(known_request_keys(), lower)
}

/// Whether `r` is the key for the wire name `name`: the well-known key whose
/// lowercased name is the lowercase form of the trimmed `name`, or else a
/// custom key holding the trimmed `name` as it is.
pub open spec fn is_key_for(name: Seq<char>, r: HttpRequestHeaderKey) -> bool {
    match known_request_key(lower_of(trim(name))) {
        Some(k) => r == k,
        None => r is Custom && r.name_view() == trim(name),
    }
}

/// The wire name of the key for `name`.
pub open spec fn key_name_for(name: Seq<char>) -> Seq<char> {
    match known_request_key(lower_of(trim(name))) {
        Some(k) => k.name_view(),
        None => trim(name),
    }
}

/// `first_key_with_lower_name` returns the first key whose lowercased name
/// matches.
proof fn lemma_first_key_at(keys: Seq<HttpRequestHeaderKey>, lower: Seq<char>, i: int)
    requires
        0 <= i < keys.len(),
        ascii_lower(keys[i].name_view()) == lower,
        forall|j: int| 0 <= j < i ==> ascii_lower(#[trigger] keys[j].name_view()) != lower,
    ensures
        first_key_with_lower_name(keys, lower) == Some(keys[i]),
    decreases i,
{
    if i > 0 {
        assert forall|j: int| 0 <= j < i - 1 implies ascii_lower(
            #[trigger] keys.drop_first()[j].name_view(),
        ) != lower by {
            assert(keys.drop_first()[j] == keys[j + 1]);
        }
        lemma_first_key_at(keys.drop_first(), lower, i - 1);
    }
}

/// The lowercased names of the well-known request keys are distinct.
proof fn lemma_known_lower_names_distinct()
    ensures
        forall|i: int, j: int|
            0 <= i < known_request_keys().len() && 0 <= j < known_request_keys().len() && i != j
                ==> ascii_lower(#[trigger] known_request_keys()[i].name_view()) != ascii_lower(
                #[trigger] known_request_keys()[j].name_view(),
            ),
{
    reveal_strlit("Accept");
    reveal_strlit("Accept-Encoding");
    reveal_strlit("Accept-Language");
    reveal_strlit("Authorization");
    reveal_strlit("Host");
    reveal_strlit("Cache-Control");
    reveal_strlit("Content-Type");
    reveal_strlit("Content-Length");
    reveal_strlit("Cookie");
    reveal_strlit("Origin");
    reveal_strlit("Referer");
    reveal_strlit("User-Agent");
    let ks = known_request_keys();
    assert forall|i: int, j: int| 0 <= i < ks.len() && 0 <= j < ks.len() && i != j implies ascii_lower(
        #[trigger] ks[i].name_view(),
    ) != ascii_lower(#[trigger] ks[j].name_view()) by {
        let a = ascii_lower(ks[i].name_view());
        let b = ascii_lower(ks[j].name_view());
        if a.len() == b.len() {
            assert(a[0] != b[0] || a[1] != b[1] || a[7] != b[7]);
        }
    }
}

/// The canonical names of the well-known keys are ASCII and carry no
/// surrounding whitespace.
proof fn lemma_known_names_plain()
    ensures
        forall|i: int|
            0 <= i < known_request_keys().len() ==> is_ascii_chars(
                #[trigger] known_request_keys()[i].name_view(),
            ) && trim(known_request_keys()[i].name_view()) == known_request_keys()[i].name_view(),
{
    reveal_strlit("Accept");
    reveal_strlit("Accept-Encoding");
    reveal_strlit("Accept-Language");
    reveal_strlit("Authorization");
    reveal_strlit("Host");
    reveal_strlit("Cache-Control");
    reveal_strlit("Content-Type");
    reveal_strlit("Content-Length");
    reveal_strlit("Cookie");
    reveal_strlit("Origin");
    reveal_strlit("Referer");
    reveal_strlit("User-Agent");
    let ks = known_request_keys();
    assert forall|i: int| 0 <= i < ks.len() implies is_ascii_chars(#[trigger] ks[i].name_view())
        && trim(ks[i].name_view()) == ks[i].name_view() by {
        let n = ks[i].name_view();
        assert(n.len() > 0 && !crate::text::is_space(n[0]) && !crate::text::is_space(n.last()));
    }
}

/// The lookup finds a well-known key from its lowercased canonical name.
proof fn lemma_known_key_from_lower(k: HttpRequestHeaderKey, lower: Seq<char>)
    requires
        known_request_keys().contains(k),
        lower == ascii_lower(k.name_view()),
    ensures
        known_request_key(lower) == Some(k),
{
    let ks = known_request_keys();
    let i = ks.index_of(k);
    lemma_known_lower_names_distinct();
    assert forall|j: int| 0 <= j < i implies ascii_lower(#[trigger] ks[j].name_view()) != lower by {
        assert(ascii_lower(ks[j].name_view()) != ascii_lower(ks[i].name_view()));
    }
    lemma_first_key_at(ks, lower, i);
}

/// The lookup is case-insensitive on well-known keys: a wire name equal to a
/// well-known key's canonical name up to ASCII case and surrounding
/// whitespace is ASCII once trimmed (so `key_for` lowercases it ASCII-wise),
/// and its lowercase form finds that key.
pub proof fn lemma_key_for_case_insensitive(k: HttpRequestHeaderKey, name: Seq<char>)
    requires
        known_request_keys().contains(k),
        ascii_lower(trim(name)) == ascii_lower(k.name_view()),
    ensures
        is_ascii_chars(trim(name)),
        known_request_key(ascii_lower(trim(name))) == Some(k),
{
    let ks = known_request_keys();
    lemma_known_names_plain();
    assert(is_ascii_chars(ks[ks.index_of(k)].name_view()));
    let t = trim(name);
    let n = k.name_view();
    assert(ascii_lower(t).len() == t.len() && ascii_lower(n).len() == n.len());
    assert forall|j: int| 0 <= j < t.len() implies '\0' <= #[trigger] t[j] <= '\u{7f}' by {
        assert(ascii_lower(t)[j] == ascii_lower(n)[j]);
        assert(n[j] <= '\u{7f}');
        assert(crate::text::ascii_lower_char(n[j]) <= '\u{7f}');
    }
    lemma_known_key_from_lower(k, ascii_lower(trim(name)));
}

/// The lookup round-trips on well-known keys: a well-known key's canonical
/// name is ASCII with no surrounding whitespace, and its lowercase form finds
/// that key, so `key_for` gives the key back and with it the same name.
pub proof fn lemma_key_for_round_trip(k: HttpRequestHeaderKey)
    requires
        known_request_keys().contains(k),
    ensures
        trim(k.name_view()) == k.name_view(),
        is_ascii_chars(k.name_view()),
        known_request_key(ascii_lower(k.name_view())) == Some(k),
{
    let ks = known_request_keys();
    lemma_known_names_plain();
    assert(ks[ks.index_of(k)] == k);
    lemma_known_key_from_lower(k, ascii_lower(k.name_view()));
}

/// A wire name that matches no well-known key gives a custom key named by
/// the trimmed wire name exactly, its case kept.
pub proof fn lemma_key_for_unknown(name: Seq<char>, r: HttpRequestHeaderKey)
    requires
        known_request_key(lower_of(trim(name))) is None,
        is_key_for(name, r),
    ensures
        r is Custom,
        r.name_view() == trim(name),
        key_name_for(name) == trim(name),
{
}

impl HttpRequestHeaderKey {
    /// The well-known request keys, in lookup order.
    fn known_keys() -> (r: Vec<HttpRequestHeaderKey>)
        ensures
            r@ == known_request_keys(),
    {
        let r = vec![
            HttpRequestHeaderKey::Accept,
            HttpRequestHeaderKey::AcceptEncoding,
            HttpRequestHeaderKey::AcceptLanguage,
            HttpRequestHeaderKey::Authorization,
            HttpRequestHeaderKey::Host,
            HttpRequestHeaderKey::CacheControl,
            HttpRequestHeaderKey::ContentType,
            HttpRequestHeaderKey::ContentLength,
            HttpRequestHeaderKey::Cookie,
            HttpRequestHeaderKey::Origin,
            HttpRequestHeaderKey::Referer,
            HttpRequestHeaderKey::UserAgent,
        ];
        assert(r@ =~= known_request_keys());
        r
    }

    /// The key for a wire name: the well-known key whose name matches the
    /// trimmed `name` in any ASCII case, or else a custom key holding the
    /// trimmed `name` as it is.
    pub fn key_for(name: &str) -> (r: HttpRequestHeaderKey)
        ensures
            is_key_for(name@, r),
            r.name_view() == key_name_for(name@),
            is_ascii_chars(trim(name@)) ==> lower_of(trim(name@)) == ascii_lower(trim(name@)),
    {
        let trimmed = trim_str(name);
        let lower = to_lower(trimmed);
        proof {
            lemma_known_names_plain();
        }
        let mut keys = Self::known_keys();
        let ghost all = keys@;
        let mut i: usize = 0;
        assert(all.skip(0) =~= all);
        while i < keys.len()
            invariant
                keys@ == all,
                all == known_request_keys(),
                i <= all.len(),
                lower@ == lower_of(trim(name@)),
                is_ascii_chars(trim(name@)) ==> lower@ == ascii_lower(trim(name@)),
                forall|j: int| 0 <= j < all.len() ==> is_ascii_chars(#[trigger] all[j].name_view()),
                known_request_key(lower@) == first_key_with_lower_name(all.skip(i as int), lower@),
            decreases all.len() - i,
        {
            let candidate = to_lower(keys[i].wire_name());
            assert(all.skip(i as int).drop_first() =~= all.skip(i + 1));
            if str_eq(candidate.as_str(), lower.as_str()) {
                return keys.remove(i);
            }
            i += 1;
        }
        HttpRequestHeaderKey::Custom(trimmed.to_owned())
    }
}

} // verus!
