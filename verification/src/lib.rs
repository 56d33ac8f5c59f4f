//! Client library for the Shodan REST API: authenticated request-URL
//! construction and typed decoding of JSON response bodies, with API-level
//! errors kept distinct from transport-level ones.
//!
//! Every request is an HTTP GET against a fixed base host; the endpoint
//! path names the operation, the mandatory `key` query parameter carries
//! the credential, and optional parameters follow as further query pairs.
//! Issuing the GET is the caller's affair; this crate builds the URL and
//! decodes the body the wire handed back.

use vstd::prelude::*;

pub mod error;
pub mod params;
pub mod response;
pub mod urlenc;

use crate::params::{insert_pair, ParameterMap};
use crate::urlenc::{encode_form_component, encode_path, form_encoded, path_encoded};
use vstd::string::to_string_from_display_ensures;
use vstd::string::StrSliceExecFns;
use vstd::string::StringExecFns;

verus! {

/// The fixed base of every request URL.
pub open spec fn base_url_chars() -> Seq<char> {
    "https://api.shodan.io"@
}

/// An endpoint path made absolute: a leading slash is added where missing.
pub open spec fn absolute_path(endpoint: Seq<char>) -> Seq<char> {
    if endpoint.len() > 0 && endpoint[0] == '/' {
        endpoint
    } else {
        "/"@ + endpoint
    }
}

/// What one name/value pair contributes to the query string.
pub open spec fn query_pair_chars(p: (Seq<char>, Seq<char>)) -> Seq<char> {
    "&"@ + form_encoded(p.0) + "="@ + form_encoded(p.1)
}

/// The query-string tail holding the extra parameters, in order: each
/// supplied pair contributes its own chunk exactly once.
pub open spec fn query_tail(pairs: Seq<(Seq<char>, Seq<char>)>) -> Seq<char>
    decreases pairs.len(),
{
    if pairs.len() == 0 {
        Seq::<char>::empty()
    } else {
        query_tail(pairs.drop_last()) + query_pair_chars(pairs.last())
    }
}

/// The full request URL: the fixed base host, the percent-encoded
/// absolute endpoint path, exactly one `key` parameter carrying the
/// credential, then every extra parameter pair once, in their order.
pub open spec fn request_url_chars(
    key: Seq<char>,
    endpoint: Seq<char>,
    pairs: Seq<(Seq<char>, Seq<char>)>,
) -> Seq<char> {
    base_url_chars() + path_encoded(absolute_path(endpoint)) + "?key="@ + form_encoded(key)
        + query_tail(pairs)
}

/// Appending a pair extends the query tail by that pair's chunk alone.
pub proof fn lemma_query_tail_push(pairs: Seq<(Seq<char>, Seq<char>)>, p: (Seq<char>, Seq<char>))
    ensures
        query_tail(pairs.push(p)) == query_tail(pairs) + query_pair_chars(p),
{
    assert(pairs.push(p).drop_last() =~= pairs);
    assert(pairs.push(p).last() == p);
}

/// The query string holds each supplied pair exactly once, in order: at
/// every position it splits into the chunks of the earlier pairs, that
/// pair's own chunk, and the chunks of the later pairs.
pub proof fn lemma_query_tail_splits_at(pairs: Seq<(Seq<char>, Seq<char>)>, i: int)
    requires
        0 <= i < pairs.len(),
    ensures
        query_tail(pairs) == query_tail(pairs.take(i)) + query_pair_chars(pairs[i]) + query_tail(
            pairs.skip(i + 1),
        ),
    decreases pairs.len(),
{
    if i == pairs.len() - 1 {
        assert(pairs.take(i) =~= pairs.drop_last());
        assert(pairs.skip(i + 1) =~= Seq::<(Seq<char>, Seq<char>)>::empty());
        assert(query_tail(pairs) =~= query_tail(pairs.take(i)) + query_pair_chars(pairs[i])
            + query_tail(pairs.skip(i + 1)));
    } else {
        let dl = pairs.drop_last();
        lemma_query_tail_splits_at(dl, i);
        assert(dl.take(i) =~= pairs.take(i));
        assert(dl[i] == pairs[i]);
        assert(pairs.skip(i + 1) =~= dl.skip(i + 1).push(pairs.last()));
        lemma_query_tail_push(dl.skip(i + 1), pairs.last());
        assert(query_tail(pairs) =~= query_tail(pairs.take(i)) + query_pair_chars(pairs[i])
            + query_tail(pairs.skip(i + 1)));
    }
}

/// A handle on the Shodan API: holds the caller's API key.
///
/// The client is immutable after construction, so it may be cloned and
/// shared freely across concurrent call sites; each URL built from it is
/// a function of the client's key and that call's own arguments alone.
#[derive(Clone)]
pub struct ShodanClient {
    api_key: String,
}

impl ShodanClient {
    /// The credential this client sends as the `key` query parameter.
    pub closed spec fn key(&self) -> Seq<char> {
        self.api_key@
    }

    pub fn new(api_key: String) -> (client: Self)
        ensures
            client.key() == api_key@,
    {
        Self { api_key }
    }

    /// Build the absolute URL for one request: the fixed base host, the
    /// given endpoint as the path, the client's key, and every supplied
    /// extra parameter, each appended exactly once in the map's order.
    pub fn build_request_url(&self, endpoint: &str, parameters: Option<&ParameterMap>) -> (url:
        String)
        ensures
            url@ == request_url_chars(
                self.key(),
                endpoint@,
                match parameters {
                    Some(m) => m@,
                    None => Seq::<(Seq<char>, Seq<char>)>::empty(),
                },
            ),
    {
        let mut url = String::from_str("https://api.shodan.io");
        let absolute = endpoint.unicode_len() > 0 && endpoint.get_char(0) == '/';
        let encoded_path = if absolute {
            encode_path(endpoint)
        } else {
            let mut p = String::from_str("/");
            p.append(endpoint);
            encode_path(p.as_str())
        };
        url.append(encoded_path.as_str());
        url.append("?key=");
        let encoded_key = encode_form_component(self.api_key.as_str());
        url.append(encoded_key.as_str());
        proof {
            assert(url@ =~= request_url_chars(self.key(), endpoint@, Seq::empty()));
        }
        if let Some(map) = parameters {
            let n = map.len();
            let mut i: usize = 0;
            while i < n
                invariant
                    n == map@.len(),
                    i <= n,
                    url@ == request_url_chars(self.key(), endpoint@, map@.take(i as int)),
                decreases n - i,
            {
                url.append("&");
                let encoded_name = encode_form_component(map.key_at(i).as_str());
                url.append(encoded_name.as_str());
                url.append("=");
                let encoded_value = encode_form_component(map.value_at(i).as_str());
                url.append(encoded_value.as_str());
                proof {
                    assert(map@.take(i + 1).drop_last() =~= map@.take(i as int));
                    assert(map@.take(i + 1).last() == map@[i as int]);
                    assert(url@ =~= request_url_chars(self.key(), endpoint@, map@.take(i + 1)));
                }
                i = i + 1;
            }
            proof {
                assert(map@.take(n as int) =~= map@);
            }
        }
        url
    }
}

/// Put `name` into the map only when the optional value is present,
/// rendered as its text form; a missing value leaves the map untouched.
pub fn add_optional_parameter<T: std::fmt::Display>(
    name: &str,
    param: Option<T>,
    map: &mut ParameterMap,
)
    requires
        old(map).wf(),
    ensures
        final(map).wf(),
        param is None ==> final(map)@ == old(map)@,
        param matches Some(v) ==> exists|s: String|
            #[trigger] to_string_from_display_ensures::<T>(&v, s) && final(map)@ == insert_pair(
                old(map)@,
                name@,
                s@,
            ),
{
    match param {
        Some(value) => {
            let rendered = value.to_string();
            map.insert(name.to_owned(), rendered);
        },
        None => {},
    }
}

} // verus!
