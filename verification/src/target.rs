//! Where the script is fetched from: the address of the page names, in its
//! query, the script (`zone`) and the key of the session (`session`).

use vstd::prelude::*;

verus! {

/// A URL of the `url` crate; nothing is known of what is inside it.
#[verifier::external_type_specification]
#[verifier::external_body]
pub struct ExUrl(url::Url);

/// The error of the `url` crate; nothing is known of what is inside it.
#[verifier::external_type_specification]
#[verifier::external_body]
pub struct ExParseError(url::ParseError);

/// The text that a URL is written as: what `Url::as_str` returns.
pub uninterp spec fn url_text(url: url::Url) -> Seq<char>;

/// The URL, as text, that `Url::parse` reads from `input`; `None` where it
/// reads none.
pub uninterp spec fn parsed_url(input: Seq<char>) -> Option<Seq<char>>;

/// The key and value pairs that `Url::query_pairs` finds in the query of the
/// URL `url`, in order.
pub uninterp spec fn query_of(url: Seq<char>) -> Seq<(Seq<char>, Seq<char>)>;

/// The URL `url` after `Url::set_query` has cleared its query.
pub uninterp spec fn without_query(url: Seq<char>) -> Seq<char>;

/// The URL `url` after `Url::set_fragment` has cleared its fragment.
pub uninterp spec fn without_fragment(url: Seq<char>) -> Seq<char>;

/// The URL that `Url::join` reads from `input` with `base` as its base;
/// `None` where it reads none.
pub uninterp spec fn joined_url(base: Seq<char>, input: Seq<char>) -> Option<Seq<char>>;

/// `Url::parse`: the result is a function of the input alone. Nothing is
/// said of which inputs are URLs.
#[verifier::external_body]
fn parse(input: &str) -> (r: Result<url::Url, url::ParseError>)
    ensures
        match r {
            Ok(url) => parsed_url(input@) == Some(url_text(url)),
            Err(_) => parsed_url(input@) is None,
        },
{
    url::Url::parse(input)
}

/// `Url::query_pairs`: the pairs are a function of the URL alone. Each key
/// and value is handed out as a string of its own.
#[verifier::external_body]
fn query_pairs(url: &url::Url) -> (r: Vec<(String, String)>)
    ensures
        pair_views(r@) == query_of(url_text(*url)),
{
    url.query_pairs().map(|(key, value)| (key.into_owned(), value.into_owned())).collect()
}

/// `Url::set_query` with no query: the URL that is left is a function of
/// the URL before.
#[verifier::external_body]
fn clear_query(url: &mut url::Url)
    ensures
        url_text(*final(url)) == without_query(url_text(*old(url))),
{
    url.set_query(None)
}

/// `Url::set_fragment` with no fragment: the URL that is left is a function
/// of the URL before.
#[verifier::external_body]
fn clear_fragment(url: &mut url::Url)
    ensures
        url_text(*final(url)) == without_fragment(url_text(*old(url))),
{
    url.set_fragment(None)
}

/// `Url::join`: the result is a function of the base and the input alone.
#[verifier::external_body]
fn join(base: &url::Url, input: &str) -> (r: Result<url::Url, url::ParseError>)
    ensures
        match r {
            Ok(url) => joined_url(url_text(*base), input@) == Some(url_text(url)),
            Err(_) => joined_url(url_text(*base), input@) is None,
        },
{
    base.join(input)
}

/// `Url::as_str`: the text that the URL is written as, as a string of its
/// own.
#[verifier::external_body]
fn text_of(url: &url::Url) -> (r: String)
    ensures
        r@ == url_text(*url),
{
    url.as_str().to_string()
}

/// The pairs with each key and value as its characters.
pub open spec fn pair_views(pairs: Seq<(String, String)>) -> Seq<(Seq<char>, Seq<char>)> {
    Seq::new(pairs.len(), |i: int| (pairs[i].0@, pairs[i].1@))
}

/// The value of the last pair whose key is `key`; `fallback` where no pair
/// has the key.
pub open spec fn last_value(
    pairs: Seq<(Seq<char>, Seq<char>)>,
    key: Seq<char>,
    fallback: Seq<char>,
) -> Seq<char>
    decreases pairs.len(),
{
    if pairs.len() == 0 {
        fallback
    } else if pairs.last().0 == key {
        pairs.last().1
    } else {
        last_value(pairs.drop_last(), key, fallback)
    }
}

/// The value of the last pair whose key is `key`; `fallback` where no pair
/// has the key.
pub fn query_value(pairs: &Vec<(String, String)>, key: &str, fallback: &str) -> (r: String)
    ensures
        r@ == last_value(pair_views(pairs@), key@, fallback@),
{
    let wanted = key.to_string();
    let mut i: usize = pairs.len();
    assert(pair_views(pairs@).take(i as int) =~= pair_views(pairs@));
    while i > 0
        invariant
            i <= pairs@.len(),
            wanted@ == key@,
            last_value(pair_views(pairs@), key@, fallback@) == last_value(
                pair_views(pairs@).take(i as int),
                key@,
                fallback@,
            ),
        decreases i,
    {
        proof {
            let head = pair_views(pairs@).take(i as int);
            assert(head.drop_last() =~= pair_views(pairs@).take(i - 1));
            assert(head.last() == (pairs@[i - 1].0@, pairs@[i - 1].1@));
        }
        if pairs[i - 1].0 == wanted {
            return pairs[i - 1].1.clone();
        }
        i -= 1;
    }
    fallback.to_string()
}

/// Why no script can be fetched.
pub enum TargetError {
    /// The address of the page is no URL.
    Document(url::ParseError),
    /// The script named in the query gives no URL.
    Zone(url::ParseError),
}

/// The script's place relative to the page, as the query names it under
/// `zone`; `static/index.zone` where it names none.
pub open spec fn zone_path(pairs: Seq<(Seq<char>, Seq<char>)>) -> Seq<char> {
    last_value(pairs, "zone"@, "static/index.zone"@)
}

/// The key of the session, as the query names it under `session`;
/// `session` where it names none.
pub open spec fn session_name(pairs: Seq<(Seq<char>, Seq<char>)>) -> Seq<char> {
    last_value(pairs, "session"@, "session"@)
}

/// From the address of the page, the URL of the script and the key of the
/// session. The script's URL is the page's, without query and fragment,
/// joined with the script's place.
pub fn build_target_zone(document_url: &str) -> (r: Result<(String, String), TargetError>)
    ensures
        match parsed_url(document_url@) {
            None => r is Err && r->Err_0 is Document,
            Some(page) => match joined_url(
                without_fragment(without_query(page)),
                zone_path(query_of(page)),
            ) {
                None => r is Err && r->Err_0 is Zone,
                Some(target) => r matches Ok((address, session)) && address@ == target
                    && session@ == session_name(query_of(page)),
            },
        },
{
    let mut url = match parse(document_url) {
        Ok(url) => url,
        Err(e) => {
            return Err(TargetError::Document(e));
        },
    };
    let query = query_pairs(&url);
    let path = query_value(&query, "zone", "static/index.zone");
    let session = query_value(&query, "session", "session");
    clear_query(&mut url);
    clear_fragment(&mut url);
    match join(&url, path.as_str()) {
        Ok(target) => Ok((text_of(&target), session)),
        Err(e) => Err(TargetError::Zone(e)),
    }
}

} // verus!
