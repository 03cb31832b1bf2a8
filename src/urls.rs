use vstd::prelude::*;

use crate::text::str_eq;

verus! {

#[verifier::external_type_specification]
#[verifier::external_body]
pub struct ExParseError(url::ParseError);

/// Whether `url::Url::parse` accepts a string as an absolute URL.
pub uninterp spec fn url_accepted(uri: Seq<char>) -> bool;

/// The decoded name/value pairs that `url::Url::query_pairs` yields, in
/// order, for the URL that `uri` parses to.
pub uninterp spec fn query_pairs_of(uri: Seq<char>) -> Seq<(Seq<char>, Seq<char>)>;

/// Relies on `url::Url::parse`, whose success depends on the text alone,
/// and on `url::Url::query_pairs`, which decodes the query string of the
/// parsed URL into name/value pairs, in order.
#[verifier::external_body]
fn parse_query(uri: &str) -> (r: Result<Vec<(String, String)>, url::ParseError>)
    ensures
        r is Ok == url_accepted(uri@),
        r matches Ok(v) ==> v.deep_view() == query_pairs_of(uri@),
{
    let url = url::Url::parse(uri)?;
    Ok(url.query_pairs().map(|(k, v)| (k.into_owned(), v.into_owned())).collect())
}

/// The value of the last pair named `key`, if any: with a name given twice,
/// the later value wins.
pub open spec fn last_value_of(pairs: Seq<(Seq<char>, Seq<char>)>, key: Seq<char>) -> Option<Seq<char>>
    decreases pairs.len(),
{
    if pairs.len() == 0 {
        None
    } else if pairs.last().0 == key {
        Some(pairs.last().1)
    } else {
        last_value_of(pairs.drop_last(), key)
    }
}

/// The value of a query pair among decoded pairs, as `last_value_of` picks it.
pub fn pair_value(pairs: &Vec<(String, String)>, key: &str) -> (r: Option<String>)
    ensures
        r.deep_view() == last_value_of(pairs.deep_view(), key@),
{
    let mut i: usize = pairs.len();
    assert(pairs.deep_view().take(i as int) =~= pairs.deep_view());
    while i > 0
        invariant
            i <= pairs.len(),
            last_value_of(pairs.deep_view(), key@) == last_value_of(pairs.deep_view().take(i as int), key@),
        decreases i,
    {
        let ghost p = pairs.deep_view().take(i as int);
        assert(p.drop_last() =~= pairs.deep_view().take(i - 1));
        assert(p.last() == pairs@[i - 1].deep_view());
        if str_eq(pairs[i - 1].0.as_str(), key) {
            return Some(pairs[i - 1].1.clone());
        }
        i = i - 1;
    }
    None
}

/// The value of the query parameter `key` of the URL `uri`: `Ok(None)` when
/// it has none, and the URL parser's error when `uri` is not an absolute URL.
pub fn get_query_param(uri: &str, key: &str) -> (r: Result<Option<String>, url::ParseError>)
    ensures
        r is Ok == url_accepted(uri@),
        r matches Ok(v) ==> v.deep_view() == last_value_of(query_pairs_of(uri@), key@),
{
    let pairs = parse_query(uri)?;
    Ok(pair_value(&pairs, key))
}

} // verus!
