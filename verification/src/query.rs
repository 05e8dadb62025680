//! The query builder: a pure function from a series key and a set of
//! optional filter parameters to the fully qualified request URL of the
//! remote statistical data service.
//!
//! Parameter values are substituted into the query string verbatim, as
//! the remote service's own documentation shows them; no URL encoding
//! is applied, so a caller must supply values that are already valid in
//! a query string.

use vstd::prelude::*;

use crate::errors::EcbError;
use crate::spec_entrypoint;
use crate::entrypoint;
use crate::strutil::contains_char;
use crate::strutil::find_char;
use crate::strutil::index_of_char;
use crate::strutil::lemma_contains_find;
use crate::strutil::lemma_find_char;

verus! {

/// The optional filters of a data query. Every field is optional;
/// a present field contributes one `&name=value` fragment to the query
/// string, an absent one contributes nothing.
pub struct QueryParameters {
    pub start_period: Option<String>,
    pub end_period: Option<String>,
    pub detail: Option<String>,
    pub updated_after: Option<String>,
    pub first_n_observations: Option<String>,
    pub last_n_observations: Option<String>,
    pub include_history: bool,
}

impl QueryParameters {
    /// The parameter set with every filter absent.
    pub open spec fn spec_none() -> QueryParameters {
        QueryParameters {
            start_period: None,
            end_period: None,
            detail: None,
            updated_after: None,
            first_n_observations: None,
            last_n_observations: None,
            include_history: false,
        }
    }

    /// Returns the parameter set with every filter absent.
    pub fn none() -> (r: QueryParameters)
        ensures
            r == QueryParameters::spec_none(),
    {
        QueryParameters {
            start_period: None,
            end_period: None,
            detail: None,
            updated_after: None,
            first_n_observations: None,
            last_n_observations: None,
            include_history: false,
        }
    }
}

/// The database segment of a delimited series key: everything before
/// the first `.`.
pub open spec fn spec_database(key: Seq<char>) -> Seq<char> {
    key.take(find_char(key, '.'))
}

/// The ticker segment of a delimited series key: everything after the
/// first `.`.
pub open spec fn spec_ticker(key: Seq<char>) -> Seq<char> {
    key.skip(find_char(key, '.') + 1)
}

/// The fragment contributed by one optional parameter: its
/// `&name=` prefix followed by the value when present, nothing when
/// absent.
pub open spec fn opt_fragment(prefix: Seq<char>, v: Option<Seq<char>>) -> Seq<char> {
    match v {
        Some(s) => prefix + s,
        None => Seq::empty(),
    }
}

/// The base URL of a query: the fixed entrypoint, the data path with
/// the two key segments, and the CSV format selector.
pub open spec fn spec_base_url(key: Seq<char>) -> Seq<char> {
    spec_entrypoint() + "/service/data/"@ + spec_database(key) + "/"@ + spec_ticker(key)
        + "?format=csvdata"@
}

/// The fragment of the start-period filter.
pub open spec fn frag_start(p: QueryParameters) -> Seq<char> {
    opt_fragment("&startPeriod="@, p.start_period.deep_view())
}

/// The fragment of the end-period filter.
pub open spec fn frag_end(p: QueryParameters) -> Seq<char> {
    opt_fragment("&endPeriod="@, p.end_period.deep_view())
}

/// The fragment of the detail-level filter.
pub open spec fn frag_detail(p: QueryParameters) -> Seq<char> {
    opt_fragment("&detail="@, p.detail.deep_view())
}

/// The fragment of the updated-after filter.
pub open spec fn frag_updated(p: QueryParameters) -> Seq<char> {
    opt_fragment("&updatedAfter="@, p.updated_after.deep_view())
}

/// The fragment of the first-N-observations filter.
pub open spec fn frag_first(p: QueryParameters) -> Seq<char> {
    opt_fragment("&firstNObservations="@, p.first_n_observations.deep_view())
}

/// The fragment of the last-N-observations filter.
pub open spec fn frag_last(p: QueryParameters) -> Seq<char> {
    opt_fragment("&lastNObservations="@, p.last_n_observations.deep_view())
}

/// The fragment of the include-history flag.
pub open spec fn frag_history(p: QueryParameters) -> Seq<char> {
    if p.include_history {
        "&includeHistory=true"@
    } else {
        Seq::empty()
    }
}

/// The full query URL of a delimited series key and a parameter set:
/// the base URL followed by the optional fragments in their fixed
/// order.
pub open spec fn spec_query_url(key: Seq<char>, p: QueryParameters) -> Seq<char> {
    spec_base_url(key) + frag_start(p) + frag_end(p) + frag_detail(p) + frag_updated(p)
        + frag_first(p) + frag_last(p) + frag_history(p)
}

/// Appends the fragment of one optional parameter: the `&name=` prefix
/// and the value when the parameter is present, nothing when absent.
fn append_opt(url: &mut String, prefix: &str, v: &Option<String>)
    ensures
        final(url)@ == old(url)@ + opt_fragment(prefix@, v.deep_view()),
{
    match v {
        Some(s) => {
            url.append(prefix);
            url.append(s.as_str());
            proof {
                assert(old(url)@ + prefix@ + s@ =~= old(url)@ + (prefix@ + s@));
            }
        },
        None => {
            proof {
                assert(url@ =~= old(url)@ + Seq::<char>::empty());
            }
        },
    }
}

/// Builds the request URL for one series key and one set of optional
/// filters. Succeeds exactly when the key contains a `.` delimiter;
/// a key without one is rejected before any request could be made.
pub fn build_query_url(series_key: &str, params: &QueryParameters) -> (r: Result<
    String,
    EcbError,
>)
    ensures
        r is Ok <==> contains_char(series_key@, '.'),
        r matches Ok(url) ==> url@ == spec_query_url(series_key@, *params),
        r matches Err(e) ==> e == EcbError::InvalidSeriesKey,
{
    proof {
        lemma_contains_find(series_key@, '.');
    }
    match index_of_char(series_key, '.') {
        None => Err(EcbError::InvalidSeriesKey),
        Some(i) => {
            proof {
                lemma_find_char(series_key@, '.');
            }
            let n = series_key.unicode_len();
            let db = series_key.substring_char(0, i);
            let ticker = series_key.substring_char(i + 1, n);
            let mut url = String::new();
            url.append(entrypoint());
            proof {
                assert(url@ =~= spec_entrypoint());
            }
            url.append("/service/data/");
            url.append(db);
            url.append("/");
            url.append(ticker);
            url.append("?format=csvdata");
            proof {
                assert(url@ == spec_base_url(series_key@));
            }
            append_opt(&mut url, "&startPeriod=", &params.start_period);
            append_opt(&mut url, "&endPeriod=", &params.end_period);
            append_opt(&mut url, "&detail=", &params.detail);
            append_opt(&mut url, "&updatedAfter=", &params.updated_after);
            append_opt(&mut url, "&firstNObservations=", &params.first_n_observations);
            append_opt(&mut url, "&lastNObservations=", &params.last_n_observations);
            if params.include_history {
                url.append("&includeHistory=true");
            } else {
                proof {
                    assert(url@ =~= url@ + Seq::<char>::empty());
                }
            }
            proof {
                assert(url@ == spec_query_url(series_key@, *params));
            }
            Ok(url)
        },
    }
}

/// Law: splitting a delimited key on its first delimiter and rejoining
/// the database and ticker segments with `.` reconstructs the key, and
/// every built URL begins with the fixed entrypoint followed by
/// `/service/data/{database}/{ticker}`, whatever the parameters.
pub proof fn lemma_split_reconstructs_and_url_prefix(key: Seq<char>, p: QueryParameters)
    requires
        contains_char(key, '.'),
    ensures
        spec_database(key) + seq!['.'] + spec_ticker(key) == key,
        ({
            let prefix = spec_entrypoint() + "/service/data/"@ + spec_database(key) + "/"@
                + spec_ticker(key);
            spec_query_url(key, p).take(prefix.len() as int) == prefix
        }),
{
    lemma_contains_find(key, '.');
    lemma_find_char(key, '.');
    let i = find_char(key, '.');
    assert(spec_database(key) + seq!['.'] + spec_ticker(key) =~= key);
    let prefix = spec_entrypoint() + "/service/data/"@ + spec_database(key) + "/"@ + spec_ticker(
        key,
    );
    assert(spec_query_url(key, p).take(prefix.len() as int) =~= prefix);
}

/// Law: the built URL decomposes as the base URL followed by the
/// fragments of the seven optional parameters in their fixed order —
/// start period, end period, detail, updated-after, first-N, last-N,
/// include-history. Each fragment is a function of its own parameter
/// alone, so it stands in the same place, and is present exactly when
/// its parameter is supplied, regardless of which other parameters are
/// supplied.
pub proof fn lemma_fragments_fixed_order(key: Seq<char>, p: QueryParameters, q: QueryParameters)
    ensures
        spec_query_url(key, p) == spec_base_url(key) + frag_start(p) + frag_end(p) + frag_detail(p)
            + frag_updated(p) + frag_first(p) + frag_last(p) + frag_history(p),
        frag_start(p).len() > 0 <==> p.start_period is Some,
        frag_end(p).len() > 0 <==> p.end_period is Some,
        frag_detail(p).len() > 0 <==> p.detail is Some,
        frag_updated(p).len() > 0 <==> p.updated_after is Some,
        frag_first(p).len() > 0 <==> p.first_n_observations is Some,
        frag_last(p).len() > 0 <==> p.last_n_observations is Some,
        frag_history(p).len() > 0 <==> p.include_history,
        p.start_period == q.start_period ==> frag_start(p) == frag_start(q),
        p.end_period == q.end_period ==> frag_end(p) == frag_end(q),
        p.detail == q.detail ==> frag_detail(p) == frag_detail(q),
        p.updated_after == q.updated_after ==> frag_updated(p) == frag_updated(q),
        p.first_n_observations == q.first_n_observations ==> frag_first(p) == frag_first(q),
        p.last_n_observations == q.last_n_observations ==> frag_last(p) == frag_last(q),
        p.include_history == q.include_history ==> frag_history(p) == frag_history(q),
{
    reveal_strlit("&startPeriod=");
    reveal_strlit("&endPeriod=");
    reveal_strlit("&detail=");
    reveal_strlit("&updatedAfter=");
    reveal_strlit("&firstNObservations=");
    reveal_strlit("&lastNObservations=");
    reveal_strlit("&includeHistory=true");
}

} // verus!
