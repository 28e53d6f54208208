//! Decoding of urlencoded form bodies and query strings into the
//! service's input values.

use vstd::prelude::*;

verus! {

use vstd::string::StringExecFns;
use vstd::string::StringSliceAdditionalSpecFns;
use crate::messages::NewMessage;
use crate::messages::TimeRange;
use crate::num::is_i64_string;
use crate::num::i64_string_val;
use crate::num::parse_i64;
use crate::strutil::str_eq;

/// The (name, value) pairs that a urlencoded byte string denotes, names
/// and values decoded.
pub uninterp spec fn form_pairs_of(b: Seq<u8>) -> Seq<(Seq<char>, Seq<char>)>;

/// Relies on `url::form_urlencoded::parse`: it splits the input on `&`,
/// drops empty pieces, splits each piece at its first `=` into a name and
/// a value (an absent `=` gives an empty value), and percent-decodes both
/// with `+` standing for a space. The result depends on the input bytes
/// alone, and an empty input gives no pairs.
#[verifier::external_body]
fn parse_pairs(input: &[u8]) -> (r: Vec<(String, String)>)
    ensures
        r.deep_view() == form_pairs_of(input@),
        input@.len() == 0 ==> r.deep_view().len() == 0,
{
    url::form_urlencoded::parse(input).into_owned().collect()
}

/// The value under a name, later pairs overriding earlier ones, as
/// collecting the pairs into a map would have it.
pub open spec fn lookup(pairs: Seq<(Seq<char>, Seq<char>)>, key: Seq<char>) -> Option<Seq<char>>
    decreases pairs.len(),
{
    if pairs.len() == 0 {
        None
    } else if pairs.last().0 == key {
        Some(pairs.last().1)
    } else {
        lookup(pairs.drop_last(), key)
    }
}

/// Find the value stored under `key`, the last occurrence winning.
fn find_value(pairs: &Vec<(String, String)>, key: &str) -> (r: Option<String>)
    ensures
        match r {
            Some(v) => lookup(pairs.deep_view(), key@) == Some(v@),
            None => lookup(pairs.deep_view(), key@) is None,
        },
{
    let ghost all = pairs.deep_view();
    let mut i: usize = pairs.len();
    proof {
        assert(all.subrange(0, all.len() as int) =~= all);
    }
    while i > 0
        invariant
            i <= pairs@.len(),
            all == pairs.deep_view(),
            all.len() == pairs@.len(),
            lookup(all, key@) == lookup(all.subrange(0, i as int), key@),
        decreases i,
    {
        i -= 1;
        let ghost cur = all.subrange(0, i as int + 1);
        proof {
            assert(cur.drop_last() =~= all.subrange(0, i as int));
            assert(cur.last() == all[i as int]);
            assert(all[i as int] == (pairs@[i as int].0@, pairs@[i as int].1@));
        }
        if str_eq(pairs[i].0.as_str(), key) {
            let v = pairs[i].1.clone();
            return Some(v);
        }
    }
    proof {
        assert(all.subrange(0, 0) =~= Seq::<(Seq<char>, Seq<char>)>::empty());
    }
    None
}

/// Why a form body was rejected.
#[derive(Clone, Copy, PartialEq, Eq, Structural, Debug)]
pub enum FormError {
    MissingMessage,
}

impl FormError {
    /// The text the error envelope carries.
    pub fn message(&self) -> (r: String)
        ensures
            r@ == "Missing field 'message'"@,
    {
        String::from_str("Missing field 'message'")
    }
}

/// The new message a list of form pairs denotes: the text under
/// `message`, the author under `username`, defaulting to `anonymous`;
/// nothing when `message` is absent.
pub open spec fn new_message_of(pairs: Seq<(Seq<char>, Seq<char>)>) -> Option<
    (Seq<char>, Seq<char>),
> {
    match lookup(pairs, "message"@) {
        Some(msg) => Some(
            (
                match lookup(pairs, "username"@) {
                    Some(u) => u,
                    None => "anonymous"@,
                },
                msg,
            ),
        ),
        None => None,
    }
}

/// Decode a form body into the message to store: the `message` field is
/// required, the `username` field defaults to `anonymous`.
pub fn parse_form(body: &[u8]) -> (r: Result<NewMessage, FormError>)
    ensures
        match r {
            Ok(nm) => new_message_of(form_pairs_of(body@)) == Some((nm.username@, nm.message@)),
            Err(e) => new_message_of(form_pairs_of(body@)) is None && e is MissingMessage,
        },
{
    let pairs = parse_pairs(body);
    match find_value(&pairs, "message") {
        Some(message) => {
            let username = match find_value(&pairs, "username") {
                Some(u) => u,
                None => String::from_str("anonymous"),
            };
            Ok(NewMessage { username, message })
        },
        None => Err(FormError::MissingMessage),
    }
}

/// Why a query string was rejected.
#[derive(Clone, Copy, PartialEq, Eq, Structural, Debug)]
pub enum QueryError {
    BadBefore,
    BadAfter,
}

impl QueryError {
    /// The text the error envelope carries.
    pub fn message(&self) -> (r: String)
        ensures
            self is BadBefore ==> r@ == "Error parsing 'before'"@,
            self is BadAfter ==> r@ == "Error parsing 'after'"@,
    {
        match self {
            QueryError::BadBefore => String::from_str("Error parsing 'before'"),
            QueryError::BadAfter => String::from_str("Error parsing 'after'"),
        }
    }
}

/// The time range a list of query pairs denotes: optional `before` and
/// `after` bounds, each of which must be a 64-bit integer when present.
/// A bad `before` is reported ahead of a bad `after`.
pub open spec fn time_range_of(pairs: Seq<(Seq<char>, Seq<char>)>) -> Result<
    TimeRange,
    QueryError,
> {
    let before = lookup(pairs, "before"@);
    let after = lookup(pairs, "after"@);
    if before matches Some(b) && !is_i64_string(b) {
        Err(QueryError::BadBefore)
    } else if after matches Some(a) && !is_i64_string(a) {
        Err(QueryError::BadAfter)
    } else {
        Ok(
            TimeRange {
                before: match before {
                    Some(b) => Some(i64_string_val(b) as i64),
                    None => None,
                },
                after: match after {
                    Some(a) => Some(i64_string_val(a) as i64),
                    None => None,
                },
            },
        )
    }
}

/// Decode a query string into its time range: `before` and `after` are
/// optional 64-bit integers.
pub fn parse_query(query: &str) -> (r: Result<TimeRange, QueryError>)
    ensures
        r == time_range_of(form_pairs_of(query.spec_bytes())),
{
    let pairs = parse_pairs(query.as_bytes());
    let before: Option<i64> = match find_value(&pairs, "before") {
        Some(v) => match parse_i64(v.as_str()) {
            Some(n) => Some(n),
            None => {
                return Err(QueryError::BadBefore);
            },
        },
        None => None,
    };
    let after: Option<i64> = match find_value(&pairs, "after") {
        Some(v) => match parse_i64(v.as_str()) {
            Some(n) => Some(n),
            None => {
                return Err(QueryError::BadAfter);
            },
        },
        None => None,
    };
    Ok(TimeRange { before, after })
}

} // verus!
