//! The origins from which browsers may call.

use crate::text;
use crate::uri::{self, Parts, UriParts};
use vstd::prelude::*;
use vstd::string::*;

verus! {

/// What is wrong with an origin.
#[derive(Debug, Clone, Copy, PartialEq, Eq, Structural)]
pub enum CorsFault {
    Wildcard,
    InvalidOrigin,
    NotExact,
    InvalidHeader,
}

/// An origin that cannot be allowed.
#[derive(Debug)]
pub struct CorsError {
    pub fault: CorsFault,
    pub origin: String,
}

/// What to tell the operator.
pub open spec fn cors_message(fault: CorsFault, origin: Seq<char>) -> Seq<char> {
    match fault {
        CorsFault::Wildcard => "CORS_ORIGINS must not contain a wildcard"@,
        CorsFault::InvalidOrigin => "invalid CORS origin: "@ + origin,
        CorsFault::NotExact =>
            "CORS origin must be an exact http(s) origin without a path: "@ + origin,
        CorsFault::InvalidHeader => "invalid CORS origin header: "@ + origin,
    }
}

impl CorsError {
    /// What to tell the operator.
    pub fn message(&self) -> (r: String)
        ensures
            r@ == cors_message(self.fault, self.origin@),
    {
        let origin: &str = self.origin.as_str();
        match self.fault {
            CorsFault::Wildcard => "CORS_ORIGINS must not contain a wildcard".to_owned(),
            CorsFault::InvalidOrigin => text::followed_by("invalid CORS origin: ", origin),
            CorsFault::NotExact => text::followed_by(
                "CORS origin must be an exact http(s) origin without a path: ",
                origin,
            ),
            CorsFault::InvalidHeader => text::followed_by("invalid CORS origin header: ", origin),
        }
    }
}

/// Whether a URI is an `http` or `https` origin and nothing more.
pub open spec fn exact_origin(parts: Parts) -> bool {
    &&& parts.scheme == Some("http"@) || parts.scheme == Some("https"@)
    &&& parts.has_authority
    &&& parts.path == "/"@
    &&& parts.query is None
}

/// What is wrong with an origin that reads as `parsed`, if anything. A wildcard is one wherever
/// it stands.
pub open spec fn origin_fault(origin: Seq<char>, parsed: Option<Parts>) -> Option<CorsFault> {
    if origin.contains('*') {
        Some(CorsFault::Wildcard)
    } else {
        match parsed {
            None => Some(CorsFault::InvalidOrigin),
            Some(parts) => if !exact_origin(parts) {
                Some(CorsFault::NotExact)
            } else if !uri::header_text(origin) {
                Some(CorsFault::InvalidHeader)
            } else {
                None
            },
        }
    }
}

/// What is wrong with an origin that reads as `parsed`, if anything.
pub fn check_cors_origin(origin: &str, parsed: &Option<UriParts>) -> (r: Option<CorsFault>)
    ensures
        r == origin_fault(origin@, uri::opt_parts(*parsed)),
{
    if text::contains_char(origin, '*') {
        return Some(CorsFault::Wildcard);
    }
    match parsed {
        None => Some(CorsFault::InvalidOrigin),
        Some(parts) => {
            if !(uri::is_text(&parts.scheme, "http") || uri::is_text(&parts.scheme, "https"))
                || !parts.has_authority || *parts.path.as_str() != *"/" || parts.query.is_some() {
                Some(CorsFault::NotExact)
            } else if !uri::is_header_text(origin) {
                Some(CorsFault::InvalidHeader)
            } else {
                None
            }
        },
    }
}

/// The origin, where it can be allowed.
pub fn parse_cors_origin(origin: &str) -> (r: Result<String, CorsError>)
    ensures
        match r {
            Ok(allowed) => allowed@ == origin@ && origin_fault(origin@, uri::uri_of(origin@)) is None,
            Err(e) => e.origin@ == origin@ && origin_fault(origin@, uri::uri_of(origin@)) == Some(
                e.fault,
            ),
        },
{
    let parsed: Option<UriParts> = uri::parse_uri(origin);
    match check_cors_origin(origin, &parsed) {
        None => Ok(origin.to_owned()),
        Some(fault) => Err(CorsError { fault, origin: origin.to_owned() }),
    }
}

/// The first of `origins` that cannot be allowed, and why.
pub open spec fn first_fault(origins: Seq<Seq<char>>) -> Option<(CorsFault, Seq<char>)>
    decreases origins.len(),
{
    if origins.len() == 0 {
        None
    } else {
        match first_fault(origins.drop_last()) {
            Some(found) => Some(found),
            None => match origin_fault(origins.last(), uri::uri_of(origins.last())) {
                Some(fault) => Some((fault, origins.last())),
                None => None,
            },
        }
    }
}

/// `items` without those that occurred before.
pub open spec fn first_occurrences<T>(items: Seq<T>) -> Seq<T>
    decreases items.len(),
{
    if items.len() == 0 {
        Seq::empty()
    } else {
        let before = first_occurrences(items.drop_last());
        if items.drop_last().contains(items.last()) {
            before
        } else {
            before.push(items.last())
        }
    }
}

/// The first occurrences are the same items, each once.
pub proof fn lemma_first_occurrences<T>(items: Seq<T>)
    ensures
        first_occurrences(items).no_duplicates(),
        forall|x: T| #[trigger] first_occurrences(items).contains(x) == items.contains(x),
    decreases items.len(),
{
    if items.len() > 0 {
        let short = items.drop_last();
        let before = first_occurrences(short);
        let after = first_occurrences(items);
        lemma_first_occurrences(short);
        assert(short.push(items.last()) =~= items);
        assert forall|x: T| #[trigger] after.contains(x) == items.contains(x) by {
            assert(items[items.len() - 1] == items.last());
            if items.contains(x) && x != items.last() {
                let i = choose|i: int| 0 <= i < items.len() && items[i] == x;
                assert(short[i] == x);
                assert(before.contains(x));
                let j = choose|j: int| 0 <= j < before.len() && before[j] == x;
                assert(after[j] == x);
            }
            if x == items.last() {
                if short.contains(x) {
                    assert(before.contains(x));
                } else {
                    assert(after[after.len() - 1] == x);
                }
            }
            if after.contains(x) {
                let j = choose|j: int| 0 <= j < after.len() && after[j] == x;
                if j < before.len() {
                    assert(before[j] == x);
                    assert(before.contains(x));
                    let i = choose|i: int| 0 <= i < short.len() && short[i] == x;
                    assert(items[i] == x);
                }
            }
        }
        assert(after.no_duplicates()) by {
            if !short.contains(items.last()) {
                assert(!before.contains(items.last()));
                assert forall|i: int, j: int|
                    0 <= i < after.len() && 0 <= j < after.len() && i != j implies after[i]
                    != after[j] by {
                    if i == before.len() {
                        assert(before.contains(before[j]));
                    } else if j == before.len() {
                        assert(before.contains(before[i]));
                    }
                }
            }
        }
    }
}

/// The texts of `strings`.
pub open spec fn string_texts(strings: Seq<String>) -> Seq<Seq<char>> {
    strings.map_values(|s: String| s@)
}

fn is_listed(list: &Vec<String>, item: &str) -> (r: bool)
    ensures
        r == string_texts(list@).contains(item@),
{
    let mut i: usize = 0;
    while i < list.len()
        invariant
            i <= list.len(),
            forall|j: int| 0 <= j < i ==> #[trigger] string_texts(list@)[j] != item@,
        decreases list.len() - i,
    {
        if *list[i].as_str() == *item {
            proof {
                assert(string_texts(list@)[i as int] == item@);
            }
            return true;
        }
        i += 1;
    }
    false
}

/// The origins that a comma-separated list names, each once; the first one that cannot be
/// allowed is a fault.
pub fn parse_cors_origins(raw: &str) -> (r: Result<Vec<String>, CorsError>)
    ensures
        match r {
            Ok(origins) => first_fault(text::entries(raw@)) is None && string_texts(origins@)
                == first_occurrences(text::entries(raw@)),
            Err(e) => first_fault(text::entries(raw@)) == Some((e.fault, e.origin@)),
        },
{
    let named: Vec<&str> = text::list_entries(raw);
    let ghost all = text::entries(raw@);
    let mut out: Vec<String> = Vec::new();
    let mut i: usize = 0;
    proof {
        assert(all.take(0) =~= Seq::<Seq<char>>::empty());
        assert(string_texts(out@) =~= Seq::<Seq<char>>::empty());
    }
    let mut fault: Option<CorsError> = None;
    while i < named.len() && fault.is_none()
        invariant
            i <= named.len(),
            all == text::entries(raw@),
            all == text::texts(named@),
            match fault {
                None => first_fault(all.take(i as int)) is None,
                Some(e) => first_fault(all.take(i as int)) == Some((e.fault, e.origin@)),
            },
            fault is None ==> string_texts(out@) == first_occurrences(all.take(i as int)),
        decreases named.len() - i,
    {
        let origin: &str = named[i];
        let ghost before = string_texts(out@);
        proof {
            assert(all[i as int] == origin@);
            assert(all.take(i + 1).drop_last() =~= all.take(i as int));
            assert(all.take(i + 1).last() == origin@);
            lemma_first_occurrences(all.take(i as int));
            assert(first_occurrences(all.take(i as int)).contains(origin@) == all.take(
                i as int,
            ).contains(origin@));
        }
        match parse_cors_origin(origin) {
            Ok(allowed) => {
                if !is_listed(&out, allowed.as_str()) {
                    out.push(allowed);
                    proof {
                        assert(string_texts(out@) =~= before.push(origin@));
                    }
                }
            },
            Err(e) => {
                fault = Some(e);
            },
        }
        i += 1;
    }
    match fault {
        Some(e) => {
            proof {
                lemma_first_fault_prefix(all, i as int);
            }
            Err(e)
        },
        None => {
            proof {
                assert(all.take(i as int) =~= all);
            }
            Ok(out)
        },
    }
}

proof fn lemma_first_fault_prefix(origins: Seq<Seq<char>>, n: int)
    requires
        0 <= n <= origins.len(),
        first_fault(origins.take(n)) is Some,
    ensures
        first_fault(origins) == first_fault(origins.take(n)),
    decreases origins.len(),
{
    if n == origins.len() {
        assert(origins.take(n) =~= origins);
    } else {
        assert(origins.drop_last().take(n) =~= origins.take(n));
        lemma_first_fault_prefix(origins.drop_last(), n);
    }
}

/// Every origin in a list without a fault is an exact `http` or `https` origin, and holds no
/// wildcard.
pub proof fn allowed_origins_are_exact(origins: Seq<Seq<char>>, i: int)
    requires
        first_fault(origins) is None,
        0 <= i < origins.len(),
    ensures
        !origins[i].contains('*'),
        uri::uri_of(origins[i]) matches Some(parts) && exact_origin(parts),
        uri::header_text(origins[i]),
    decreases origins.len(),
{
    if i < origins.len() - 1 {
        allowed_origins_are_exact(origins.drop_last(), i);
    }
}

} // verus!
