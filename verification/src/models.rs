//! Paging and filters of the API.

use crate::text::{list_items, split_list};
use crate::views;
use vstd::prelude::*;

verus! {

#[derive(Debug, Clone)]
pub struct Page {
    pub limit: Option<i32>,
    pub before: Option<i32>,
    pub after: Option<i32>,
    pub sort: Option<String>,
    pub direction: Option<SortDirection>,
}

#[derive(Debug, PartialEq, Eq, Structural, Clone)]
pub enum SortDirection {
    Ascending,
    Descending,
}

#[derive(Debug)]
pub struct ResultPage<T> {
    pub total: i64,
    pub records: Vec<T>,
}

#[derive(Debug, Clone)]
pub struct OriginFilter {
    pub distribution: Option<String>,
    pub release: Option<String>,
    pub component: Option<String>,
    pub architecture: Option<String>,
}

#[derive(Debug, Clone)]
pub struct SourceIdentityFilter {
    pub name: Option<String>,
    pub search_type: SearchType,
    pub version: Option<String>,
}

#[derive(Debug, Clone)]
pub struct BinaryIdentityFilter {
    pub name: Option<String>,
    pub search_type: SearchType,
    pub version: Option<String>,
    pub source_name: Option<String>,
}

#[derive(Debug, Clone, Copy, PartialEq, Eq, Hash, Structural)]
pub enum SearchType {
    Exact,
    Contains,
    StartsWith,
}

#[derive(Debug, Clone)]
pub struct FreshnessFilter {
    pub seen_only: Option<bool>,
}

#[derive(Debug, Clone)]
pub struct StatusFilter {
    pub status: Option<Vec<String>>,
}

/// Filter binary packages by whether they have a peer-disagreement flag set.
#[derive(Debug, Clone)]
pub struct DisagreementFilter {
    /// Any disagreement with a peer: status mismatch or sha256 mismatch.
    pub has_disagreement: Option<bool>,
    /// Restrict disagreement checks to peers whose URL contains any of these substrings.
    pub peer: Vec<String>,
}

impl Default for SearchType {
    /// Names are searched exactly, unless asked otherwise.
    fn default() -> (r: SearchType)
        ensures
            r == SearchType::Exact,
    {
        SearchType::Exact
    }
}

impl Default for SourceIdentityFilter {
    fn default() -> (r: SourceIdentityFilter)
        ensures
            r == (SourceIdentityFilter {
                name: None,
                search_type: SearchType::Exact,
                version: None,
            }),
    {
        SourceIdentityFilter { name: None, search_type: SearchType::Exact, version: None }
    }
}

impl Default for BinaryIdentityFilter {
    fn default() -> (r: BinaryIdentityFilter)
        ensures
            r == (BinaryIdentityFilter {
                name: None,
                search_type: SearchType::Exact,
                version: None,
                source_name: None,
            }),
    {
        BinaryIdentityFilter {
            name: None,
            search_type: SearchType::Exact,
            version: None,
            source_name: None,
        }
    }
}

impl Default for DisagreementFilter {
    fn default() -> (r: DisagreementFilter)
        ensures
            r.has_disagreement is None,
            r.peer@.len() == 0,
    {
        DisagreementFilter { has_disagreement: None, peer: Vec::new() }
    }
}

/// The peer substrings that a query gives, comma-separated: none where it gives nothing.
pub fn deserialize_peer_filter(s: Option<String>) -> (r: Vec<String>)
    ensures
        views(r@) == match s {
            Some(list) => list_items(list@),
            None => Seq::empty(),
        },
{
    match s {
        Some(list) => split_list(list.as_str()),
        None => {
            let none: Vec<String> = Vec::new();
            proof {
                assert(views(none@) =~= Seq::<Seq<char>>::empty());
            }
            none
        },
    }
}

/// The items that a query gives, comma-separated, if it gives any list at all: a list
/// without items is kept apart from no list.
pub fn deserialize_comma_separated(s: Option<String>) -> (r: Option<Vec<String>>)
    ensures
        r is Some <==> s is Some,
        s matches Some(list) ==> views(r->0@) == list_items(list@),
{
    match s {
        Some(list) => Some(split_list(list.as_str())),
        None => None,
    }
}

} // verus!
