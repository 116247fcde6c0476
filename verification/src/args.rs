//! The argument of a query as it travels on the wire.
//!
//! A query arrives as the text of a JSON object.  Its member
//! `entry_type_names` holds one pattern, a JSON string, or a list of
//! patterns, a JSON array of strings.  Its member `start`, a non-negative
//! integer, says how many of the newest matches to skip and is 0 when left
//! out.  Its member `limit`, a non-negative integer, caps the number of
//! matches returned; left out, there is no cap.  Other members are ignored.
//!
//! Reading JSON is the `serde_json` crate's work.  This module asks it four
//! questions about a text, and one about a list of strings, and gives each
//! answer a name; what a query text means is stated over those names.

use vstd::prelude::*;
use crate::text::{string_view, strings_of};

verus! {

/// The patterns of a query: one, or a list.
#[derive(Debug, PartialEq, Eq)]
pub enum QueryArgsNames {
    QueryName(String),
    QueryList(Vec<String>),
}

/// A query as the guest states it.
#[derive(Debug, PartialEq, Eq)]
pub struct QueryArgs {
    pub entry_type_names: QueryArgsNames,
    /// How many of the newest matches to skip.
    pub start: usize,
    /// The most matches to return; `None` for all.
    pub limit: Option<usize>,
}

/// The mathematical value of a [`QueryArgsNames`].
pub enum NamesModel {
    QueryName(Seq<char>),
    QueryList(Seq<Seq<char>>),
}

/// The mathematical value of a [`QueryArgs`].
pub struct QueryArgsModel {
    pub entry_type_names: NamesModel,
    pub start: usize,
    pub limit: Option<usize>,
}

impl View for QueryArgsNames {
    type V = NamesModel;

    open spec fn view(&self) -> NamesModel {
        match self {
            QueryArgsNames::QueryName(name) => NamesModel::QueryName(name@),
            QueryArgsNames::QueryList(names) => NamesModel::QueryList(strings_of(names@)),
        }
    }
}

impl View for QueryArgs {
    type V = QueryArgsModel;

    open spec fn view(&self) -> QueryArgsModel {
        QueryArgsModel {
            entry_type_names: self.entry_type_names@,
            start: self.start,
            limit: self.limit,
        }
    }
}

impl NamesModel {
    /// The patterns as a list: a single pattern is a list of one.
    pub open spec fn patterns(self) -> Seq<Seq<char>> {
        match self {
            NamesModel::QueryName(name) => seq![name],
            NamesModel::QueryList(names) => names,
        }
    }
}

// ---------------------------------------------------------------------------
// What serde_json says of a text
// ---------------------------------------------------------------------------

/// The members of the JSON object that `text` holds, each as its key and the
/// text of its value, in the order of the keys; `None` when `text` is not one
/// JSON object.
pub uninterp spec fn json_members(text: Seq<char>) -> Option<Seq<(Seq<char>, Seq<char>)>>;

/// The string that `text` holds; `None` when `text` is not one JSON string.
pub uninterp spec fn json_string(text: Seq<char>) -> Option<Seq<char>>;

/// The strings that `text` holds; `None` when `text` is not one JSON array of
/// strings.
pub uninterp spec fn json_string_list(text: Seq<char>) -> Option<Seq<Seq<char>>>;

/// The number that `text` holds; `None` when `text` is not one non-negative
/// JSON integer below 2^64.
pub uninterp spec fn json_number(text: Seq<char>) -> Option<u64>;

/// The text of the JSON array that holds the strings `items`.
pub uninterp spec fn json_array(items: Seq<Seq<char>>) -> Seq<char>;

/// The texts held by a list of pairs of strings.
pub open spec fn pairs_of(items: Seq<(String, String)>) -> Seq<(Seq<char>, Seq<char>)> {
    items.map_values(|p: (String, String)| (p.0@, p.1@))
}

/// The value of an optional list of pairs of strings.
pub open spec fn members_view(r: Option<Vec<(String, String)>>) -> Option<
    Seq<(Seq<char>, Seq<char>)>,
> {
    match r {
        Some(items) => Some(pairs_of(items@)),
        None => None,
    }
}

/// The value of an optional list of strings.
pub open spec fn list_view(r: Option<Vec<String>>) -> Option<Seq<Seq<char>>> {
    match r {
        Some(items) => Some(strings_of(items@)),
        None => None,
    }
}

/// Calls `serde_json::from_str` for a map from strings to raw values, and
/// hands out each member as its key and the text of its value.  Trusted: the
/// answer depends on the text alone, and the contract names it
/// [`json_members`].
#[verifier::external_body]
fn read_members(text: &str) -> (r: Option<Vec<(String, String)>>)
    ensures
        members_view(r) == json_members(text@),
{
    let parsed = serde_json::from_str::<
        std::collections::BTreeMap<String, Box<serde_json::value::RawValue>>,
    >(text);
    match parsed {
        Ok(map) => Some(map.into_iter().map(|(k, v)| (k, v.get().to_string())).collect()),
        Err(_) => None,
    }
}

/// Calls `serde_json::from_str` for a string.  Trusted: the answer depends on
/// the text alone, and the contract names it [`json_string`].
#[verifier::external_body]
fn read_string(text: &str) -> (r: Option<String>)
    ensures
        string_view(r) == json_string(text@),
{
    serde_json::from_str::<String>(text).ok()
}

/// Calls `serde_json::from_str` for a list of strings.  Trusted: the answer
/// depends on the text alone, and the contract names it
/// [`json_string_list`].
#[verifier::external_body]
fn read_string_list(text: &str) -> (r: Option<Vec<String>>)
    ensures
        list_view(r) == json_string_list(text@),
{
    serde_json::from_str::<Vec<String>>(text).ok()
}

/// Calls `serde_json::from_str` for an unsigned 64-bit integer.  Trusted: the
/// answer depends on the text alone, and the contract names it
/// [`json_number`].
#[verifier::external_body]
fn read_number(text: &str) -> (r: Option<u64>)
    ensures
        r == json_number(text@),
{
    serde_json::from_str::<u64>(text).ok()
}

/// Calls `serde_json::to_string` on a list of strings.  Trusted: the call
/// succeeds, since it writes strings into a vector of its own and nothing on
/// that way can fail; the text depends on the strings alone, and the
/// contract names it [`json_array`].
#[verifier::external_body]
pub(crate) fn write_string_list(items: &Vec<String>) -> (r: Option<String>)
    ensures
        string_view(r) == Some(json_array(strings_of(items@))),
{
    serde_json::to_string(items).ok()
}

// ---------------------------------------------------------------------------
// What a query text means
// ---------------------------------------------------------------------------

/// The value text of the first member from position `k` on whose key is
/// `key`.
pub open spec fn member_from(members: Seq<(Seq<char>, Seq<char>)>, key: Seq<char>, k: int) -> Option<
    Seq<char>,
>
    decreases members.len() - k,
{
    if k < 0 || k >= members.len() {
        None
    } else if members[k].0 == key {
        Some(members[k].1)
    } else {
        member_from(members, key, k + 1)
    }
}

/// The value text of the first member whose key is `key`.
pub open spec fn member(members: Seq<(Seq<char>, Seq<char>)>, key: Seq<char>) -> Option<
    Seq<char>,
> {
    member_from(members, key, 0)
}

/// The patterns that the value text `raw` states: a string is one pattern, an
/// array of strings a list of them.
pub open spec fn names_of(raw: Seq<char>) -> Option<NamesModel> {
    match json_string(raw) {
        Some(name) => Some(NamesModel::QueryName(name)),
        None => match json_string_list(raw) {
            Some(names) => Some(NamesModel::QueryList(names)),
            None => None,
        },
    }
}

/// The count that an optional member states.  The outer `None` says that the
/// member is there and is no count that this machine can hold; the inner one
/// that the member is left out.
pub open spec fn count_of(raw: Option<Seq<char>>) -> Option<Option<usize>> {
    match raw {
        None => Some(None),
        Some(text) => match json_number(text) {
            Some(n) => if n <= usize::MAX {
                Some(Some(n as usize))
            } else {
                None
            },
            None => None,
        },
    }
}

/// The query that `text` states, or `None` when it states none.
pub open spec fn query_args_of(text: Seq<char>) -> Option<QueryArgsModel> {
    match json_members(text) {
        None => None,
        Some(members) => match member(members, "entry_type_names"@) {
            None => None,
            Some(raw) => match (
                names_of(raw),
                count_of(member(members, "start"@)),
                count_of(member(members, "limit"@)),
            ) {
                (Some(names), Some(start), Some(limit)) => Some(
                    QueryArgsModel {
                        entry_type_names: names,
                        start: match start {
                            Some(n) => n,
                            None => 0,
                        },
                        limit,
                    },
                ),
                _ => None,
            },
        },
    }
}

/// The value of an optional query.
pub open spec fn args_view(r: Option<QueryArgs>) -> Option<QueryArgsModel> {
    match r {
        Some(args) => Some(args@),
        None => None,
    }
}

/// Looks a member up by its key.
fn find_member<'a>(members: &'a Vec<(String, String)>, key: &str) -> (r: Option<&'a String>)
    ensures
        match member(pairs_of(members@), key@) {
            Some(text) => r is Some && r.unwrap()@ == text,
            None => r is None,
        },
{
    let wanted = String::from_str(key);
    let mut k: usize = 0;
    while k < members.len()
        invariant
            k <= members.len(),
            wanted@ == key@,
            member(pairs_of(members@), key@) == member_from(pairs_of(members@), key@, k as int),
        decreases members.len() - k,
    {
        if members[k].0 == wanted {
            return Some(&members[k].1);
        }
        k = k + 1;
    }
    None
}

/// Reads the patterns from the text of the member that holds them.
fn read_names(raw: &str) -> (r: Option<QueryArgsNames>)
    ensures
        match names_of(raw@) {
            Some(names) => r is Some && r.unwrap()@ == names,
            None => r is None,
        },
{
    match read_string(raw) {
        Some(name) => Some(QueryArgsNames::QueryName(name)),
        None => match read_string_list(raw) {
            Some(names) => Some(QueryArgsNames::QueryList(names)),
            None => None,
        },
    }
}

/// Reads the count that an optional member states.
fn read_count(raw: Option<&String>) -> (r: Option<Option<usize>>)
    ensures
        r == count_of(string_view_ref(raw)),
{
    match raw {
        None => Some(None),
        Some(text) => match read_number(text.as_str()) {
            Some(n) => if n <= usize::MAX as u64 {
                Some(Some(n as usize))
            } else {
                None
            },
            None => None,
        },
    }
}

/// The value of an optional borrowed string.
pub open spec fn string_view_ref(r: Option<&String>) -> Option<Seq<char>> {
    match r {
        Some(s) => Some(s@),
        None => None,
    }
}

impl QueryArgsNames {
    /// The patterns as a list: a single pattern is a list of one.
    pub fn patterns(&self) -> (r: Vec<String>)
        ensures
            strings_of(r@) == self@.patterns(),
    {
        let mut out: Vec<String> = Vec::new();
        match self {
            QueryArgsNames::QueryName(name) => {
                out.push(name.clone());
                assert(strings_of(out@) =~= seq![name@]);
            },
            QueryArgsNames::QueryList(names) => {
                let mut k: usize = 0;
                assert(strings_of(out@) =~= strings_of(names@).take(0));
                while k < names.len()
                    invariant
                        k <= names.len(),
                        strings_of(out@) == strings_of(names@).take(k as int),
                    decreases names.len() - k,
                {
                    let ghost before = out@;
                    let name = names[k].clone();
                    out.push(name);
                    assert(strings_of(out@) =~= strings_of(names@).take(k + 1)) by {
                        assert(strings_of(out@) =~= strings_of(before).push(name@));
                    }
                    k = k + 1;
                }
                assert(strings_of(names@).take(names.len() as int) =~= strings_of(names@));
            },
        }
        out
    }
}

impl QueryArgs {
    /// Reads a query from its JSON text.
    pub fn from_json(text: &str) -> (r: Option<QueryArgs>)
        ensures
            args_view(r) == query_args_of(text@),
    {
        let members = match read_members(text) {
            Some(members) => members,
            None => {
                return None;
            },
        };
        let raw = match find_member(&members, "entry_type_names") {
            Some(raw) => raw,
            None => {
                return None;
            },
        };
        let names = read_names(raw.as_str());
        let start = read_count(find_member(&members, "start"));
        let limit = read_count(find_member(&members, "limit"));
        match (names, start, limit) {
            (Some(names), Some(start), Some(limit)) => Some(
                QueryArgs {
                    entry_type_names: names,
                    start: match start {
                        Some(n) => n,
                        None => 0,
                    },
                    limit,
                },
            ),
            _ => None,
        }
    }
}

} // verus!
