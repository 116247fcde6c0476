//! An agent's source chain and the query that reads it.
//!
//! Headers live in an arena in the order in which they were committed.  Each
//! header names the header committed before it by that header's place in the
//! arena, and the genesis header names none.  A query starts at a header of
//! the caller's choice, walks back to genesis, and returns the addresses of
//! the entries whose type names the patterns accept, newest first.

use vstd::prelude::*;
use crate::matcher::{all_well_formed, patterns_accept, CompiledMatcher};
use crate::pattern::is_meta;
use crate::pattern::is_meta_char;
use crate::text::{chars_of, strings_of};

verus! {

/// Metadata of one committed entry.
#[derive(Debug, PartialEq, Eq)]
pub struct ChainHeader {
    /// Type name of the entry, simple (`post`) or namespaced (`blog/post`).
    pub entry_type: String,
    /// Content address of the entry.
    pub entry_address: String,
    /// Place of the header committed just before this one; `None` at genesis.
    pub link: Option<usize>,
}

/// The mathematical value of a [`ChainHeader`].
pub struct HeaderModel {
    pub entry_type: Seq<char>,
    pub entry_address: Seq<char>,
    pub link: Option<usize>,
}

impl View for ChainHeader {
    type V = HeaderModel;

    open spec fn view(&self) -> HeaderModel {
        HeaderModel {
            entry_type: self.entry_type@,
            entry_address: self.entry_address@,
            link: self.link,
        }
    }
}

/// The values of a list of headers.
pub open spec fn header_models(headers: Seq<ChainHeader>) -> Seq<HeaderModel> {
    headers.map_values(|h: ChainHeader| h@)
}

/// Why a query failed.
#[derive(Clone, Copy, Debug, PartialEq, Eq)]
pub enum QueryError {
    /// Some pattern of the query is not well-formed.
    MalformedPattern,
    /// The query names, or the walk met, an entry type that the registry does
    /// not know.
    UnknownEntryType,
}

/// The mathematical value of a [`Chain`].
pub struct ChainModel {
    /// The headers in the order of their commits.
    pub headers: Seq<HeaderModel>,
    /// The newest header.
    pub top: Option<usize>,
    /// The entry-type names that the agent's application defines.
    pub registry: Seq<Seq<char>>,
}

// ---------------------------------------------------------------------------
// What a query returns
// ---------------------------------------------------------------------------

/// The headers form one chain: the first is the genesis header and names no
/// other, every later one names the header just before it, and the newest is
/// the top.
pub open spec fn well_linked(chain: ChainModel) -> bool {
    &&& chain.headers.len() <= usize::MAX
    &&& forall|i: int|
        0 <= i < chain.headers.len() ==> (#[trigger] chain.headers[i]).link == (if i == 0 {
            None
        } else {
            Some((i - 1) as usize)
        })
    &&& chain.top == (if chain.headers.len() == 0 {
        None
    } else {
        Some((chain.headers.len() - 1) as usize)
    })
}

/// The headers met from header `i` back to genesis, `i` first.
pub open spec fn walk_from(headers: Seq<HeaderModel>, i: usize) -> Seq<usize>
    decreases i,
{
    if i < headers.len() {
        match headers[i as int].link {
            Some(k) => if k < i {
                seq![i] + walk_from(headers, k)
            } else {
                seq![i]
            },
            None => seq![i],
        }
    } else {
        Seq::empty()
    }
}

/// The headers met from `top` back to genesis; none without a `top`.
pub open spec fn walk(headers: Seq<HeaderModel>, top: Option<usize>) -> Seq<usize> {
    match top {
        Some(t) => walk_from(headers, t),
        None => Seq::empty(),
    }
}

/// The registry knows the entry type `name`.
pub open spec fn known_type(registry: Seq<Seq<char>>, name: Seq<char>) -> bool {
    registry.contains(name)
}

/// The pattern is the plain name of one entry type: it is not empty and none
/// of its characters has a meaning of its own.
pub open spec fn is_plain_name(p: Seq<char>) -> bool {
    p.len() > 0 && forall|k: int| 0 <= k < p.len() ==> !is_meta(#[trigger] p[k])
}

/// Some pattern is the plain name of an entry type that the registry does not
/// know.
pub open spec fn asks_unknown_type(patterns: Seq<Seq<char>>, registry: Seq<Seq<char>>) -> bool {
    exists|k: int|
        0 <= k < patterns.len() && is_plain_name(#[trigger] patterns[k]) && !known_type(
            registry,
            patterns[k],
        )
}

/// Some header on the path has an entry type that the registry does not know.
pub open spec fn meets_unknown_type(
    headers: Seq<HeaderModel>,
    path: Seq<usize>,
    registry: Seq<Seq<char>>,
) -> bool {
    exists|x: int|
        0 <= x < path.len() && !known_type(registry, headers[(#[trigger] path[x]) as int].entry_type)
}

/// The headers of the path whose entry types the patterns accept, in the
/// order of the path.
pub open spec fn selected(headers: Seq<HeaderModel>, path: Seq<usize>, patterns: Seq<Seq<char>>) -> Seq<
    usize,
> {
    path.filter(|i: usize| patterns_accept(patterns, headers[i as int].entry_type))
}

/// The entry addresses of the given headers.
pub open spec fn addresses(headers: Seq<HeaderModel>, ids: Seq<usize>) -> Seq<Seq<char>> {
    ids.map_values(|i: usize| headers[i as int].entry_address)
}

/// `items` without its first `start` elements, cut to `limit` elements where
/// a limit is given.
pub open spec fn page<T>(items: Seq<T>, start: usize, limit: Option<usize>) -> Seq<T> {
    if start >= items.len() {
        Seq::empty()
    } else {
        let rest = items.skip(start as int);
        match limit {
            Some(n) => if n < rest.len() {
                rest.take(n as int)
            } else {
                rest
            },
            None => rest,
        }
    }
}

/// What a query of `chain` returns.
///
/// Without a header to start from there is nothing to return.  Otherwise the
/// patterns must all be well-formed, no pattern may be the plain name of an
/// unknown entry type, and no header on the way back to genesis may have an
/// unknown entry type.  The answer is then the requested page of the accepted
/// entries' addresses, newest first.
pub open spec fn query_result(
    chain: ChainModel,
    top: Option<usize>,
    patterns: Seq<Seq<char>>,
    start: usize,
    limit: Option<usize>,
) -> Result<Seq<Seq<char>>, QueryError> {
    let path = walk(chain.headers, top);
    if top is None {
        Ok(Seq::empty())
    } else if !all_well_formed(patterns) {
        Err(QueryError::MalformedPattern)
    } else if asks_unknown_type(patterns, chain.registry) || meets_unknown_type(
        chain.headers,
        path,
        chain.registry,
    ) {
        Err(QueryError::UnknownEntryType)
    } else {
        Ok(addresses(chain.headers, page(selected(chain.headers, path, patterns), start, limit)))
    }
}

// ---------------------------------------------------------------------------
// The chain
// ---------------------------------------------------------------------------

/// An agent's source chain together with the registry of the entry types
/// that the agent's application defines.
pub struct Chain {
    headers: Vec<ChainHeader>,
    registry: Vec<String>,
}

impl View for Chain {
    type V = ChainModel;

    closed spec fn view(&self) -> ChainModel {
        ChainModel {
            headers: header_models(self.headers@),
            top: if self.headers.len() == 0 {
                None
            } else {
                Some((self.headers.len() - 1) as usize)
            },
            registry: strings_of(self.registry@),
        }
    }
}

/// Whether the pattern, given as its characters, is the plain name of one
/// entry type.
pub fn plain_name(p: &Vec<char>) -> (r: bool)
    ensures
        r == is_plain_name(p@),
{
    if p.len() == 0 {
        return false;
    }
    let mut k: usize = 0;
    while k < p.len()
        invariant
            k <= p.len(),
            forall|x: int| 0 <= x < k ==> !is_meta(#[trigger] p@[x]),
        decreases p.len() - k,
    {
        if is_meta_char(p[k]) {
            return false;
        }
        k = k + 1;
    }
    true
}

/// The requested page of `items`.
pub fn page_of(items: &Vec<usize>, start: usize, limit: Option<usize>) -> (r: Vec<usize>)
    ensures
        r@ == page(items@, start, limit),
{
    let mut out: Vec<usize> = Vec::new();
    if start >= items.len() {
        return out;
    }
    let rest: usize = items.len() - start;
    let count: usize = match limit {
        Some(n) => if n < rest {
            n
        } else {
            rest
        },
        None => rest,
    };
    let mut k: usize = 0;
    while k < count
        invariant
            k <= count <= items.len() - start,
            start < items.len(),
            out@ == items@.skip(start as int).take(k as int),
        decreases count - k,
    {
        out.push(items[start + k]);
        assert(out@ =~= items@.skip(start as int).take(k + 1));
        k = k + 1;
    }
    assert(items@.skip(start as int).take(rest as int) =~= items@.skip(start as int));
    out
}

impl Chain {
    #[verifier::type_invariant]
    spec fn inv(self) -> bool {
        well_linked(self@)
    }

    /// A chain without headers, for an application that defines the entry
    /// types of `registry`.
    pub fn new(registry: Vec<String>) -> (r: Chain)
        ensures
            well_linked(r@),
            r@.headers.len() == 0,
            r@.top is None,
            r@.registry == strings_of(registry@),
    {
        Chain { headers: Vec::new(), registry }
    }

    /// Commits an entry: appends its header, linked to the header that was
    /// newest so far, and makes it the newest.  Returns the header's place.
    pub fn push(&mut self, entry_type: String, entry_address: String) -> (id: usize)
        ensures
            well_linked(final(self)@),
            id == old(self)@.headers.len(),
            final(self)@.headers == old(self)@.headers.push(
                HeaderModel {
                    entry_type: entry_type@,
                    entry_address: entry_address@,
                    link: old(self)@.top,
                },
            ),
            final(self)@.top == Some(id),
            final(self)@.registry == old(self)@.registry,
    {
        proof {
            use_type_invariant(&*self);
        }
        let id = self.headers.len();
        let ghost before = self.headers@;
        let header = ChainHeader { entry_type, entry_address, link: self.top_chain_header() };
        // The headers leave the chain while they grow, so that the chain is
        // whole at every step.
        let mut headers: Vec<ChainHeader> = Vec::new();
        core::mem::swap(&mut self.headers, &mut headers);
        headers.push(header);
        assert(header_models(headers@) =~= header_models(before).push(header@));
        core::mem::swap(&mut self.headers, &mut headers);
        id
    }

    /// Number of headers.
    pub fn len(&self) -> (n: usize)
        ensures
            n == self@.headers.len(),
    {
        self.headers.len()
    }

    /// The newest header's place, or `None` before genesis.
    pub fn top_chain_header(&self) -> (r: Option<usize>)
        ensures
            r == self@.top,
            well_linked(self@),
    {
        proof {
            use_type_invariant(self);
        }
        if self.headers.len() == 0 {
            None
        } else {
            Some(self.headers.len() - 1)
        }
    }

    /// The header at place `id`, if there is one.
    pub fn header(&self, id: usize) -> (r: Option<&ChainHeader>)
        ensures
            match r {
                Some(h) => id < self@.headers.len() && h@ == self@.headers[id as int],
                None => id >= self@.headers.len(),
            },
    {
        if id < self.headers.len() {
            Some(&self.headers[id])
        } else {
            None
        }
    }

    /// Whether the registry knows the entry type `name`.
    pub fn knows_type(&self, name: &str) -> (r: bool)
        ensures
            r == known_type(self@.registry, name@),
    {
        let wanted = String::from_str(name);
        let mut k: usize = 0;
        while k < self.registry.len()
            invariant
                k <= self.registry.len(),
                wanted@ == name@,
                forall|x: int| 0 <= x < k ==> strings_of(self.registry@)[x] != name@,
            decreases self.registry.len() - k,
        {
            if self.registry[k] == wanted {
                assert(strings_of(self.registry@)[k as int] == name@);
                return true;
            }
            k = k + 1;
        }
        false
    }

    /// Whether some pattern is the plain name of an entry type that the
    /// registry does not know.
    pub fn names_unknown_type(&self, patterns: &Vec<String>) -> (r: bool)
        ensures
            r == asks_unknown_type(strings_of(patterns@), self@.registry),
    {
        let mut k: usize = 0;
        while k < patterns.len()
            invariant
                k <= patterns.len(),
                forall|x: int|
                    0 <= x < k ==> !(is_plain_name(#[trigger] strings_of(patterns@)[x])
                        && !known_type(self@.registry, strings_of(patterns@)[x])),
            decreases patterns.len() - k,
        {
            let chars = chars_of(patterns[k].as_str());
            if plain_name(&chars) && !self.knows_type(patterns[k].as_str()) {
                assert(is_plain_name(strings_of(patterns@)[k as int]));
                return true;
            }
            k = k + 1;
        }
        false
    }

    /// Answers a query that starts at the header `top`: the addresses of the
    /// entries whose type names the patterns accept, newest first, without
    /// the first `start` of them and cut to `limit` where one is given.
    ///
    /// Without a `top` the answer is empty, whatever the patterns.  A `top`
    /// that is no place of the chain leaves nothing to walk.  The walk always
    /// runs to genesis, so that an unknown entry type anywhere on the way
    /// fails the query, whatever the start and the limit.
    pub fn query(
        &self,
        top: Option<usize>,
        patterns: &Vec<String>,
        start: usize,
        limit: Option<usize>,
    ) -> (r: Result<Vec<String>, QueryError>)
        ensures
            match query_result(self@, top, strings_of(patterns@), start, limit) {
                Ok(found) => r is Ok && strings_of(r.unwrap()@) == found,
                Err(e) => r == Err::<Vec<String>, QueryError>(e),
            },
    {
        proof {
            use_type_invariant(self);
        }
        let ghost models = header_models(self.headers@);
        let ghost asked = strings_of(patterns@);
        if top.is_none() {
            let none: Vec<String> = Vec::new();
            assert(strings_of(none@) =~= Seq::<Seq<char>>::empty());
            return Ok(none);
        }
        let matcher = match CompiledMatcher::compile(patterns) {
            Ok(m) => m,
            Err(e) => {
                assert(asked[e.index as int] == patterns[e.index as int]@);
                return Err(QueryError::MalformedPattern);
            },
        };
        if self.names_unknown_type(patterns) {
            return Err(QueryError::UnknownEntryType);
        }
        let mut cur: Option<usize> = match top {
            Some(t) => if t < self.headers.len() {
                Some(t)
            } else {
                None
            },
            None => None,
        };
        let ghost mut visited: Seq<usize> = Seq::empty();
        let mut ids: Vec<usize> = Vec::new();
        proof {
            reveal(Seq::filter);
            assert(selected(models, visited, asked) =~= Seq::<usize>::empty());
            assert(walk(models, top) =~= visited + walk(models, cur));
        }
        loop
            invariant
                self.inv(),
                models == header_models(self.headers@),
                asked == strings_of(patterns@),
                matcher@ == asked,
                top is Some,
                all_well_formed(asked),
                !asks_unknown_type(asked, self@.registry),
                match cur {
                    Some(c) => c < self.headers.len(),
                    None => true,
                },
                walk(models, top) == visited + walk(models, cur),
                !meets_unknown_type(models, visited, self@.registry),
                ids@ == selected(models, visited, asked),
                forall|x: int| 0 <= x < ids.len() ==> (#[trigger] ids[x]) < self.headers.len(),
            ensures
                cur is None,
            decreases
                    match cur {
                        Some(c) => c + 1,
                        None => 0,
                    },
        {
            let c = match cur {
                Some(c) => c,
                None => {
                    break ;
                },
            };
            let header = &self.headers[c];
            assert(models[c as int] == header@);
            let ghost rest = walk(models, header.link);
            proof {
                assert(walk_from(models, c) =~= seq![c] + (match header.link {
                    Some(k) => walk_from(models, k),
                    None => Seq::empty(),
                }));
                assert(visited + walk_from(models, c) =~= visited.push(c) + rest);
            }
            if !self.knows_type(header.entry_type.as_str()) {
                proof {
                    let path = walk(models, top);
                    assert(path[visited.len() as int] == c);
                    assert(meets_unknown_type(models, path, self@.registry));
                }
                return Err(QueryError::UnknownEntryType);
            }
            let hit = matcher.matches(header.entry_type.as_str());
            proof {
                reveal(Seq::filter);
                assert(visited.push(c).drop_last() =~= visited);
            }
            if hit {
                ids.push(c);
            }
            proof {
                let longer = visited.push(c);
                assert forall|x: int| 0 <= x < longer.len() implies known_type(
                    self@.registry,
                    models[(#[trigger] longer[x]) as int].entry_type,
                ) by {
                    if x < visited.len() {
                        assert(longer[x] == visited[x]);
                    }
                }
                visited = longer;
            }
            cur = header.link;
        }
        proof {
            assert(visited + Seq::<usize>::empty() =~= visited);
        }
        let chosen = page_of(&ids, start, limit);
        let mut out: Vec<String> = Vec::new();
        let mut k: usize = 0;
        assert(strings_of(out@) =~= addresses(models, chosen@.take(0)));
        while k < chosen.len()
            invariant
                k <= chosen.len(),
                models == header_models(self.headers@),
                forall|x: int| 0 <= x < chosen.len() ==> (#[trigger] chosen[x]) < self.headers.len(),
                strings_of(out@) == addresses(models, chosen@.take(k as int)),
            decreases chosen.len() - k,
        {
            let id = chosen[k];
            let address = self.headers[id].entry_address.clone();
            let ghost before = out@;
            out.push(address);
            assert(strings_of(out@) =~= addresses(models, chosen@.take(k + 1))) by {
                assert(strings_of(out@) =~= strings_of(before).push(address@));
                assert(chosen@.take(k + 1) =~= chosen@.take(k as int).push(id));
            }
            k = k + 1;
        }
        assert(chosen@.take(chosen.len() as int) =~= chosen@);
        Ok(out)
    }
}

} // verus!
