//! What follows from the meaning of a query.

use vstd::prelude::*;
use crate::chain::{
    addresses, asks_unknown_type, is_plain_name, known_type, meets_unknown_type, page,
    query_result, selected, walk, walk_from, well_linked, ChainModel, HeaderModel, QueryError,
};
use crate::matcher::{all_well_formed, matches_all, patterns_accept};
use crate::pattern::well_formed;
use crate::pattern::{pattern_accepts, pattern_tokens, within_segment, TokenModel};
use crate::pattern_laws::{
    is_app_name, is_plain, law_all_but_system, law_pattern_order_is_irrelevant,
    law_plain_pattern_accepts_itself, law_star_accepts_simple_names,
};

verus! {

/// The places of the headers from `t` down to genesis.
pub open spec fn down_from(t: usize) -> Seq<usize> {
    Seq::new((t + 1) as nat, |k: int| (t - k) as usize)
}

/// In a chain, the walk from a header meets every header committed up to it,
/// newest first.
pub proof fn lemma_walk_descends(chain: ChainModel, t: usize)
    requires
        well_linked(chain),
        t < chain.headers.len(),
    ensures
        walk_from(chain.headers, t) == down_from(t),
    decreases t,
{
    let link = chain.headers[t as int].link;
    if t == 0 {
        assert(walk_from(chain.headers, t) =~= down_from(t));
    } else {
        let k = (t - 1) as usize;
        assert(link == Some(k));
        lemma_walk_descends(chain, k);
        assert(seq![t] + down_from(k) =~= down_from(t));
    }
}

/// A pattern list that asks for every name selects the whole path.
pub proof fn lemma_select_all(
    headers: Seq<HeaderModel>,
    path: Seq<usize>,
    patterns: Seq<Seq<char>>,
)
    requires
        matches_all(patterns),
    ensures
        selected(headers, path, patterns) == path,
    decreases path.len(),
{
    reveal(Seq::filter);
    if path.len() > 0 {
        lemma_select_all(headers, path.drop_last(), patterns);
        assert(path.drop_last().push(path.last()) =~= path);
    }
}

/// A pattern list that asks for every name is well-formed and names no
/// entry type.
pub proof fn lemma_match_all_is_sound(patterns: Seq<Seq<char>>, registry: Seq<Seq<char>>)
    requires
        matches_all(patterns),
    ensures
        all_well_formed(patterns),
        !asks_unknown_type(patterns, registry),
{
    if patterns.len() == 1 {
        assert(pattern_tokens(patterns[0]) == Some(Seq::<TokenModel>::empty()));
    }
}

/// Asked of a chain that is not empty and holds only known entry types, a
/// query for every name, from the top and without start or limit, returns
/// the address of every entry of the chain, newest first.
pub proof fn law_query_for_all_returns_every_entry(chain: ChainModel, patterns: Seq<Seq<char>>)
    requires
        well_linked(chain),
        chain.headers.len() > 0,
        matches_all(patterns),
        forall|i: int|
            0 <= i < chain.headers.len() ==> known_type(
                chain.registry,
                (#[trigger] chain.headers[i]).entry_type,
            ),
    ensures
        query_result(chain, chain.top, patterns, 0, None) == Ok::<Seq<Seq<char>>, QueryError>(
            Seq::new(
                chain.headers.len(),
                |k: int| chain.headers[chain.headers.len() - 1 - k].entry_address,
            ),
        ),
{
    let n = chain.headers.len();
    let t = (n - 1) as usize;
    let path = walk(chain.headers, chain.top);
    lemma_walk_descends(chain, t);
    lemma_select_all(chain.headers, path, patterns);
    lemma_match_all_is_sound(patterns, chain.registry);
    assert(!meets_unknown_type(chain.headers, path, chain.registry));
    assert(path.skip(0) =~= path);
    assert(addresses(chain.headers, path) =~= Seq::new(
        n,
        |k: int| chain.headers[n - 1 - k].entry_address,
    ));
}

/// Start and limit cut a page out of what the query returns without them,
/// and change nothing else: neither the order of the addresses nor whether
/// the query fails.
pub proof fn law_paging_cuts_the_full_answer(
    chain: ChainModel,
    top: Option<usize>,
    patterns: Seq<Seq<char>>,
    start: usize,
    limit: Option<usize>,
)
    ensures
        query_result(chain, top, patterns, start, limit) == match query_result(
            chain,
            top,
            patterns,
            0,
            None,
        ) {
            Ok(all) => Ok(page(all, start, limit)),
            Err(e) => Err(e),
        },
{
    let full = query_result(chain, top, patterns, 0, None);
    if top is None {
        assert(page(Seq::<Seq<char>>::empty(), start, limit) =~= Seq::<Seq<char>>::empty());
    } else if full is Ok {
        let chosen = selected(chain.headers, walk(chain.headers, top), patterns);
        assert(page(chosen, 0, None) =~= chosen);
        assert(addresses(chain.headers, page(chosen, start, limit)) =~= page(
            addresses(chain.headers, chosen),
            start,
            limit,
        ));
    }
}

/// With a start of `k`, and no limit, a query returns what it returns with no
/// start, less its first `k` addresses; nothing when there are no more than
/// `k`.
pub proof fn law_start_skips_the_newest(
    chain: ChainModel,
    top: Option<usize>,
    patterns: Seq<Seq<char>>,
    k: usize,
)
    ensures
        query_result(chain, top, patterns, k, None) == match query_result(
            chain,
            top,
            patterns,
            0,
            None,
        ) {
            Ok(all) => Ok(
                if k >= all.len() {
                    Seq::empty()
                } else {
                    all.skip(k as int)
                },
            ),
            Err(e) => Err(e),
        },
{
    law_paging_cuts_the_full_answer(chain, top, patterns, k, None);
}

/// With a limit of zero, a query that does not fail returns nothing; and it
/// fails exactly when it fails without a limit.
pub proof fn law_limit_zero_returns_nothing(
    chain: ChainModel,
    top: Option<usize>,
    patterns: Seq<Seq<char>>,
    start: usize,
)
    ensures
        query_result(chain, top, patterns, start, Some(0usize)) == match query_result(
            chain,
            top,
            patterns,
            start,
            None,
        ) {
            Ok(_) => Ok(Seq::<Seq<char>>::empty()),
            Err(e) => Err(e),
        },
{
    law_paging_cuts_the_full_answer(chain, top, patterns, start, Some(0usize));
    law_paging_cuts_the_full_answer(chain, top, patterns, start, None);
    let full = query_result(chain, top, patterns, 0, None);
    if full is Ok {
        let all = full->Ok_0;
        assert(page(all, start, Some(0usize)) =~= Seq::<Seq<char>>::empty());
    }
}

/// A query from some header, with well-formed patterns of which one is the
/// plain name of an entry type that the registry does not know, fails with
/// the unknown-entry-type error.
pub proof fn law_unknown_type_is_refused(
    chain: ChainModel,
    top: Option<usize>,
    patterns: Seq<Seq<char>>,
    start: usize,
    limit: Option<usize>,
    k: int,
)
    requires
        top is Some,
        all_well_formed(patterns),
        0 <= k < patterns.len(),
        is_plain_name(patterns[k]),
        !known_type(chain.registry, patterns[k]),
    ensures
        query_result(chain, top, patterns, start, limit) == Err::<Seq<Seq<char>>, QueryError>(
            QueryError::UnknownEntryType,
        ),
{
}

/// A query from some header for the one plain name of an entry type that the
/// registry does not know fails with the unknown-entry-type error.
pub proof fn law_unknown_name_is_refused(
    chain: ChainModel,
    top: Option<usize>,
    name: Seq<char>,
    start: usize,
    limit: Option<usize>,
)
    requires
        top is Some,
        is_plain_name(name),
        !known_type(chain.registry, name),
    ensures
        query_result(chain, top, seq![name], start, limit) == Err::<Seq<Seq<char>>, QueryError>(
            QueryError::UnknownEntryType,
        ),
{
    let patterns = seq![name];
    assert(is_plain(name));
    law_plain_pattern_accepts_itself(name, name);
    assert(patterns[0] == name);
    law_unknown_type_is_refused(chain, top, patterns, start, limit, 0);
}

/// The headers of the path whose entry-type names satisfy `wanted`, in the
/// order of the path.
pub open spec fn typed_by(
    headers: Seq<HeaderModel>,
    path: Seq<usize>,
    wanted: spec_fn(Seq<char>) -> bool,
) -> Seq<usize> {
    path.filter(|i: usize| wanted(headers[i as int].entry_type))
}

/// Patterns that accept exactly the names that satisfy `wanted` select
/// exactly the headers whose entry-type names do.
pub proof fn lemma_selected_by(
    headers: Seq<HeaderModel>,
    path: Seq<usize>,
    patterns: Seq<Seq<char>>,
    wanted: spec_fn(Seq<char>) -> bool,
)
    requires
        forall|name: Seq<char>| #[trigger] patterns_accept(patterns, name) == wanted(name),
    ensures
        selected(headers, path, patterns) == typed_by(headers, path, wanted),
    decreases path.len(),
{
    reveal(Seq::filter);
    if path.len() > 0 {
        lemma_selected_by(headers, path.drop_last(), patterns, wanted);
        let name = headers[path.last() as int].entry_type;
        assert(patterns_accept(patterns, name) == wanted(name));
    }
}

/// What a query with the one pattern `p` returns, without start or limit,
/// when `p` is well-formed, is not the plain name of an unknown entry type,
/// and accepts exactly the names that satisfy `wanted`: the addresses of the
/// entries whose type names do, newest first.
pub proof fn lemma_query_by_one_pattern(
    chain: ChainModel,
    top: Option<usize>,
    p: Seq<char>,
    wanted: spec_fn(Seq<char>) -> bool,
)
    requires
        top is Some,
        !meets_unknown_type(chain.headers, walk(chain.headers, top), chain.registry),
        well_formed(p),
        p.len() > 0,
        is_plain_name(p) ==> known_type(chain.registry, p),
        forall|name: Seq<char>| #[trigger] pattern_accepts(p, name) == wanted(name),
    ensures
        query_result(chain, top, seq![p], 0, None) == Ok::<Seq<Seq<char>>, QueryError>(
            addresses(chain.headers, typed_by(chain.headers, walk(chain.headers, top), wanted)),
        ),
{
    let patterns = seq![p];
    let path = walk(chain.headers, top);
    assert(patterns[0] == p);
    assert forall|name: Seq<char>| #[trigger] patterns_accept(patterns, name) == wanted(name) by {
        assert(pattern_accepts(patterns[0], name) == wanted(name));
    }
    lemma_selected_by(chain.headers, path, patterns, wanted);
    let chosen = selected(chain.headers, path, patterns);
    assert(page(chosen, 0, None) =~= chosen);
}

/// Asked of a chain that holds only known entry types, the pattern `*`
/// returns the addresses of the entries whose type names have no namespace,
/// newest first, and of no others.
pub proof fn law_star_selects_simple_names(chain: ChainModel, top: Option<usize>)
    requires
        top is Some,
        !meets_unknown_type(chain.headers, walk(chain.headers, top), chain.registry),
    ensures
        query_result(chain, top, seq!["*"@], 0, None) == Ok::<Seq<Seq<char>>, QueryError>(
            addresses(
                chain.headers,
                typed_by(
                    chain.headers,
                    walk(chain.headers, top),
                    |name: Seq<char>| within_segment(name),
                ),
            ),
        ),
{
    let p = "*"@;
    reveal_strlit("*");
    let wanted = |name: Seq<char>| within_segment(name);
    assert forall|name: Seq<char>| #[trigger] pattern_accepts(p, name) == wanted(name) by {
        law_star_accepts_simple_names(name);
    }
    law_star_accepts_simple_names(p);
    assert(crate::pattern::is_meta(p[0]));
    lemma_query_by_one_pattern(chain, top, p, wanted);
}

/// Asked of a chain that holds only known entry types, the pattern
/// `**/[!%]*` returns the addresses of the entries of the application's
/// types, newest first, and of no system entry, whatever its namespace.
pub proof fn law_all_but_system_selects_app_entries(chain: ChainModel, top: Option<usize>)
    requires
        top is Some,
        !meets_unknown_type(chain.headers, walk(chain.headers, top), chain.registry),
    ensures
        query_result(chain, top, seq!["**/[!%]*"@], 0, None) == Ok::<Seq<Seq<char>>, QueryError>(
            addresses(
                chain.headers,
                typed_by(
                    chain.headers,
                    walk(chain.headers, top),
                    |name: Seq<char>| is_app_name(name),
                ),
            ),
        ),
{
    let p = "**/[!%]*"@;
    reveal_strlit("**/[!%]*");
    let wanted = |name: Seq<char>| is_app_name(name);
    assert forall|name: Seq<char>| #[trigger] pattern_accepts(p, name) == wanted(name) by {
        law_all_but_system(name);
    }
    law_all_but_system(p);
    assert(crate::pattern::is_meta(p[0]));
    lemma_query_by_one_pattern(chain, top, p, wanted);
}

/// Asked of a chain that holds only known entry types, the plain name of a
/// known entry type returns the addresses of the entries of that type,
/// newest first, and of no others.
pub proof fn law_plain_name_selects_its_type(
    chain: ChainModel,
    top: Option<usize>,
    wanted: Seq<char>,
)
    requires
        top is Some,
        !meets_unknown_type(chain.headers, walk(chain.headers, top), chain.registry),
        is_plain_name(wanted),
        known_type(chain.registry, wanted),
    ensures
        query_result(chain, top, seq![wanted], 0, None) == Ok::<Seq<Seq<char>>, QueryError>(
            addresses(
                chain.headers,
                typed_by(chain.headers, walk(chain.headers, top), |name: Seq<char>| name == wanted),
            ),
        ),
{
    let same = |name: Seq<char>| name == wanted;
    assert(is_plain(wanted));
    assert forall|name: Seq<char>| #[trigger] pattern_accepts(wanted, name) == same(name) by {
        law_plain_pattern_accepts_itself(wanted, name);
    }
    law_plain_pattern_accepts_itself(wanted, wanted);
    lemma_query_by_one_pattern(chain, top, wanted, same);
}

/// The places in `ids` strictly decrease: none occurs twice, and a newer
/// header always stands before an older one.
pub open spec fn strictly_backward(ids: Seq<usize>) -> bool {
    forall|a: int, b: int| 0 <= a < b < ids.len() ==> ids[a] > ids[b]
}

/// A walk starts at its first header and only ever goes back from there.
pub proof fn lemma_walk_goes_back(headers: Seq<HeaderModel>, i: usize)
    ensures
        strictly_backward(walk_from(headers, i)),
        forall|x: int| 0 <= x < walk_from(headers, i).len() ==> walk_from(headers, i)[x] <= i,
    decreases i,
{
    if i < headers.len() {
        match headers[i as int].link {
            Some(k) => {
                if k < i {
                    lemma_walk_goes_back(headers, k);
                    let rest = walk_from(headers, k);
                    let path = walk_from(headers, i);
                    assert(path =~= seq![i] + rest);
                    assert forall|a: int, b: int| 0 <= a < b < path.len() implies path[a]
                        > path[b] by {
                        assert(path[b] == rest[b - 1]);
                        if a > 0 {
                            assert(path[a] == rest[a - 1]);
                        }
                    }
                }
            },
            None => {},
        }
    }
}

/// Leaving places out of a list that strictly decreases leaves a list that
/// strictly decreases.
pub proof fn lemma_filter_keeps_order(ids: Seq<usize>, keep: spec_fn(usize) -> bool)
    requires
        strictly_backward(ids),
    ensures
        strictly_backward(ids.filter(keep)),
        forall|x: int|
            0 <= x < ids.filter(keep).len() ==> ids.contains(#[trigger] ids.filter(keep)[x]),
    decreases ids.len(),
{
    reveal(Seq::filter);
    if ids.len() > 0 {
        let front = ids.drop_last();
        let last = ids.last();
        lemma_filter_keeps_order(front, keep);
        let kept = front.filter(keep);
        assert forall|x: int| 0 <= x < kept.len() implies kept[x] > last && ids.contains(
            #[trigger] kept[x],
        ) by {
            assert(front.contains(kept[x]));
            let at = choose|at: int| 0 <= at < front.len() && front[at] == kept[x];
            assert(ids[at] == kept[x]);
        }
        if keep(last) {
            let all = kept.push(last);
            assert(ids[ids.len() - 1] == last);
            assert forall|x: int| 0 <= x < all.len() implies ids.contains(#[trigger] all[x]) by {
                if x < kept.len() {
                    assert(all[x] == kept[x]);
                }
            }
            assert forall|a: int, b: int| 0 <= a < b < all.len() implies all[a] > all[b] by {
                assert(all[a] == kept[a]);
                if b < kept.len() {
                    assert(all[b] == kept[b]);
                }
            }
        }
    }
}

/// The entries that a query returns stand in the order of the walk, newest
/// first, and no header gives more than one of them: the places of their
/// headers strictly decrease, whatever the patterns, the start and the
/// limit.
pub proof fn law_answers_go_strictly_back(
    chain: ChainModel,
    top: Option<usize>,
    patterns: Seq<Seq<char>>,
    start: usize,
    limit: Option<usize>,
)
    ensures
        strictly_backward(
            page(selected(chain.headers, walk(chain.headers, top), patterns), start, limit),
        ),
{
    let path = walk(chain.headers, top);
    if top is Some {
        lemma_walk_goes_back(chain.headers, top->0);
    }
    let keep = |i: usize| patterns_accept(patterns, chain.headers[i as int].entry_type);
    lemma_filter_keeps_order(path, keep);
    let chosen = selected(chain.headers, path, patterns);
    assert(chosen == path.filter(keep));
    let cut = page(chosen, start, limit);
    if start < chosen.len() {
        let rest = chosen.skip(start as int);
        assert forall|a: int, b: int| 0 <= a < b < cut.len() implies cut[a] > cut[b] by {
            assert(cut[a] == chosen[start + a]);
            assert(cut[b] == chosen[start + b]);
        }
    }
}

/// The order of the patterns in a query does not matter: two lists that hold
/// the same patterns the same number of times give the same answer, or the
/// same failure, on every chain.
pub proof fn law_query_ignores_pattern_order(
    chain: ChainModel,
    top: Option<usize>,
    a: Seq<Seq<char>>,
    b: Seq<Seq<char>>,
    start: usize,
    limit: Option<usize>,
)
    requires
        a.to_multiset() =~= b.to_multiset(),
    ensures
        query_result(chain, top, a, start, limit) == query_result(chain, top, b, start, limit),
{
    let path = walk(chain.headers, top);
    let none: Seq<char> = Seq::empty();
    law_pattern_order_is_irrelevant(a, b, none);
    a.to_multiset_ensures();
    b.to_multiset_ensures();
    assert forall|k: int| 0 <= k < b.len() implies a.contains(#[trigger] b[k]) by {
        assert(b.contains(b[k]));
        assert(b.to_multiset().count(b[k]) > 0);
    }
    assert forall|k: int| 0 <= k < a.len() implies b.contains(#[trigger] a[k]) by {
        assert(a.contains(a[k]));
        assert(a.to_multiset().count(a[k]) > 0);
    }
    if asks_unknown_type(a, chain.registry) {
        let k = choose|k: int|
            0 <= k < a.len() && is_plain_name(#[trigger] a[k]) && !known_type(
                chain.registry,
                a[k],
            );
        let x = choose|x: int| 0 <= x < b.len() && b[x] == a[k];
        assert(is_plain_name(b[x]));
    }
    if asks_unknown_type(b, chain.registry) {
        let k = choose|k: int|
            0 <= k < b.len() && is_plain_name(#[trigger] b[k]) && !known_type(
                chain.registry,
                b[k],
            );
        let x = choose|x: int| 0 <= x < a.len() && a[x] == b[k];
        assert(is_plain_name(a[x]));
    }
    let wanted = |name: Seq<char>| patterns_accept(b, name);
    assert forall|name: Seq<char>| #[trigger] patterns_accept(a, name) == wanted(name) by {
        law_pattern_order_is_irrelevant(a, b, name);
    }
    lemma_selected_by(chain.headers, path, a, wanted);
    assert forall|name: Seq<char>| #[trigger] patterns_accept(b, name) == wanted(name) by {}
    lemma_selected_by(chain.headers, path, b, wanted);
}

} // verus!
