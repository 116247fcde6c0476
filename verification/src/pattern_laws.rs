//! What follows from the grammar and the meaning of patterns.

use vstd::prelude::*;
use crate::matcher::{
    all_well_formed, lemma_reach_none, lemma_reach_prefix, lemma_reach_single, lemma_reach_split,
    matches_all, patterns_accept, reach, split_at,
};
use crate::pattern::{
    class_has, class_items, is_meta, is_separator, pattern_accepts, pattern_tokens, token_accepts,
    token_at, tokens_accept, tokens_from, well_formed, within_segment, TokenModel,
};

verus! {

/// The tokens of a text without characters of special meaning: one literal
/// per character.
pub open spec fn literals(text: Seq<char>) -> Seq<TokenModel> {
    text.map_values(|c: char| literal(c))
}

/// The token that accepts the character `c` and nothing else.
pub open spec fn literal(c: char) -> TokenModel {
    TokenModel::Literal(c)
}

/// No character of `text` has a meaning of its own.
pub open spec fn is_plain(text: Seq<char>) -> bool {
    forall|k: int| 0 <= k < text.len() ==> !is_meta(#[trigger] text[k])
}

/// A run of characters without special meaning reads as one literal each.
proof fn lemma_plain_run(p: Seq<char>, i: int, j: int, acc: Seq<TokenModel>)
    requires
        0 <= i <= j <= p.len(),
        forall|k: int| i <= k < j ==> !is_meta(#[trigger] p[k]),
    ensures
        tokens_from(p, i, acc) == tokens_from(p, j, acc + literals(p.subrange(i, j))),
    decreases j - i,
{
    if i == j {
        assert(acc + literals(p.subrange(i, j)) =~= acc);
    } else {
        let c = p[i];
        assert(!is_meta(c));
        assert(token_at(p, i) == Some((TokenModel::Literal(c), i + 1)));
        lemma_plain_run(p, i + 1, j, acc.push(TokenModel::Literal(c)));
        assert(acc.push(TokenModel::Literal(c)) + literals(p.subrange(i + 1, j)) =~= acc
            + literals(p.subrange(i, j)));
    }
}

proof fn lemma_plain_tokens_from(p: Seq<char>, i: int, acc: Seq<TokenModel>)
    requires
        is_plain(p),
        0 <= i <= p.len(),
    ensures
        tokens_from(p, i, acc) == Some(acc + literals(p.skip(i))),
{
    lemma_plain_run(p, i, p.len() as int, acc);
    assert(p.subrange(i, p.len() as int) =~= p.skip(i));
}

/// Tokens that end in the literals of `text` accept the names that end in
/// `text` and whose front the tokens before accept.
proof fn lemma_literal_suffix(front: Seq<TokenModel>, text: Seq<char>, name: Seq<char>)
    ensures
        tokens_accept(front + literals(text), name) <==> (name.len() >= text.len()
            && tokens_accept(front, name.take(name.len() - text.len())) && name.skip(
            name.len() - text.len(),
        ) == text),
    decreases text.len(),
{
    let tokens = front + literals(text);
    let n = name.len() as int;
    if text.len() == 0 {
        assert(tokens =~= front);
        assert(name.take(n) =~= name);
        assert(name.skip(n) =~= text);
    } else {
        let shorter = text.drop_last();
        let c = text.last();
        assert(tokens.drop_last() =~= front + literals(shorter));
        assert(tokens.last() == TokenModel::Literal(c));
        if tokens_accept(tokens, name) {
            let k = choose|k: int|
                #![trigger name.take(k)]
                0 <= k <= name.len() && tokens_accept(tokens.drop_last(), name.take(k))
                    && token_accepts(tokens.last(), name.skip(k));
            assert(name.skip(k).len() == 1);
            assert(name.skip(k)[0] == c);
            lemma_literal_suffix(front, shorter, name.take(k));
            let cut = n - text.len();
            assert(name.take(k).take(k - shorter.len()) =~= name.take(cut));
            assert forall|x: int| 0 <= x < text.len() implies name.skip(cut)[x] == text[x] by {
                if x < shorter.len() {
                    assert(name.take(k).skip(k - shorter.len())[x] == shorter[x]);
                }
            }
            assert(name.skip(cut) =~= text);
        }
        if name.len() >= text.len() && tokens_accept(front, name.take(n - text.len()))
            && name.skip(n - text.len()) == text {
            let k = n - 1;
            let cut = n - text.len();
            lemma_literal_suffix(front, shorter, name.take(k));
            assert(name.take(k).take(k - shorter.len()) =~= name.take(cut));
            assert(name.take(k).skip(k - shorter.len()) =~= shorter) by {
                assert forall|x: int| 0 <= x < shorter.len() implies name.take(k).skip(
                    k - shorter.len(),
                )[x] == shorter[x] by {
                    assert(name.skip(cut)[x] == text[x]);
                }
            }
            assert(name.skip(k) =~= seq![c]) by {
                assert(name.skip(cut)[text.len() - 1] == c);
            }
            assert(tokens_accept(tokens.drop_last(), name.take(k)));
        }
    }
}

proof fn lemma_literals_accept(text: Seq<char>, name: Seq<char>)
    ensures
        tokens_accept(literals(text), name) <==> name == text,
    decreases text.len(),
{
    let tokens = literals(text);
    if text.len() == 0 {
        assert(name.len() == 0 <==> name =~= text);
    } else {
        let front = text.drop_last();
        assert(tokens.drop_last() =~= literals(front));
        assert(tokens.last() == TokenModel::Literal(text.last()));
        if tokens_accept(tokens, name) {
            let k = choose|k: int|
                #![trigger name.take(k)]
                0 <= k <= name.len() && tokens_accept(tokens.drop_last(), name.take(k))
                    && token_accepts(tokens.last(), name.skip(k));
            lemma_literals_accept(front, name.take(k));
            assert(name.skip(k).len() == 1);
            assert(name.skip(k)[0] == text.last());
            assert(name.len() == text.len());
            assert forall|x: int| 0 <= x < name.len() implies name[x] == text[x] by {
                if x < k {
                    assert(name.take(k)[x] == front[x]);
                } else {
                    assert(name.skip(k)[0] == name[x]);
                }
            }
            assert(name =~= text);
        }
        if name == text {
            let k = name.len() - 1;
            lemma_literals_accept(front, name.take(k));
            assert(name.take(k) =~= front);
            assert(name.skip(k) =~= seq![text.last()]);
        }
    }
}

/// A pattern without characters of special meaning is well-formed and
/// accepts its own text and nothing else.
pub proof fn law_plain_pattern_accepts_itself(p: Seq<char>, name: Seq<char>)
    requires
        is_plain(p),
    ensures
        well_formed(p),
        pattern_accepts(p, name) <==> name == p,
{
    lemma_plain_tokens_from(p, 0, Seq::empty());
    assert(Seq::<TokenModel>::empty() + literals(p.skip(0)) =~= literals(p));
    lemma_literals_accept(p, name);
}

/// The pattern `*` accepts exactly the names of one segment: those without a
/// separator.
pub proof fn law_star_accepts_simple_names(name: Seq<char>)
    ensures
        well_formed("*"@),
        pattern_accepts("*"@, name) <==> within_segment(name),
{
    let p = "*"@;
    reveal_strlit("*");
    reveal_with_fuel(tokens_from, 3);
    reveal_with_fuel(tokens_accept, 2);
    let tokens = seq![TokenModel::Star];
    assert(token_at(p, 0) == Some((TokenModel::Star, 1int)));
    assert(Seq::<TokenModel>::empty().push(TokenModel::Star) =~= tokens);
    assert(pattern_tokens(p) == Some(tokens));
    assert(tokens.drop_last().len() == 0);
    if tokens_accept(tokens, name) {
        let k = choose|k: int|
            #![trigger name.take(k)]
            0 <= k <= name.len() && tokens_accept(tokens.drop_last(), name.take(k))
                && token_accepts(tokens.last(), name.skip(k));
        assert(name.take(k).len() == 0);
        assert(name.skip(0) =~= name);
    }
    if within_segment(name) {
        assert(name.take(0).len() == 0);
        assert(name.skip(0) =~= name);
        assert(tokens.last() == TokenModel::Star);
        assert(tokens_accept(tokens.drop_last(), name.take(0)));
    }
}

/// The pattern `ns/*`, for a namespace `ns` without characters of special
/// meaning, accepts exactly the names made of `ns`, a separator and one more
/// segment: it stays within the namespace.
pub proof fn law_namespace_star(ns: Seq<char>, name: Seq<char>)
    requires
        is_plain(ns),
    ensures
        well_formed(ns + "/*"@),
        pattern_accepts(ns + "/*"@, name) <==> (name.len() > ns.len() && name.take(
            ns.len() as int + 1,
        ) == ns.push('/') && within_segment(name.skip(ns.len() as int + 1))),
{
    reveal_strlit("/*");
    let p = ns + "/*"@;
    let m = ns.len() as int;
    let head = ns.push('/');
    assert(p.len() == m + 2 && p[m] == '/' && p[m + 1] == '*');
    assert forall|k: int| 0 <= k < m + 1 implies !is_meta(#[trigger] p[k]) by {
        if k < m {
            assert(p[k] == ns[k]);
        }
    }
    let none = Seq::<TokenModel>::empty();
    lemma_plain_run(p, 0, m + 1, none);
    assert(p.subrange(0, m + 1) =~= head);
    assert(none + literals(head) =~= literals(head));
    assert(token_at(p, m + 1) == Some((TokenModel::Star, m + 2)));
    let tokens = literals(head).push(TokenModel::Star);
    assert(tokens_from(p, m + 2, tokens) == Some(tokens));
    assert(tokens_from(p, m + 1, literals(head)) == tokens_from(p, m + 2, tokens));
    assert(pattern_tokens(p) == Some(tokens));
    assert(tokens.drop_last() =~= literals(head));
    assert(tokens.last() == TokenModel::Star);
    if tokens_accept(tokens, name) {
        let k = choose|k: int|
            #![trigger name.take(k)]
            0 <= k <= name.len() && tokens_accept(tokens.drop_last(), name.take(k))
                && token_accepts(tokens.last(), name.skip(k));
        lemma_literals_accept(head, name.take(k));
        assert(k == m + 1);
    }
    if name.len() > ns.len() && name.take(m + 1) == head && within_segment(name.skip(m + 1)) {
        lemma_literals_accept(head, name.take(m + 1));
    }
}

/// The pattern `**/x`, for a text `x` without characters of special meaning,
/// accepts exactly `x` itself and the names that end in a separator followed
/// by `x`: it crosses every namespace.
pub proof fn law_any_namespace(x: Seq<char>, name: Seq<char>)
    requires
        is_plain(x),
    ensures
        well_formed("**/"@ + x),
        pattern_accepts("**/"@ + x, name) <==> (name.len() >= x.len() && name.skip(
            name.len() - x.len(),
        ) == x && (name.len() == x.len() || is_separator(name[name.len() - x.len() - 1]))),
{
    reveal_strlit("**/");
    let p = "**/"@ + x;
    let n = name.len() as int;
    assert(p.len() == 3 + x.len() && p[0] == '*' && p[1] == '*' && p[2] == '/');
    let none = Seq::<TokenModel>::empty();
    let first = seq![TokenModel::RecursivePrefix];
    assert(token_at(p, 0) == Some((TokenModel::RecursivePrefix, 3int)));
    assert(none.push(TokenModel::RecursivePrefix) =~= first);
    assert(tokens_from(p, 0, none) == tokens_from(p, 3, first));
    assert forall|k: int| 3 <= k < p.len() implies !is_meta(#[trigger] p[k]) by {
        assert(p[k] == x[k - 3]);
    }
    lemma_plain_run(p, 3, p.len() as int, first);
    assert(p.subrange(3, p.len() as int) =~= x);
    let tokens = first + literals(x);
    assert(tokens_from(p, p.len() as int, tokens) == Some(tokens));
    assert(pattern_tokens(p) == Some(tokens));
    lemma_literal_suffix(first, x, name);
    if n >= x.len() {
        let cut = n - x.len();
        let front = name.take(cut);
        assert(first.drop_last().len() == 0);
        assert(first.last() == TokenModel::RecursivePrefix);
        reveal_with_fuel(tokens_accept, 2);
        if tokens_accept(first, front) {
            let k = choose|k: int|
                #![trigger front.take(k)]
                0 <= k <= front.len() && tokens_accept(first.drop_last(), front.take(k))
                    && token_accepts(first.last(), front.skip(k));
            assert(front.take(k).len() == 0);
            assert(front.skip(0) =~= front);
            if cut > 0 {
                assert(front.last() == name[cut - 1]);
            }
        }
        if cut == 0 || is_separator(name[cut - 1]) {
            assert(front.take(0).len() == 0);
            assert(front.skip(0) =~= front);
            if cut > 0 {
                assert(front.last() == name[cut - 1]);
            }
            assert(tokens_accept(first.drop_last(), front.take(0)));
            assert(token_accepts(first.last(), front.skip(0)));
        }
    }
}

/// Where the last segment of `name` starts: after its last separator, or at
/// its front when it has none.
pub open spec fn last_segment_start(name: Seq<char>) -> int
    decreases name.len(),
{
    if name.len() == 0 {
        0
    } else if is_separator(name.last()) {
        name.len() as int
    } else {
        last_segment_start(name.drop_last())
    }
}

/// The last segment of `name`: what follows its last separator.
pub open spec fn last_segment(name: Seq<char>) -> Seq<char> {
    name.skip(last_segment_start(name))
}

/// Position `p` opens a segment of `name` that runs to the end of `name`.
pub open spec fn opens_last_segment(name: Seq<char>, p: int) -> bool {
    &&& 0 <= p <= name.len()
    &&& p == 0 || is_separator(name[p - 1])
    &&& within_segment(name.skip(p))
}

/// The last segment starts where a segment opens that runs to the end, and
/// nowhere else does one.
pub proof fn lemma_last_segment_start(name: Seq<char>, p: int)
    ensures
        opens_last_segment(name, last_segment_start(name)),
        opens_last_segment(name, p) ==> p == last_segment_start(name),
    decreases name.len(),
{
    let s = last_segment_start(name);
    if name.len() == 0 {
    } else if is_separator(name.last()) {
        if opens_last_segment(name, p) && p < name.len() {
            assert(name.skip(p)[name.len() - 1 - p] == name.last());
        }
    } else {
        let front = name.drop_last();
        lemma_last_segment_start(front, p);
        assert(s == 0 || name[s - 1] == front[s - 1]);
        assert forall|k: int| 0 <= k < name.skip(s).len() implies !is_separator(
            #[trigger] name.skip(s)[k],
        ) by {
            if k < front.skip(s).len() {
                assert(front.skip(s)[k] == name.skip(s)[k]);
            }
        }
        if opens_last_segment(name, p) {
            if p == name.len() {
                assert(is_separator(name[p - 1]));
            } else {
                assert forall|k: int| 0 <= k < front.skip(p).len() implies !is_separator(
                    #[trigger] front.skip(p)[k],
                ) by {
                    assert(front.skip(p)[k] == name.skip(p)[k]);
                }
                assert(p == 0 || front[p - 1] == name[p - 1]);
            }
        }
    }
}

/// The tokens of the pattern that asks for every entry type but the system's.
pub open spec fn all_but_system_tokens() -> Seq<TokenModel> {
    seq![
        TokenModel::RecursivePrefix,
        TokenModel::Class { negated: true, ranges: seq![('%', '%')] },
        TokenModel::Star,
    ]
}

proof fn lemma_all_but_system_tokens()
    ensures
        pattern_tokens("**/[!%]*"@) == Some(all_but_system_tokens()),
{
    let p = "**/[!%]*"@;
    reveal_strlit("**/[!%]*");
    assert(p.len() == 8);
    assert(p[0] == '*' && p[1] == '*' && p[2] == '/' && p[3] == '[' && p[4] == '!' && p[5] == '%'
        && p[6] == ']' && p[7] == '*');
    let none = Seq::<TokenModel>::empty();
    let t0 = TokenModel::RecursivePrefix;
    let t1 = TokenModel::Class { negated: true, ranges: seq![('%', '%')] };
    let t2 = TokenModel::Star;
    assert(token_at(p, 0) == Some((t0, 3int)));
    assert(class_items(p, 5, Seq::empty()) == Some((seq![('%', '%')], 7int))) by {
        reveal_with_fuel(class_items, 3);
        assert(Seq::<(char, char)>::empty().push(('%', '%')) =~= seq![('%', '%')]);
    }
    assert(token_at(p, 3) == Some((t1, 7int)));
    assert(token_at(p, 7) == Some((t2, 8int)));
    assert(tokens_from(p, 8, none.push(t0).push(t1).push(t2)) == Some(
        none.push(t0).push(t1).push(t2),
    ));
    assert(tokens_from(p, 7, none.push(t0).push(t1)) == tokens_from(
        p,
        8,
        none.push(t0).push(t1).push(t2),
    ));
    assert(tokens_from(p, 3, none.push(t0)) == tokens_from(p, 7, none.push(t0).push(t1)));
    assert(tokens_from(p, 0, none) == tokens_from(p, 3, none.push(t0)));
    assert(none.push(t0).push(t1).push(t2) =~= all_but_system_tokens());
}

/// The name is that of a system entry type: its last segment starts with
/// `%`.
pub open spec fn is_system_name(name: Seq<char>) -> bool {
    last_segment(name).len() > 0 && last_segment(name)[0] == '%'
}

/// The name is that of an application's entry type: its last segment is not
/// empty and does not start with `%`.
pub open spec fn is_app_name(name: Seq<char>) -> bool {
    last_segment(name).len() > 0 && last_segment(name)[0] != '%'
}

/// The pattern `**/[!%]*` accepts exactly the names whose last segment is
/// not empty and does not start with `%`.  So it leaves out every system
/// entry type, in whatever namespace its name stands.
pub proof fn law_all_but_system(name: Seq<char>)
    ensures
        well_formed("**/[!%]*"@),
        pattern_accepts("**/[!%]*"@, name) <==> is_app_name(name),
        is_system_name(name) ==> !pattern_accepts("**/[!%]*"@, name),
{
    lemma_all_but_system_tokens();
    let tokens = all_but_system_tokens();
    let n = name.len() as int;
    let s = last_segment_start(name);
    assert(tokens.take(3) =~= tokens);
    assert(name.take(n) =~= name);
    assert(reach(tokens, name, 3, n) == tokens_accept(tokens, name));
    lemma_reach_split(tokens, name, 3, n);
    lemma_last_segment_start(name, s);
    if reach(tokens, name, 3, n) {
        let k = choose|k: int| #[trigger] split_at(tokens, name, 3, n, k);
        lemma_reach_single(tokens, name, 2, k);
        lemma_reach_prefix(tokens, name, 1, k - 1);
        lemma_reach_none(tokens, name, k - 1);
        let c = name[k - 1];
        assert(seq![c][0] == c);
        assert(name.subrange(k, n) =~= name.skip(k));
        assert forall|x: int| 0 <= x < name.skip(k - 1).len() implies !is_separator(
            #[trigger] name.skip(k - 1)[x],
        ) by {
            if x > 0 {
                assert(name.skip(k)[x - 1] == name.skip(k - 1)[x]);
            }
        }
        lemma_last_segment_start(name, k - 1);
        assert(s == k - 1);
        assert(last_segment(name)[0] == c);
        if c == '%' {
            let ranges = seq![('%', '%')];
            assert(ranges[0].0 as u32 <= c as u32 && c as u32 <= ranges[0].1 as u32);
            assert(class_has(ranges, c));
        }
    }
    if last_segment(name).len() > 0 && last_segment(name)[0] != '%' {
        assert(0 <= s < n);
        let c = name[s];
        let k = s + 1;
        assert(last_segment(name)[0] == c);
        assert(!is_separator(c));
        lemma_reach_none(tokens, name, s);
        if s > 0 {
            lemma_reach_none(tokens, name, s - 1);
        }
        lemma_reach_prefix(tokens, name, 1, s);
        assert(reach(tokens, name, 1, s));
        lemma_reach_single(tokens, name, 2, k);
        assert(seq![c][0] == c);
        let ranges = seq![('%', '%')];
        assert(c != '%');
        assert(c as u32 != '%' as u32) by {
            vstd::utf8::char_u32_cast(c, c as u32);
            vstd::utf8::char_u32_cast('%', '%' as u32);
        }
        assert forall|x: int| 0 <= x < ranges.len() implies !((#[trigger] ranges[x]).0 as u32
            <= c as u32 && c as u32 <= ranges[x].1 as u32) by {
            assert(ranges[x] == ('%', '%'));
        }
        assert(!class_has(ranges, c));
        assert(reach(tokens, name, 2, k));
        assert(name.subrange(k, n) =~= name.skip(k));
        assert forall|x: int| 0 <= x < name.skip(k).len() implies !is_separator(
            #[trigger] name.skip(k)[x],
        ) by {
            assert(name.skip(k)[x] == name.skip(s)[x + 1]);
        }
        assert(split_at(tokens, name, 3, n, k));
    }
}

/// The order of the patterns in a list does not matter: two lists that hold
/// the same patterns the same number of times are well-formed together and
/// accept the same names.
pub proof fn law_pattern_order_is_irrelevant(a: Seq<Seq<char>>, b: Seq<Seq<char>>, name: Seq<char>)
    requires
        a.to_multiset() =~= b.to_multiset(),
    ensures
        all_well_formed(a) == all_well_formed(b),
        matches_all(a) == matches_all(b),
        patterns_accept(a, name) == patterns_accept(b, name),
{
    lemma_same_patterns(a, b, name);
    lemma_same_patterns(b, a, name);
}

proof fn lemma_same_patterns(a: Seq<Seq<char>>, b: Seq<Seq<char>>, name: Seq<char>)
    requires
        a.to_multiset() =~= b.to_multiset(),
    ensures
        all_well_formed(a) ==> all_well_formed(b),
        matches_all(a) ==> matches_all(b),
        patterns_accept(a, name) ==> patterns_accept(b, name),
{
    a.to_multiset_ensures();
    b.to_multiset_ensures();
    assert(a.len() == b.len()) by {
        assert(a.to_multiset().len() == b.to_multiset().len());
    }
    assert forall|k: int| 0 <= k < b.len() implies a.contains(#[trigger] b[k]) by {
        assert(b.contains(b[k]));
        assert(b.to_multiset().count(b[k]) > 0);
        assert(a.to_multiset().count(b[k]) > 0);
    }
    assert forall|k: int| 0 <= k < a.len() implies b.contains(#[trigger] a[k]) by {
        assert(a.contains(a[k]));
        assert(a.to_multiset().count(a[k]) > 0);
        assert(b.to_multiset().count(a[k]) > 0);
    }
    if all_well_formed(a) {
        assert forall|k: int| 0 <= k < b.len() implies well_formed(#[trigger] b[k]) by {
            assert(a.contains(b[k]));
        }
    }
    if matches_all(a) && a.len() == 1 {
        assert(a.contains(b[0]));
    }
    if patterns_accept(a, name) && !matches_all(a) {
        let k = choose|k: int| 0 <= k < a.len() && pattern_accepts(#[trigger] a[k], name);
        assert(b.contains(a[k]));
        let x = choose|x: int| 0 <= x < b.len() && b[x] == a[k];
        assert(pattern_accepts(b[x], name));
    }
}

} // verus!
