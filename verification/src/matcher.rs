//! A matcher compiled from a list of patterns, evaluated in one pass over a
//! candidate name.
//!
//! The pass keeps, for every pattern and every token position `i`, whether the
//! first `i` tokens accept the part of the name read so far.  Reading one more
//! character of the name extends that table by one row for all patterns at
//! once.

use vstd::prelude::*;
use crate::pattern::{
    is_separator, parse_pattern, pattern_accepts, pattern_tokens, token_accepts, token_models,
    tokens_accept, well_formed, class_has, texts_of, Token, TokenModel,
};
use crate::text::{chars_of, strings_of};

verus! {

// ---------------------------------------------------------------------------
// What a pattern list accepts
// ---------------------------------------------------------------------------

/// The pattern list asks for every name: it is empty, or holds the empty
/// pattern and nothing else.
pub open spec fn matches_all(patterns: Seq<Seq<char>>) -> bool {
    patterns.len() == 0 || (patterns.len() == 1 && patterns[0].len() == 0)
}

/// Every pattern of the list is well-formed.
pub open spec fn all_well_formed(patterns: Seq<Seq<char>>) -> bool {
    forall|k: int| 0 <= k < patterns.len() ==> well_formed(#[trigger] patterns[k])
}

/// The pattern list accepts `name`: it asks for every name, or one of its
/// patterns accepts `name`.
pub open spec fn patterns_accept(patterns: Seq<Seq<char>>, name: Seq<char>) -> bool {
    matches_all(patterns) || exists|k: int|
        0 <= k < patterns.len() && pattern_accepts(#[trigger] patterns[k], name)
}

// ---------------------------------------------------------------------------
// How acceptance grows with the name
// ---------------------------------------------------------------------------

/// The first `i` tokens accept the first `j` characters of `name`.
pub open spec fn reach(tokens: Seq<TokenModel>, name: Seq<char>, i: int, j: int) -> bool {
    tokens_accept(tokens.take(i), name.take(j))
}

/// The first `i` tokens accept some prefix of the first `j` characters.
pub open spec fn passed(tokens: Seq<TokenModel>, name: Seq<char>, i: int, j: int) -> bool {
    exists|k: int| 0 <= k <= j && #[trigger] reach(tokens, name, i, k)
}

/// The last token of the first `i` accepts the characters from `k` to `j`,
/// and the tokens before it accept what precedes.
pub open spec fn split_at(tokens: Seq<TokenModel>, name: Seq<char>, i: int, j: int, k: int) -> bool {
    0 <= k <= j && reach(tokens, name, i - 1, k) && token_accepts(
        tokens[i - 1],
        name.subrange(k, j),
    )
}

/// `reach` for a non-empty token prefix, by the place where its last token
/// starts.
pub proof fn lemma_reach_split(tokens: Seq<TokenModel>, name: Seq<char>, i: int, j: int)
    requires
        1 <= i <= tokens.len(),
        0 <= j <= name.len(),
    ensures
        reach(tokens, name, i, j) <==> exists|k: int| #[trigger] split_at(tokens, name, i, j, k),
{
    let head = tokens.take(i);
    let text = name.take(j);
    assert(head.len() == i);
    assert(text.len() == j);
    assert(head.drop_last() =~= tokens.take(i - 1));
    assert(head.last() == tokens[i - 1]);
    if reach(tokens, name, i, j) {
        let k = choose|k: int|
            #![trigger text.take(k)]
            0 <= k <= text.len() && tokens_accept(head.drop_last(), text.take(k))
                && token_accepts(head.last(), text.skip(k));
        assert(text.take(k) =~= name.take(k));
        assert(text.skip(k) =~= name.subrange(k, j));
        assert(split_at(tokens, name, i, j, k));
    }
    if exists|k: int| #[trigger] split_at(tokens, name, i, j, k) {
        let k = choose|k: int| #[trigger] split_at(tokens, name, i, j, k);
        assert(text.take(k) =~= name.take(k));
        assert(text.skip(k) =~= name.subrange(k, j));
        assert(tokens_accept(head.drop_last(), text.take(k)));
    }
}

/// No tokens accept only the empty text.
pub proof fn lemma_reach_none(tokens: Seq<TokenModel>, name: Seq<char>, j: int)
    requires
        0 <= j <= name.len(),
    ensures
        reach(tokens, name, 0, j) <==> j == 0,
        passed(tokens, name, 0, j),
{
    assert(tokens.take(0).len() == 0);
    assert(name.take(j).len() == j);
    assert(name.take(0).len() == 0);
    assert(reach(tokens, name, 0, 0));
}

/// A token that accepts single characters only moves one character on.
pub proof fn lemma_reach_single(tokens: Seq<TokenModel>, name: Seq<char>, i: int, j: int)
    requires
        1 <= i <= tokens.len(),
        0 <= j <= name.len(),
        tokens[i - 1] is Literal || tokens[i - 1] is AnyChar || tokens[i - 1] is Class,
    ensures
        reach(tokens, name, i, j) <==> j >= 1 && reach(tokens, name, i - 1, j - 1)
            && token_accepts(tokens[i - 1], seq![name[j - 1]]),
{
    lemma_reach_split(tokens, name, i, j);
    if reach(tokens, name, i, j) {
        let k = choose|k: int| #[trigger] split_at(tokens, name, i, j, k);
        assert(name.subrange(k, j).len() == 1);
        assert(name.subrange(k, j) =~= seq![name[j - 1]]);
    }
    if j >= 1 && reach(tokens, name, i - 1, j - 1) && token_accepts(
        tokens[i - 1],
        seq![name[j - 1]],
    ) {
        assert(name.subrange(j - 1, j) =~= seq![name[j - 1]]);
        assert(split_at(tokens, name, i, j, j - 1));
    }
}

/// `*` either accepts nothing, or one more character of the same segment.
pub proof fn lemma_reach_star(tokens: Seq<TokenModel>, name: Seq<char>, i: int, j: int)
    requires
        1 <= i <= tokens.len(),
        0 <= j <= name.len(),
        tokens[i - 1] is Star,
    ensures
        reach(tokens, name, i, j) <==> reach(tokens, name, i - 1, j) || (j >= 1 && !is_separator(
            name[j - 1],
        ) && reach(tokens, name, i, j - 1)),
{
    lemma_reach_split(tokens, name, i, j);
    if reach(tokens, name, i, j) {
        let k = choose|k: int| #[trigger] split_at(tokens, name, i, j, k);
        if k < j {
            let piece = name.subrange(k, j);
            assert(piece[j - 1 - k] == name[j - 1]);
            assert forall|x: int| 0 <= x < name.subrange(k, j - 1).len() implies !is_separator(
                #[trigger] name.subrange(k, j - 1)[x],
            ) by {
                assert(piece[x] == name.subrange(k, j - 1)[x]);
            }
            assert(split_at(tokens, name, i, j - 1, k));
            lemma_reach_split(tokens, name, i, j - 1);
        }
    }
    if reach(tokens, name, i - 1, j) {
        assert(name.subrange(j, j).len() == 0);
        assert(split_at(tokens, name, i, j, j));
    }
    if j >= 1 && !is_separator(name[j - 1]) && reach(tokens, name, i, j - 1) {
        lemma_reach_split(tokens, name, i, j - 1);
        let k = choose|k: int| #[trigger] split_at(tokens, name, i, j - 1, k);
        let shorter = name.subrange(k, j - 1);
        assert forall|x: int| 0 <= x < name.subrange(k, j).len() implies !is_separator(
            #[trigger] name.subrange(k, j)[x],
        ) by {
            if x < j - 1 - k {
                assert(shorter[x] == name.subrange(k, j)[x]);
            }
        }
        assert(split_at(tokens, name, i, j, k));
    }
}

/// A closing `**` accepts whatever follows any place the tokens before it
/// have reached.
pub proof fn lemma_reach_tail(tokens: Seq<TokenModel>, name: Seq<char>, i: int, j: int)
    requires
        1 <= i <= tokens.len(),
        0 <= j <= name.len(),
        tokens[i - 1] is RecursiveTail,
    ensures
        reach(tokens, name, i, j) <==> passed(tokens, name, i - 1, j),
{
    lemma_reach_split(tokens, name, i, j);
    if reach(tokens, name, i, j) {
        let k = choose|k: int| #[trigger] split_at(tokens, name, i, j, k);
        assert(reach(tokens, name, i - 1, k));
    }
    if passed(tokens, name, i - 1, j) {
        let k = choose|k: int| 0 <= k <= j && #[trigger] reach(tokens, name, i - 1, k);
        assert(split_at(tokens, name, i, j, k));
    }
}

/// `**/` accepts nothing, or anything that ends in a separator.
pub proof fn lemma_reach_prefix(tokens: Seq<TokenModel>, name: Seq<char>, i: int, j: int)
    requires
        1 <= i <= tokens.len(),
        0 <= j <= name.len(),
        tokens[i - 1] is RecursivePrefix,
    ensures
        reach(tokens, name, i, j) <==> reach(tokens, name, i - 1, j) || (j >= 1 && is_separator(
            name[j - 1],
        ) && passed(tokens, name, i - 1, j - 1)),
{
    lemma_reach_split(tokens, name, i, j);
    if reach(tokens, name, i, j) {
        let k = choose|k: int| #[trigger] split_at(tokens, name, i, j, k);
        if k < j {
            assert(name.subrange(k, j).last() == name[j - 1]);
            assert(reach(tokens, name, i - 1, k));
        }
    }
    if reach(tokens, name, i - 1, j) {
        assert(name.subrange(j, j).len() == 0);
        assert(split_at(tokens, name, i, j, j));
    }
    if j >= 1 && is_separator(name[j - 1]) && passed(tokens, name, i - 1, j - 1) {
        let k = choose|k: int| 0 <= k <= j - 1 && #[trigger] reach(tokens, name, i - 1, k);
        assert(name.subrange(k, j).last() == name[j - 1]);
        assert(split_at(tokens, name, i, j, k));
    }
}

/// The alternative `a` of the token before position `i` ends at `j`, and the
/// tokens before it accept what precedes.
pub open spec fn alternate_hit(
    tokens: Seq<TokenModel>,
    name: Seq<char>,
    i: int,
    j: int,
    a: int,
) -> bool {
    let alts = tokens[i - 1]->Alternates_0;
    0 <= a < alts.len() && alts[a].len() <= j && reach(tokens, name, i - 1, j - alts[a].len())
        && name.subrange(j - alts[a].len(), j) =~= alts[a]
}

/// A group of alternatives accepts when one of them stands at the end.
pub proof fn lemma_reach_alternates(tokens: Seq<TokenModel>, name: Seq<char>, i: int, j: int)
    requires
        1 <= i <= tokens.len(),
        0 <= j <= name.len(),
        tokens[i - 1] is Alternates,
    ensures
        reach(tokens, name, i, j) <==> exists|a: int| #[trigger]
            alternate_hit(tokens, name, i, j, a),
{
    lemma_reach_split(tokens, name, i, j);
    let alts = tokens[i - 1]->Alternates_0;
    if reach(tokens, name, i, j) {
        let k = choose|k: int| #[trigger] split_at(tokens, name, i, j, k);
        let piece = name.subrange(k, j);
        let a = choose|a: int| 0 <= a < alts.len() && #[trigger] alts[a] =~= piece;
        assert(alts[a].len() == j - k);
        assert(alternate_hit(tokens, name, i, j, a));
    }
    if exists|a: int| #[trigger] alternate_hit(tokens, name, i, j, a) {
        let a = choose|a: int| #[trigger] alternate_hit(tokens, name, i, j, a);
        let k = j - alts[a].len();
        assert(split_at(tokens, name, i, j, k));
    }
}

/// `passed` grows by what is reached at the newest position.
pub proof fn lemma_passed_step(tokens: Seq<TokenModel>, name: Seq<char>, i: int, j: int)
    requires
        0 <= j,
    ensures
        passed(tokens, name, i, j) <==> reach(tokens, name, i, j) || (j >= 1 && passed(
            tokens,
            name,
            i,
            j - 1,
        )),
{
    if passed(tokens, name, i, j) {
        let k = choose|k: int| 0 <= k <= j && #[trigger] reach(tokens, name, i, k);
        if k < j {
            assert(passed(tokens, name, i, j - 1));
        }
    }
    if j >= 1 && passed(tokens, name, i, j - 1) {
        let k = choose|k: int| 0 <= k <= j - 1 && #[trigger] reach(tokens, name, i, k);
        assert(reach(tokens, name, i, k));
    }
}

// ---------------------------------------------------------------------------
// The table of the pass
// ---------------------------------------------------------------------------

/// What the pass knows of one token position after some characters.
#[derive(Clone, Copy)]
struct Cell {
    /// The tokens before the position accept the characters read so far.
    at: bool,
    /// They accept the characters read so far or some of them from the front.
    past: bool,
}

/// The cell says the truth of position `i` after `j` characters.
spec fn cell_ok(c: Cell, tokens: Seq<TokenModel>, name: Seq<char>, i: int, j: int) -> bool {
    c.at == reach(tokens, name, i, j) && c.past == passed(tokens, name, i, j)
}

/// The line holds a true cell for every position of the tokens after `j`
/// characters.
spec fn line_ok(line: Seq<Cell>, tokens: Seq<TokenModel>, name: Seq<char>, j: int) -> bool {
    line.len() == tokens.len() + 1 && forall|i: int|
        0 <= i < line.len() ==> cell_ok(#[trigger] line[i], tokens, name, i, j)
}

/// Row `j` holds a true line for pattern `p`.
spec fn entry_ok(
    rows: Seq<Vec<Vec<Cell>>>,
    programs: Seq<Vec<Token>>,
    name: Seq<char>,
    j: int,
    p: int,
) -> bool {
    p < rows[j].len() && line_ok(rows[j][p]@, token_models(programs[p]@), name, j)
}

/// Every row holds a true line for every pattern.
spec fn table_ok(rows: Seq<Vec<Vec<Cell>>>, programs: Seq<Vec<Token>>, name: Seq<char>) -> bool {
    forall|j: int, p: int|
        0 <= j < rows.len() && 0 <= p < programs.len() ==> #[trigger] entry_ok(
            rows,
            programs,
            name,
            j,
            p,
        )
}

/// Whether `c` lies in one of the ranges.
fn in_class(ranges: &Vec<(char, char)>, c: char) -> (r: bool)
    ensures
        r == class_has(ranges@, c),
{
    let mut k: usize = 0;
    while k < ranges.len()
        invariant
            k <= ranges.len(),
            forall|x: int|
                0 <= x < k ==> !((#[trigger] ranges@[x]).0 as u32 <= c as u32 && c as u32
                    <= ranges@[x].1 as u32),
        decreases ranges.len() - k,
    {
        let (lo, hi) = ranges[k];
        if lo as u32 <= c as u32 && c as u32 <= hi as u32 {
            return true;
        }
        k = k + 1;
    }
    false
}

/// Whether the text `alt` stands in `name` right before position `j`.
fn ends_with(name: &Vec<char>, j: usize, alt: &Vec<char>) -> (r: bool)
    requires
        j <= name.len(),
    ensures
        r == (alt.len() <= j && name@.subrange(j - alt.len(), j as int) =~= alt@),
{
    if alt.len() > j {
        return false;
    }
    let from: usize = j - alt.len();
    let mut x: usize = 0;
    while x < alt.len()
        invariant
            x <= alt.len() <= j <= name.len(),
            from == j - alt.len(),
            forall|y: int| 0 <= y < x ==> name@[from + y] == alt@[y],
        decreases alt.len() - x,
    {
        if name[from + x] != alt[x] {
            assert(name@.subrange(from as int, j as int)[x as int] != alt@[x as int]);
            return false;
        }
        x = x + 1;
    }
    true
}

/// Whether one of the alternatives of the token before position `i` ends at
/// `j`, with the tokens before it accepting what precedes.
fn any_alternate(
    programs: &Vec<Vec<Token>>,
    name: &Vec<char>,
    rows: &Vec<Vec<Vec<Cell>>>,
    p: usize,
    i: usize,
    j: usize,
    left_at: bool,
) -> (r: bool)
    requires
        p < programs.len(),
        1 <= i <= programs[p as int].len(),
        j <= name.len(),
        rows.len() == j,
        table_ok(rows@, programs@, name@),
        programs[p as int][i - 1] is Alternates,
        left_at == reach(token_models(programs[p as int]@), name@, i - 1, j as int),
    ensures
        r == exists|a: int| #[trigger]
            alternate_hit(token_models(programs[p as int]@), name@, i as int, j as int, a),
{
    let ghost models = token_models(programs[p as int]@);
    match &programs[p][i - 1] {
        Token::Alternates(alts) => {
            assert(models[i - 1]->Alternates_0 == texts_of(alts@));
            let mut a: usize = 0;
            while a < alts.len()
                invariant
                    a <= alts.len(),
                    p < programs.len(),
                    1 <= i <= programs[p as int].len(),
                    j <= name.len(),
                    rows.len() == j,
                    table_ok(rows@, programs@, name@),
                    models == token_models(programs[p as int]@),
                    models[i - 1]->Alternates_0 == texts_of(alts@),
                    left_at == reach(models, name@, i - 1, j as int),
                    forall|b: int| 0 <= b < a ==> !alternate_hit(models, name@, i as int, j as int, b),
                decreases alts.len() - a,
            {
                let alt = &alts[a];
                if ends_with(name, j, alt) {
                    let before = if alt.len() == 0 {
                        left_at
                    } else {
                        assert(entry_ok(rows@, programs@, name@, j - alt.len(), p as int));
                        rows[j - alt.len()][p][i - 1].at
                    };
                    if before {
                        assert(alternate_hit(models, name@, i as int, j as int, a as int));
                        return true;
                    }
                }
                a = a + 1;
            }
            false
        },
        _ => false,
    }
}

/// The row of pattern `p` after `j` characters, from the rows before it.
fn step_line(
    programs: &Vec<Vec<Token>>,
    name: &Vec<char>,
    rows: &Vec<Vec<Vec<Cell>>>,
    p: usize,
    j: usize,
) -> (line: Vec<Cell>)
    requires
        p < programs.len(),
        j <= name.len(),
        rows.len() == j,
        table_ok(rows@, programs@, name@),
    ensures
        line_ok(line@, token_models(programs[p as int]@), name@, j as int),
{
    let tokens = &programs[p];
    let ghost models = token_models(tokens@);
    let mut line: Vec<Cell> = Vec::new();
    proof {
        lemma_reach_none(models, name@, j as int);
    }
    line.push(Cell { at: j == 0, past: true });
    while line.len() <= tokens.len()
        invariant
            1 <= line.len() <= tokens.len() + 1,
            p < programs.len(),
            tokens == &programs[p as int],
            models == token_models(tokens@),
            j <= name.len(),
            rows.len() == j,
            table_ok(rows@, programs@, name@),
            forall|x: int|
                0 <= x < line.len() ==> cell_ok(#[trigger] line[x], models, name@, x, j as int),
        decreases tokens.len() + 1 - line.len(),
    {
        let i = line.len();
        let left = line[i - 1];
        let mut up = Cell { at: false, past: false };
        let mut upleft = Cell { at: false, past: false };
        let mut c: char = ' ';
        if j > 0 {
            assert(entry_ok(rows@, programs@, name@, j - 1, p as int));
            up = rows[j - 1][p][i];
            upleft = rows[j - 1][p][i - 1];
            c = name[j - 1];
        }
        assert(models[i - 1] == tokens[i - 1]@);
        let at = match &tokens[i - 1] {
            Token::Literal(want) => {
                proof {
                    lemma_reach_single(models, name@, i as int, j as int);
                    if j > 0 {
                        assert(seq![c][0] == c && seq![*want][0] == *want);
                    }
                }
                j > 0 && c == *want && upleft.at
            },
            Token::AnyChar => {
                proof {
                    lemma_reach_single(models, name@, i as int, j as int);
                }
                j > 0 && c != '/' && upleft.at
            },
            Token::Class { negated, ranges } => {
                proof {
                    lemma_reach_single(models, name@, i as int, j as int);
                }
                j > 0 && c != '/' && upleft.at && in_class(ranges, c) != *negated
            },
            Token::Star => {
                proof {
                    lemma_reach_star(models, name@, i as int, j as int);
                }
                left.at || (j > 0 && c != '/' && up.at)
            },
            Token::RecursiveTail => {
                proof {
                    lemma_reach_tail(models, name@, i as int, j as int);
                }
                left.past
            },
            Token::RecursivePrefix => {
                proof {
                    lemma_reach_prefix(models, name@, i as int, j as int);
                }
                left.at || (j > 0 && c == '/' && upleft.past)
            },
            Token::Alternates(_) => {
                proof {
                    lemma_reach_alternates(models, name@, i as int, j as int);
                }
                any_alternate(programs, name, rows, p, i, j, left.at)
            },
        };
        proof {
            lemma_passed_step(models, name@, i as int, j as int);
        }
        let past = at || (j > 0 && up.past);
        line.push(Cell { at, past });
    }
    line
}

// ---------------------------------------------------------------------------
// The matcher
// ---------------------------------------------------------------------------

/// Why a pattern list could not be compiled.
#[derive(Clone, Copy, Debug, PartialEq, Eq)]
pub struct PatternError {
    /// Position of the first pattern that is not well-formed.
    pub index: usize,
}

/// A pattern list, compiled once and ready to test any number of names.
pub struct CompiledMatcher {
    programs: Vec<Vec<Token>>,
    match_all: bool,
    source: Ghost<Seq<Seq<char>>>,
}

impl View for CompiledMatcher {
    type V = Seq<Seq<char>>;

    /// The pattern list that the matcher was compiled from.
    closed spec fn view(&self) -> Seq<Seq<char>> {
        self.source@
    }
}

impl CompiledMatcher {
    #[verifier::type_invariant]
    spec fn inv(self) -> bool {
        &&& self.match_all == matches_all(self.source@)
        &&& self.programs.len() == self.source@.len()
        &&& forall|p: int|
            0 <= p < self.programs.len() ==> pattern_tokens(#[trigger] self.source@[p]) == Some(
                token_models(self.programs[p]@),
            )
    }

    /// Compiles a pattern list.  Fails on the first pattern that is not
    /// well-formed, and only then.
    pub fn compile(patterns: &Vec<String>) -> (r: Result<CompiledMatcher, PatternError>)
        ensures
            match r {
                Ok(m) => m@ == strings_of(patterns@) && all_well_formed(strings_of(patterns@)),
                Err(e) => e.index < patterns.len() && !well_formed(patterns[e.index as int]@)
                    && all_well_formed(strings_of(patterns@).take(e.index as int)),
            },
    {
        let ghost source = strings_of(patterns@);
        let mut programs: Vec<Vec<Token>> = Vec::new();
        let mut k: usize = 0;
        while k < patterns.len()
            invariant
                k <= patterns.len(),
                source == strings_of(patterns@),
                programs.len() == k,
                forall|p: int|
                    0 <= p < k ==> pattern_tokens(#[trigger] source[p]) == Some(
                        token_models(programs[p]@),
                    ),
            decreases patterns.len() - k,
        {
            let chars = chars_of(patterns[k].as_str());
            match parse_pattern(&chars) {
                Some(tokens) => {
                    programs.push(tokens);
                },
                None => {
                    return Err(PatternError { index: k });
                },
            }
            k = k + 1;
        }
        let match_all = patterns.len() == 0 || (patterns.len() == 1
            && patterns[0].as_str().is_empty());
        Ok(CompiledMatcher { programs, match_all, source: Ghost(source) })
    }

    /// Whether the pattern list accepts `name`.
    pub fn matches(&self, name: &str) -> (r: bool)
        ensures
            r == patterns_accept(self@, name@),
    {
        proof {
            use_type_invariant(self);
        }
        if self.match_all {
            return true;
        }
        let chars = chars_of(name);
        let mut rows: Vec<Vec<Vec<Cell>>> = Vec::new();
        while rows.len() <= chars.len()
            invariant
                rows.len() <= chars.len() + 1,
                table_ok(rows@, self.programs@, chars@),
            decreases chars.len() + 1 - rows.len(),
        {
            let j = rows.len();
            let mut row: Vec<Vec<Cell>> = Vec::new();
            while row.len() < self.programs.len()
                invariant
                    row.len() <= self.programs.len(),
                    j == rows.len(),
                    j <= chars.len(),
                    table_ok(rows@, self.programs@, chars@),
                    forall|p: int|
                        0 <= p < row.len() ==> line_ok(
                            (#[trigger] row[p])@,
                            token_models(self.programs[p]@),
                            chars@,
                            j as int,
                        ),
                decreases self.programs.len() - row.len(),
            {
                let p = row.len();
                let line = step_line(&self.programs, &chars, &rows, p, j);
                row.push(line);
            }
            let ghost before = rows@;
            rows.push(row);
            assert forall|jj: int, p: int|
                0 <= jj < rows.len() && 0 <= p < self.programs.len() implies #[trigger] entry_ok(
                rows@,
                self.programs@,
                chars@,
                jj,
                p,
            ) by {
                if jj < j {
                    assert(entry_ok(before, self.programs@, chars@, jj, p));
                }
            }
        }
        let last = &rows[chars.len()];
        let mut p: usize = 0;
        while p < self.programs.len()
            invariant
                p <= self.programs.len(),
                self.inv(),
                chars@ == name@,
                rows.len() == chars.len() + 1,
                last == &rows[chars.len() as int],
                table_ok(rows@, self.programs@, chars@),
                forall|q: int| 0 <= q < p ==> !pattern_accepts(#[trigger] self.source@[q], name@),
            decreases self.programs.len() - p,
        {
            assert(entry_ok(rows@, self.programs@, chars@, chars.len() as int, p as int));
            let tokens = &self.programs[p];
            let ghost models = token_models(tokens@);
            assert(models.take(tokens.len() as int) =~= models);
            assert(chars@.take(chars.len() as int) =~= chars@);
            if last[p][tokens.len()].at {
                assert(pattern_accepts(self.source@[p as int], name@));
                return true;
            }
            p = p + 1;
        }
        false
    }
}

} // verus!
