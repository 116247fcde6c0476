//! Glob patterns over entry-type names: their grammar and what they accept.
//!
//! An entry-type name is a sequence of characters in which `/` separates
//! namespace segments.  A pattern is read left to right into tokens:
//!
//! | text        | token               | accepts                                      |
//! |-------------|---------------------|----------------------------------------------|
//! | `*`         | [`Token::Star`]     | zero or more characters, none of them `/`    |
//! | `**/`       | [`Token::RecursivePrefix`] | zero or more whole segments, each with its `/` |
//! | `**` (last) | [`Token::RecursiveTail`]   | any remaining characters                     |
//! | `.`         | [`Token::AnyChar`]  | one character other than `/`                 |
//! | `[a-dx]`    | [`Token::Class`]    | one character of the set, never `/`          |
//! | `[!a-dx]`   | [`Token::Class`]    | one character outside the set, never `/`     |
//! | `{ab,cd}`   | [`Token::Alternates`] | exactly one of the listed texts            |
//! | other       | [`Token::Literal`]  | that character                               |
//!
//! `**` must open a segment (it stands first or right after a `/`) and must be
//! followed by `/` or end the pattern.  A `/` in a name is only ever accepted
//! by a `/` written in the pattern, by `**/` or by a closing `**`.

use vstd::prelude::*;

verus! {

/// One unit of a pattern, as the matcher holds it.
#[derive(Debug)]
pub enum Token {
    Literal(char),
    AnyChar,
    Star,
    Class { negated: bool, ranges: Vec<(char, char)> },
    Alternates(Vec<Vec<char>>),
    RecursivePrefix,
    RecursiveTail,
}

/// The mathematical value of a [`Token`].
pub enum TokenModel {
    Literal(char),
    AnyChar,
    Star,
    Class { negated: bool, ranges: Seq<(char, char)> },
    Alternates(Seq<Seq<char>>),
    RecursivePrefix,
    RecursiveTail,
}

/// The texts held by a list of character vectors.
pub open spec fn texts_of(items: Seq<Vec<char>>) -> Seq<Seq<char>> {
    items.map_values(|a: Vec<char>| a@)
}

impl View for Token {
    type V = TokenModel;

    open spec fn view(&self) -> TokenModel {
        match self {
            Token::Literal(c) => TokenModel::Literal(*c),
            Token::AnyChar => TokenModel::AnyChar,
            Token::Star => TokenModel::Star,
            Token::Class { negated, ranges } => TokenModel::Class {
                negated: *negated,
                ranges: ranges@,
            },
            Token::Alternates(alts) => TokenModel::Alternates(texts_of(alts@)),
            Token::RecursivePrefix => TokenModel::RecursivePrefix,
            Token::RecursiveTail => TokenModel::RecursiveTail,
        }
    }
}

/// The values of a list of tokens.
pub open spec fn token_models(tokens: Seq<Token>) -> Seq<TokenModel> {
    tokens.map_values(|t: Token| t@)
}

/// The namespace separator.
pub open spec fn is_separator(c: char) -> bool {
    c == '/'
}

/// Characters with a meaning of their own in a pattern.
pub open spec fn is_meta(c: char) -> bool {
    c == '*' || c == '.' || c == '[' || c == ']' || c == '{' || c == '}'
}

// ---------------------------------------------------------------------------
// What a token sequence accepts
// ---------------------------------------------------------------------------

/// `c` lies in one of the inclusive `ranges`.
pub open spec fn class_has(ranges: Seq<(char, char)>, c: char) -> bool {
    exists|k: int|
        0 <= k < ranges.len() && (#[trigger] ranges[k]).0 as u32 <= c as u32 && c as u32
            <= ranges[k].1 as u32
}

/// No character of `piece` is the separator.
pub open spec fn within_segment(piece: Seq<char>) -> bool {
    forall|k: int| 0 <= k < piece.len() ==> !is_separator(#[trigger] piece[k])
}

/// The token `t` accepts exactly the text `piece`.
pub open spec fn token_accepts(t: TokenModel, piece: Seq<char>) -> bool {
    match t {
        TokenModel::Literal(c) => piece =~= seq![c],
        TokenModel::AnyChar => piece.len() == 1 && !is_separator(piece[0]),
        TokenModel::Star => within_segment(piece),
        TokenModel::Class { negated, ranges } => piece.len() == 1 && !is_separator(piece[0]) && (
        class_has(ranges, piece[0]) != negated),
        TokenModel::Alternates(alts) => exists|a: int|
            0 <= a < alts.len() && #[trigger] alts[a] =~= piece,
        TokenModel::RecursivePrefix => piece.len() == 0 || is_separator(piece.last()),
        TokenModel::RecursiveTail => true,
    }
}

/// The tokens, taken in order, accept exactly the text `name`: the name splits
/// into consecutive pieces, one per token, each accepted by its token.
pub open spec fn tokens_accept(tokens: Seq<TokenModel>, name: Seq<char>) -> bool
    decreases tokens.len(),
{
    if tokens.len() == 0 {
        name.len() == 0
    } else {
        exists|k: int|
            #![trigger name.take(k)]
            0 <= k <= name.len() && tokens_accept(tokens.drop_last(), name.take(k))
                && token_accepts(tokens.last(), name.skip(k))
    }
}

// ---------------------------------------------------------------------------
// Grammar
// ---------------------------------------------------------------------------

/// Reads the members of a character class from position `j` up to its `]`.
/// `acc` holds the members read so far.  Gives the members and the position
/// after the `]`, or `None` when the class is never closed or a range runs
/// backwards.
pub open spec fn class_items(p: Seq<char>, j: int, acc: Seq<(char, char)>) -> Option<
    (Seq<(char, char)>, int),
>
    decreases p.len() - j,
{
    if j < 0 || j >= p.len() {
        None
    } else if p[j] == ']' {
        Some((acc, j + 1))
    } else if j + 2 < p.len() && p[j + 1] == '-' && p[j + 2] != ']' {
        if p[j] as u32 <= p[j + 2] as u32 {
            class_items(p, j + 3, acc.push((p[j], p[j + 2])))
        } else {
            None
        }
    } else {
        class_items(p, j + 1, acc.push((p[j], p[j])))
    }
}

/// Reads comma-separated literal alternatives from position `j` up to their
/// `}`.  `done` holds the finished alternatives and `cur` the one being read.
/// Gives the alternatives and the position after the `}`, or `None` when the
/// group is never closed or holds a character with a meaning of its own.
pub open spec fn alt_items(p: Seq<char>, j: int, done: Seq<Seq<char>>, cur: Seq<char>) -> Option<
    (Seq<Seq<char>>, int),
>
    decreases p.len() - j,
{
    if j < 0 || j >= p.len() {
        None
    } else if p[j] == '}' {
        Some((done.push(cur), j + 1))
    } else if p[j] == ',' {
        alt_items(p, j + 1, done.push(cur), Seq::empty())
    } else if is_meta(p[j]) {
        None
    } else {
        alt_items(p, j + 1, done, cur.push(p[j]))
    }
}

/// Position `i` opens a namespace segment of the pattern.
pub open spec fn at_segment_start(p: Seq<char>, i: int) -> bool {
    i == 0 || p[i - 1] == '/'
}

/// The token that starts at position `i` and the position after it, or `None`
/// when no token can be read there.
pub open spec fn token_at(p: Seq<char>, i: int) -> Option<(TokenModel, int)> {
    let c = p[i];
    if c == '*' {
        if i + 1 < p.len() && p[i + 1] == '*' {
            if !at_segment_start(p, i) {
                None
            } else if i + 2 == p.len() {
                Some((TokenModel::RecursiveTail, i + 2))
            } else if p[i + 2] == '/' {
                Some((TokenModel::RecursivePrefix, i + 3))
            } else {
                None
            }
        } else {
            Some((TokenModel::Star, i + 1))
        }
    } else if c == '.' {
        Some((TokenModel::AnyChar, i + 1))
    } else if c == '[' {
        let negated = i + 1 < p.len() && p[i + 1] == '!';
        let first = if negated {
            i + 2
        } else {
            i + 1
        };
        match class_items(p, first, Seq::empty()) {
            Some((ranges, end)) => Some((TokenModel::Class { negated, ranges }, end)),
            None => None,
        }
    } else if c == '{' {
        match alt_items(p, i + 1, Seq::empty(), Seq::empty()) {
            Some((alts, end)) => Some((TokenModel::Alternates(alts), end)),
            None => None,
        }
    } else if c == ']' || c == '}' {
        None
    } else {
        Some((TokenModel::Literal(c), i + 1))
    }
}

/// A class read from `j` ends after `j` and within the pattern.
pub proof fn lemma_class_items_end(p: Seq<char>, j: int, acc: Seq<(char, char)>)
    ensures
        class_items(p, j, acc) matches Some(r) ==> j < r.1 <= p.len(),
    decreases p.len() - j,
{
    if j < 0 || j >= p.len() {
    } else if p[j] == ']' {
    } else if j + 2 < p.len() && p[j + 1] == '-' && p[j + 2] != ']' {
        if p[j] as u32 <= p[j + 2] as u32 {
            lemma_class_items_end(p, j + 3, acc.push((p[j], p[j + 2])));
        }
    } else {
        lemma_class_items_end(p, j + 1, acc.push((p[j], p[j])));
    }
}

/// A group of alternatives read from `j` ends after `j` and within the pattern.
pub proof fn lemma_alt_items_end(p: Seq<char>, j: int, done: Seq<Seq<char>>, cur: Seq<char>)
    ensures
        alt_items(p, j, done, cur) matches Some(r) ==> j < r.1 <= p.len(),
    decreases p.len() - j,
{
    if j < 0 || j >= p.len() {
    } else if p[j] == '}' {
    } else if p[j] == ',' {
        lemma_alt_items_end(p, j + 1, done.push(cur), Seq::empty());
    } else if is_meta(p[j]) {
    } else {
        lemma_alt_items_end(p, j + 1, done, cur.push(p[j]));
    }
}

/// A token read at `i` ends after `i` and within the pattern.
pub proof fn lemma_token_at_end(p: Seq<char>, i: int)
    requires
        0 <= i < p.len(),
    ensures
        token_at(p, i) matches Some(r) ==> i < r.1 <= p.len(),
{
    if p[i] == '[' {
        let negated = i + 1 < p.len() && p[i + 1] == '!';
        let first = if negated {
            i + 2
        } else {
            i + 1
        };
        lemma_class_items_end(p, first, Seq::empty());
    } else if p[i] == '{' {
        lemma_alt_items_end(p, i + 1, Seq::empty(), Seq::empty());
    }
}

/// Reads the tokens of `p` from position `i` on, after the tokens `acc`.
/// `None` when some position holds no token.
pub open spec fn tokens_from(p: Seq<char>, i: int, acc: Seq<TokenModel>) -> Option<
    Seq<TokenModel>,
>
    decreases p.len() - i,
{
    if i < 0 || i >= p.len() {
        Some(acc)
    } else {
        match token_at(p, i) {
            Some((t, next)) => {
                proof {
                    lemma_token_at_end(p, i);
                }
                tokens_from(p, next, acc.push(t))
            },
            None => None,
        }
    }
}

/// The tokens of the pattern `p`, or `None` when `p` is not well-formed.
pub open spec fn pattern_tokens(p: Seq<char>) -> Option<Seq<TokenModel>> {
    tokens_from(p, 0, Seq::empty())
}

/// The pattern `p` follows the grammar.
pub open spec fn well_formed(p: Seq<char>) -> bool {
    pattern_tokens(p) is Some
}

/// The pattern `p` is well-formed and accepts exactly the text `name`.
pub open spec fn pattern_accepts(p: Seq<char>, name: Seq<char>) -> bool {
    match pattern_tokens(p) {
        Some(tokens) => tokens_accept(tokens, name),
        None => false,
    }
}

// ---------------------------------------------------------------------------
// Reading a pattern
// ---------------------------------------------------------------------------

/// Whether `c` has a meaning of its own in a pattern.
pub fn is_meta_char(c: char) -> (r: bool)
    ensures
        r == is_meta(c),
{
    c == '*' || c == '.' || c == '[' || c == ']' || c == '{' || c == '}'
}

/// Reads the members of a character class whose first member stands at
/// `first`.
fn read_class(p: &Vec<char>, first: usize) -> (r: Option<(Vec<(char, char)>, usize)>)
    ensures
        match class_items(p@, first as int, Seq::empty()) {
            Some((ranges, end)) => r is Some && r.unwrap().0@ == ranges && r.unwrap().1 == end,
            None => r is None,
        },
{
    let mut ranges: Vec<(char, char)> = Vec::new();
    let mut j: usize = first;
    while j < p.len()
        invariant
            first <= j,
            class_items(p@, first as int, Seq::empty()) == class_items(p@, j as int, ranges@),
        decreases p.len() - j,
    {
        let c = p[j];
        if c == ']' {
            return Some((ranges, j + 1));
        }
        if p.len() - j > 2 && p[j + 1] == '-' && p[j + 2] != ']' {
            let hi = p[j + 2];
            if c as u32 <= hi as u32 {
                ranges.push((c, hi));
                j = j + 3;
            } else {
                return None;
            }
        } else {
            ranges.push((c, c));
            j = j + 1;
        }
    }
    None
}

/// Reads a group of alternatives whose first character stands at `first`.
fn read_alternates(p: &Vec<char>, first: usize) -> (r: Option<(Vec<Vec<char>>, usize)>)
    ensures
        match alt_items(p@, first as int, Seq::empty(), Seq::empty()) {
            Some((alts, end)) => r is Some && texts_of(r.unwrap().0@) == alts && r.unwrap().1
                == end,
            None => r is None,
        },
{
    let mut done: Vec<Vec<char>> = Vec::new();
    let mut cur: Vec<char> = Vec::new();
    let mut j: usize = first;
    assert(texts_of(done@) =~= Seq::<Seq<char>>::empty());
    while j < p.len()
        invariant
            first <= j,
            alt_items(p@, first as int, Seq::empty(), Seq::empty()) == alt_items(
                p@,
                j as int,
                texts_of(done@),
                cur@,
            ),
        decreases p.len() - j,
    {
        let c = p[j];
        if c == '}' {
            let ghost before = done@;
            let ghost last = cur@;
            done.push(cur);
            assert(texts_of(done@) =~= texts_of(before).push(last));
            return Some((done, j + 1));
        } else if c == ',' {
            let ghost before = done@;
            let ghost last = cur@;
            done.push(cur);
            assert(texts_of(done@) =~= texts_of(before).push(last));
            cur = Vec::new();
        } else if is_meta_char(c) {
            return None;
        } else {
            cur.push(c);
        }
        j = j + 1;
    }
    None
}

/// Reads the token that starts at position `i`.
fn read_token(p: &Vec<char>, i: usize) -> (r: Option<(Token, usize)>)
    requires
        i < p.len(),
    ensures
        match token_at(p@, i as int) {
            Some((t, next)) => r is Some && r.unwrap().0@ == t && r.unwrap().1 == next && i
                < next <= p.len(),
            None => r is None,
        },
{
    proof {
        lemma_token_at_end(p@, i as int);
    }
    let c = p[i];
    if c == '*' {
        if p.len() - i > 1 && p[i + 1] == '*' {
            if !(i == 0 || p[i - 1] == '/') {
                None
            } else if p.len() - i == 2 {
                Some((Token::RecursiveTail, i + 2))
            } else if p[i + 2] == '/' {
                Some((Token::RecursivePrefix, i + 3))
            } else {
                None
            }
        } else {
            Some((Token::Star, i + 1))
        }
    } else if c == '.' {
        Some((Token::AnyChar, i + 1))
    } else if c == '[' {
        let negated = p.len() - i > 1 && p[i + 1] == '!';
        let first: usize = if negated {
            i + 2
        } else {
            i + 1
        };
        match read_class(p, first) {
            Some((ranges, end)) => Some((Token::Class { negated, ranges }, end)),
            None => None,
        }
    } else if c == '{' {
        match read_alternates(p, i + 1) {
            Some((alts, end)) => Some((Token::Alternates(alts), end)),
            None => None,
        }
    } else if c == ']' || c == '}' {
        None
    } else {
        Some((Token::Literal(c), i + 1))
    }
}

/// Reads a whole pattern, given as its characters.
pub fn parse_pattern(p: &Vec<char>) -> (r: Option<Vec<Token>>)
    ensures
        match pattern_tokens(p@) {
            Some(tokens) => r is Some && token_models(r.unwrap()@) == tokens,
            None => r is None,
        },
{
    let mut out: Vec<Token> = Vec::new();
    let mut i: usize = 0;
    assert(token_models(out@) =~= Seq::<TokenModel>::empty());
    while i < p.len()
        invariant
            i <= p.len(),
            pattern_tokens(p@) == tokens_from(p@, i as int, token_models(out@)),
        decreases p.len() - i,
    {
        match read_token(p, i) {
            Some((t, next)) => {
                let ghost before = out@;
                let ghost model = t@;
                out.push(t);
                assert(token_models(out@) =~= token_models(before).push(model));
                i = next;
            },
            None => {
                return None;
            },
        }
    }
    Some(out)
}

} // verus!
