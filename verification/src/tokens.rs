//! A model of Rust token streams, as procedural macros see them.
//!
//! `TokenTree` is the executable form: a group owns its inner stream. `Token` is its
//! mathematical view, in which a group holds a sequence of views. Every contract of the
//! attribute expansions speaks of `Token` sequences.
use vstd::prelude::*;
use crate::escape::{escape_text, escaped};

verus! {

/// The delimiter of a token group.
#[derive(Clone, Copy, PartialEq, Eq, Structural, Debug)]
pub enum Delim {
    /// `( ... )`
    Parenthesis,
    /// `{ ... }`
    Brace,
    /// `[ ... ]`
    Bracket,
    /// An invisible group, as produced by macro expansion.
    Invisible,
}

/// Whether a punctuation character is glued to the punctuation that follows it.
#[derive(Clone, Copy, PartialEq, Eq, Structural, Debug)]
pub enum Spacing {
    Alone,
    Joint,
}

/// A token tree: a delimited group of trees, an identifier, a punctuation character or a
/// literal. Identifiers and literals hold their source text.
#[derive(PartialEq, Eq, Debug)]
pub enum TokenTree {
    Group(Delim, Vec<TokenTree>),
    Ident(String),
    Punct(char, Spacing),
    Literal(String),
}

/// The view of a token tree.
pub enum Token {
    Group(Delim, Seq<Token>),
    Ident(Seq<char>),
    Punct(char, Spacing),
    Literal(Seq<char>),
}

/// The view of a single tree.
pub open spec fn tree_view(t: TokenTree) -> Token
    decreases t,
{
    match t {
        TokenTree::Group(d, v) => Token::Group(
            d,
            Seq::new(
                v.len() as nat,
                |i: int|
                    if 0 <= i < v.len() {
                        tree_view(v[i])
                    } else {
                        Token::Punct(' ', Spacing::Alone)
                    },
            ),
        ),
        TokenTree::Ident(s) => Token::Ident(s@),
        TokenTree::Punct(c, sp) => Token::Punct(c, sp),
        TokenTree::Literal(s) => Token::Literal(s@),
    }
}

/// The view of a stream of trees.
pub open spec fn stream_view(s: Seq<TokenTree>) -> Seq<Token> {
    Seq::new(s.len(), |i: int| tree_view(s[i]))
}

/// A lone punctuation character.
pub open spec fn alone(c: char) -> Token {
    Token::Punct(c, Spacing::Alone)
}

/// A punctuation character glued to the next one.
pub open spec fn joint(c: char) -> Token {
    Token::Punct(c, Spacing::Joint)
}

/// The path separator `::`.
pub open spec fn path_sep() -> Seq<Token> {
    seq![joint(':'), alone(':')]
}

/// The arrow `=>`.
pub open spec fn fat_arrow() -> Seq<Token> {
    seq![joint('='), alone('>')]
}

/// Whether `t` is the identifier `word`.
pub open spec fn is_word(t: Token, word: Seq<char>) -> bool {
    t matches Token::Ident(x) && x == word
}

/// Whether `t` is an identifier.
pub open spec fn is_ident(t: Token) -> bool {
    t is Ident
}

/// Whether `t` is the punctuation character `c`, whatever its spacing.
pub open spec fn is_punct(t: Token, c: char) -> bool {
    t matches Token::Punct(x, _) && x == c
}

/// Whether `t` is a group with delimiter `d`.
pub open spec fn is_group(t: Token, d: Delim) -> bool {
    t matches Token::Group(x, _) && x == d
}

/// The contents of a group (empty for any other token).
pub open spec fn group_inner(t: Token) -> Seq<Token> {
    match t {
        Token::Group(_, inner) => inner,
        _ => Seq::empty(),
    }
}

/// The text of the string literal that holds `text`: `text` escaped, between double quotes.
pub open spec fn quoted(text: Seq<char>) -> Seq<char> {
    seq!['"'] + escaped(text) + seq!['"']
}

/// The tokens `compile_error!("<message>");`.
pub open spec fn error_tokens(message: Seq<char>) -> Seq<Token> {
    seq![
        Token::Ident("compile_error"@),
        alone('!'),
        Token::Group(Delim::Parenthesis, seq![Token::Literal(quoted(message))]),
        alone(';'),
    ]
}

pub proof fn lemma_group_view(d: Delim, v: Vec<TokenTree>)
    ensures
        tree_view(TokenTree::Group(d, v)) == Token::Group(d, stream_view(v@)),
{
    let t = tree_view(TokenTree::Group(d, v));
    let inner = t->Group_1;
    assert forall|i: int| 0 <= i < inner.len() implies inner[i] == stream_view(v@)[i] by {
        assert(inner[i] == tree_view(v[i]));
    }
    assert(inner =~= stream_view(v@));
}

pub proof fn lemma_stream_push(s: Seq<TokenTree>, t: TokenTree)
    ensures
        stream_view(s.push(t)) == stream_view(s).push(tree_view(t)),
{
    assert(stream_view(s.push(t)) =~= stream_view(s).push(tree_view(t)));
}

/// A copy of a tree.
pub fn copy_tree(t: &TokenTree) -> (r: TokenTree)
    ensures
        tree_view(r) == tree_view(*t),
    decreases *t, 2nat,
{
    match t {
        TokenTree::Group(d, v) => {
            let inner = copy_range(v, 0, v.len());
            proof {
                lemma_group_view(*d, inner);
                lemma_group_view(*d, *v);
                assert(stream_view(v@).subrange(0, v.len() as int) =~= stream_view(v@));
            }
            TokenTree::Group(*d, inner)
        },
        TokenTree::Ident(s) => TokenTree::Ident(s.clone()),
        TokenTree::Punct(c, sp) => TokenTree::Punct(*c, *sp),
        TokenTree::Literal(s) => TokenTree::Literal(s.clone()),
    }
}

/// A copy of the trees of `v` from `from` up to `to`.
pub fn copy_range(v: &Vec<TokenTree>, from: usize, to: usize) -> (r: Vec<TokenTree>)
    requires
        from <= to <= v.len(),
    ensures
        stream_view(r@) == stream_view(v@).subrange(from as int, to as int),
    decreases v, 1nat,
{
    let mut out: Vec<TokenTree> = Vec::new();
    extend_range(&mut out, v, from, to);
    assert(stream_view(out@) =~= stream_view(v@).subrange(from as int, to as int));
    out
}

/// Appends to `out` a copy of the trees of `v` from `from` up to `to`.
pub fn extend_range(out: &mut Vec<TokenTree>, v: &Vec<TokenTree>, from: usize, to: usize)
    requires
        from <= to <= v.len(),
    ensures
        stream_view(final(out)@) == stream_view(old(out)@) + stream_view(v@).subrange(
            from as int,
            to as int,
        ),
    decreases v, 0nat,
{
    let ghost start = stream_view(out@);
    let mut i = from;
    while i < to
        invariant
            from <= i <= to <= v.len(),
            stream_view(out@) == start + stream_view(v@).subrange(from as int, i as int),
        decreases to - i,
    {
        let t = copy_tree(&v[i]);
        proof {
            lemma_stream_push(out@, t);
        }
        out.push(t);
        assert(stream_view(v@).subrange(from as int, i + 1) =~= stream_view(v@).subrange(
            from as int,
            i as int,
        ).push(tree_view(v@[i as int])));
        i = i + 1;
    }
}

/// The identifier `text`.
pub fn word(text: &str) -> (t: TokenTree)
    ensures
        tree_view(t) == Token::Ident(text@),
{
    TokenTree::Ident(text.to_owned())
}

/// The lone punctuation character `c`.
pub fn lone(c: char) -> (t: TokenTree)
    ensures
        tree_view(t) == alone(c),
{
    TokenTree::Punct(c, Spacing::Alone)
}

/// The punctuation character `c`, glued to the next one.
pub fn glued(c: char) -> (t: TokenTree)
    ensures
        tree_view(t) == joint(c),
{
    TokenTree::Punct(c, Spacing::Joint)
}

/// A group of the trees in `v`.
pub fn make_group(d: Delim, v: Vec<TokenTree>) -> (t: TokenTree)
    ensures
        tree_view(t) == Token::Group(d, stream_view(v@)),
{
    proof {
        lemma_group_view(d, v);
    }
    TokenTree::Group(d, v)
}

/// Appends one tree to a stream.
pub fn push_tree(out: &mut Vec<TokenTree>, t: TokenTree)
    ensures
        stream_view(final(out)@) == stream_view(old(out)@).push(tree_view(t)),
{
    proof {
        lemma_stream_push(out@, t);
    }
    out.push(t);
}

/// Appends the path separator `::` to a stream.
pub fn push_path_sep(out: &mut Vec<TokenTree>)
    ensures
        stream_view(final(out)@) == stream_view(old(out)@) + path_sep(),
{
    push_tree(out, glued(':'));
    push_tree(out, lone(':'));
    assert(stream_view(out@) =~= stream_view(old(out)@) + path_sep());
}

/// Appends the arrow `=>` to a stream.
pub fn push_fat_arrow(out: &mut Vec<TokenTree>)
    ensures
        stream_view(final(out)@) == stream_view(old(out)@) + fat_arrow(),
{
    push_tree(out, glued('='));
    push_tree(out, lone('>'));
    assert(stream_view(out@) =~= stream_view(old(out)@) + fat_arrow());
}

/// Appends every tree of `v`, moved, to a stream.
pub fn append_stream(out: &mut Vec<TokenTree>, v: Vec<TokenTree>)
    ensures
        stream_view(final(out)@) == stream_view(old(out)@) + stream_view(v@),
{
    let mut v = v;
    let ghost added = stream_view(v@);
    let ghost old_out = out@;
    out.append(&mut v);
    assert(stream_view(out@) =~= stream_view(old_out) + added);
}

/// Whether `t` is the identifier `w`.
pub fn tree_is_word(t: &TokenTree, w: &str) -> (r: bool)
    ensures
        r == is_word(tree_view(*t), w@),
{
    match t {
        TokenTree::Ident(s) => {
            let wanted = w.to_owned();
            *s == wanted
        },
        _ => false,
    }
}

/// Whether `t` is an identifier.
pub fn tree_is_ident(t: &TokenTree) -> (r: bool)
    ensures
        r == is_ident(tree_view(*t)),
{
    match t {
        TokenTree::Ident(_) => true,
        _ => false,
    }
}

/// Whether `t` is the punctuation character `c`.
pub fn tree_is_punct(t: &TokenTree, c: char) -> (r: bool)
    ensures
        r == is_punct(tree_view(*t), c),
{
    match t {
        TokenTree::Punct(x, _) => *x == c,
        _ => false,
    }
}

/// Whether `t` is a group with delimiter `d`.
pub fn tree_is_group(t: &TokenTree, d: Delim) -> (r: bool)
    ensures
        r == is_group(tree_view(*t), d),
{
    match t {
        TokenTree::Group(x, _) => *x == d,
        _ => false,
    }
}

/// The string literal that holds `text`.
pub fn string_literal(text: &str) -> (t: TokenTree)
    ensures
        tree_view(t) == Token::Literal(quoted(text@)),
{
    let mut s = "\"".to_owned();
    let body = escape_text(text);
    s.append(body.as_str());
    s.append("\"");
    proof {
        reveal_strlit("\"");
        assert(s@ =~= quoted(text@));
    }
    TokenTree::Literal(s)
}

/// `item` followed by `compile_error!("<message>");`, the way an attribute reports that it
/// cannot expand `item`.
pub fn output_err(message: &str, item: Vec<TokenTree>) -> (r: Vec<TokenTree>)
    ensures
        stream_view(r@) == stream_view(item@) + error_tokens(message@),
{
    let mut out = item;
    let ghost start = stream_view(out@);
    push_tree(&mut out, word("compile_error"));
    push_tree(&mut out, lone('!'));
    let mut args: Vec<TokenTree> = Vec::new();
    push_tree(&mut args, string_literal(message));
    assert(stream_view(args@) =~= seq![Token::Literal(quoted(message@))]);
    push_tree(&mut out, make_group(Delim::Parenthesis, args));
    push_tree(&mut out, lone(';'));
    assert(stream_view(out@) =~= start + error_tokens(message@));
    out
}

/// The trees inside `t`, when `t` is a group.
pub fn group_contents(t: &TokenTree) -> (r: Option<&Vec<TokenTree>>)
    ensures
        r is Some == tree_view(*t) is Group,
        r matches Some(v) ==> group_inner(tree_view(*t)) == stream_view(v@),
{
    match t {
        TokenTree::Group(d, v) => {
            proof {
                lemma_group_view(*d, *v);
            }
            Some(v)
        },
        _ => None,
    }
}

} // verus!
