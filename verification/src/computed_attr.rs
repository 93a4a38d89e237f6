//! The `#[computed(Source)]` attribute: it turns an enum whose unit variants each carry a
//! `#[pat(<pattern>)]` attribute into a computed state of the state type `Source`. The enum
//! gets the derives a state needs, and an implementation of `ComputedStates` whose
//! `compute` maps every value that matches a variant's pattern to that variant, and any
//! other value to `None`.
//!
//! The item is read as: any tokens up to the keyword `enum`, the enum's name, and a braced
//! list of variants separated by commas. A variant is any tokens up to its first attribute
//! of the form `#[<name>(...)]`, a run of such attributes, and the variant's name. Tokens
//! after the braced list are not read. An item of another shape is reported with a message
//! of the library's own wording; a variant with two patterns or none is reported with the
//! fixed messages below.
use vstd::prelude::*;
use crate::tokens::{
    alone, append_stream, copy_range, copy_tree, error_tokens, extend_range, fat_arrow,
    group_contents, group_inner, is_group, is_ident, is_punct, is_word, joint, lone, glued,
    make_group, output_err, path_sep, push_fat_arrow, push_path_sep, push_tree, stream_view,
    tree_is_group, tree_is_ident, tree_is_punct, tree_is_word, tree_view, word, Delim, Token,
    TokenTree,
};

verus! {

/// What the attribute reports when the item does not have the expected shape.
/// This message is the library's own wording. It does not reproduce a token parser's error
/// text, which names the token found and its source position: the tokens here carry no
/// positions.
pub const ENUM_SHAPE_ERROR: &'static str =
    "expected `enum`, a name and a braced list of variants, each ending with its name";

/// What the attribute reports for a variant with more than one `#[pat(...)]`.
pub const MULTIPLE_PAT_ERROR: &'static str = "multiple #[pat] attributes";

/// What the attribute reports for a variant without `#[pat(...)]`.
pub const MISSING_PAT_ERROR: &'static str = "expected #[pat] attribute with a pattern";

/// Where the parts of one variant stand in the enum's body: its leading tokens start at
/// `start`, its run of named attributes at `attrs`, its name is at `name`, and the next
/// variant starts at `next`. `comma` tells whether a comma follows the name.
pub struct VariantSpan {
    pub start: int,
    pub attrs: int,
    pub name: int,
    pub next: int,
    pub comma: bool,
}

/// The first position from `i` on that holds the keyword `enum`, or the end of the stream.
pub open spec fn enum_pos(s: Seq<Token>, i: int) -> int
    decreases s.len() - i,
{
    if i >= s.len() || is_word(s[i], "enum"@) {
        i
    } else {
        enum_pos(s, i + 1)
    }
}

/// Whether an attribute `# [ <name> ( ... ) ]` starts at `i`.
pub open spec fn named_attr_at(c: Seq<Token>, i: int) -> bool {
    &&& 0 <= i
    &&& i + 1 < c.len()
    &&& is_punct(c[i], '#')
    &&& is_group(c[i + 1], Delim::Bracket)
    &&& group_inner(c[i + 1]).len() == 2
    &&& is_ident(group_inner(c[i + 1])[0])
    &&& is_group(group_inner(c[i + 1])[1], Delim::Parenthesis)
}

/// The name of the attribute that starts at `i`.
pub open spec fn attr_name(c: Seq<Token>, i: int) -> Token {
    group_inner(c[i + 1])[0]
}

/// The tokens between the parentheses of the attribute that starts at `i`.
pub open spec fn attr_args(c: Seq<Token>, i: int) -> Seq<Token> {
    group_inner(group_inner(c[i + 1])[1])
}

/// Whether the attribute that starts at `i` is `#[pat(...)]`.
pub open spec fn is_pat_attr(c: Seq<Token>, i: int) -> bool {
    is_word(attr_name(c, i), "pat"@)
}

/// The first position from `i` on where a named attribute starts, or the end of the stream.
pub open spec fn named_attr_start(c: Seq<Token>, i: int) -> int
    decreases c.len() - i,
{
    if i >= c.len() || named_attr_at(c, i) {
        i
    } else {
        named_attr_start(c, i + 1)
    }
}

/// The end of the run of named attributes that starts at `i`.
pub open spec fn named_attrs_end(c: Seq<Token>, i: int) -> int
    decreases c.len() - i,
{
    if named_attr_at(c, i) {
        named_attrs_end(c, i + 2)
    } else {
        i
    }
}

pub proof fn lemma_named_attr_start_bounds(c: Seq<Token>, i: int)
    requires
        0 <= i <= c.len(),
    ensures
        i <= named_attr_start(c, i) <= c.len(),
    decreases c.len() - i,
{
    if i < c.len() && !named_attr_at(c, i) {
        lemma_named_attr_start_bounds(c, i + 1);
    }
}

pub proof fn lemma_named_attrs_end_bounds(c: Seq<Token>, i: int)
    requires
        0 <= i <= c.len(),
    ensures
        i <= named_attrs_end(c, i) <= c.len(),
    decreases c.len() - i,
{
    if named_attr_at(c, i) {
        lemma_named_attrs_end_bounds(c, i + 2);
    }
}

/// The variant that starts at `p`, if one does.
pub open spec fn parse_variant(c: Seq<Token>, p: int) -> Option<VariantSpan> {
    let u = named_attr_start(c, p);
    let v = named_attrs_end(c, u);
    if 0 <= v < c.len() && is_ident(c[v]) {
        let comma = v + 1 < c.len() && is_punct(c[v + 1], ',');
        Some(
            VariantSpan {
                start: p,
                attrs: u,
                name: v,
                next: if comma {
                    v + 2
                } else {
                    v + 1
                },
                comma,
            },
        )
    } else {
        None
    }
}

/// The variants of the body `c` from `p` on, when the rest of the body reads as a list of
/// variants.
pub open spec fn parse_variants(c: Seq<Token>, p: int) -> Option<Seq<VariantSpan>>
    decreases c.len() - p,
{
    if p < 0 || p >= c.len() {
        if p == c.len() {
            Some(Seq::empty())
        } else {
            None
        }
    } else {
        match parse_variant(c, p) {
            None => None,
            Some(v) => {
                proof {
                    lemma_named_attr_start_bounds(c, p);
                    lemma_named_attrs_end_bounds(c, named_attr_start(c, p));
                }
                if v.comma {
                    match parse_variants(c, v.next) {
                        Some(rest) => Some(seq![v] + rest),
                        None => None,
                    }
                } else if v.next == c.len() {
                    Some(seq![v])
                } else {
                    None
                }
            },
        }
    }
}

/// How many of the attributes between `a` and `i` are `#[pat(...)]`.
pub open spec fn pat_count(c: Seq<Token>, a: int, i: int) -> nat
    decreases i - a,
{
    if i < a + 2 {
        0
    } else {
        pat_count(c, a, i - 2) + if is_pat_attr(c, i - 2) {
            1nat
        } else {
            0nat
        }
    }
}

/// Where the first `#[pat(...)]` between `a` and `i` starts.
pub open spec fn first_pat_pos(c: Seq<Token>, a: int, i: int) -> Option<int>
    decreases i - a,
{
    if i < a + 2 {
        None
    } else {
        match first_pat_pos(c, a, i - 2) {
            Some(p) => Some(p),
            None => if is_pat_attr(c, i - 2) {
                Some(i - 2)
            } else {
                None
            },
        }
    }
}

/// The attributes between `a` and `i` other than `#[pat(...)]`, as they are written back.
pub open spec fn other_attrs(c: Seq<Token>, a: int, i: int) -> Seq<Token>
    decreases i - a,
{
    if i < a + 2 {
        Seq::empty()
    } else {
        other_attrs(c, a, i - 2) + if is_pat_attr(c, i - 2) {
            Seq::empty()
        } else {
            seq![alone('#'), c[i - 1]]
        }
    }
}

/// The error of a variant: more than one pattern, or none.
pub open spec fn variant_error(c: Seq<Token>, v: VariantSpan) -> Option<Seq<char>> {
    if pat_count(c, v.attrs, v.name) >= 2 {
        Some(MULTIPLE_PAT_ERROR@)
    } else if pat_count(c, v.attrs, v.name) == 0 {
        Some(MISSING_PAT_ERROR@)
    } else {
        None
    }
}

/// The error of the first variant that has one.
pub open spec fn first_error(c: Seq<Token>, vs: Seq<VariantSpan>) -> Option<Seq<char>>
    decreases vs.len(),
{
    if vs.len() == 0 {
        None
    } else {
        match first_error(c, vs.drop_last()) {
            Some(m) => Some(m),
            None => variant_error(c, vs.last()),
        }
    }
}

/// A variant as the enum declares it: its attributes other than the pattern, its leading
/// tokens, its name and its comma.
pub open spec fn variant_tokens(c: Seq<Token>, v: VariantSpan) -> Seq<Token> {
    other_attrs(c, v.attrs, v.name) + c.subrange(v.start, v.attrs) + seq![c[v.name]] + if v.comma {
        seq![alone(',')]
    } else {
        Seq::empty()
    }
}

/// The match arm of a variant: `<pattern> => Some(Self::<name>),`.
pub open spec fn match_arm(c: Seq<Token>, v: VariantSpan) -> Seq<Token> {
    attr_args(c, first_pat_pos(c, v.attrs, v.name).unwrap()) + fat_arrow() + seq![
        Token::Ident("Some"@),
        Token::Group(Delim::Parenthesis, seq![Token::Ident("Self"@)] + path_sep() + seq![c[v.name]]),
        alone(','),
    ]
}

pub open spec fn all_variant_tokens(c: Seq<Token>, vs: Seq<VariantSpan>) -> Seq<Token>
    decreases vs.len(),
{
    if vs.len() == 0 {
        Seq::empty()
    } else {
        all_variant_tokens(c, vs.drop_last()) + variant_tokens(c, vs.last())
    }
}

pub open spec fn all_match_arms(c: Seq<Token>, vs: Seq<VariantSpan>) -> Seq<Token>
    decreases vs.len(),
{
    if vs.len() == 0 {
        Seq::empty()
    } else {
        all_match_arms(c, vs.drop_last()) + match_arm(c, vs.last())
    }
}

/// `#[derive(Debug, Hash, PartialEq, Eq, Clone, Copy)]`
pub open spec fn derive_tokens() -> Seq<Token> {
    seq![
        alone('#'),
        Token::Group(
            Delim::Bracket,
            seq![
                Token::Ident("derive"@),
                Token::Group(
                    Delim::Parenthesis,
                    seq![
                        Token::Ident("Debug"@),
                        alone(','),
                        Token::Ident("Hash"@),
                        alone(','),
                        Token::Ident("PartialEq"@),
                        alone(','),
                        Token::Ident("Eq"@),
                        alone(','),
                        Token::Ident("Clone"@),
                        alone(','),
                        Token::Ident("Copy"@),
                    ],
                ),
            ],
        ),
    ]
}

/// `fn compute(sources: Self::SourceStates) -> Option<Self> { match sources { <arms> _ => None, } }`
pub open spec fn compute_tokens(arms: Seq<Token>) -> Seq<Token> {
    seq![
        Token::Ident("fn"@),
        Token::Ident("compute"@),
        Token::Group(
            Delim::Parenthesis,
            seq![Token::Ident("sources"@), alone(':'), Token::Ident("Self"@)] + path_sep() + seq![
                Token::Ident("SourceStates"@),
            ],
        ),
        joint('-'),
        alone('>'),
        Token::Ident("Option"@),
        alone('<'),
        Token::Ident("Self"@),
        alone('>'),
        Token::Group(
            Delim::Brace,
            seq![
                Token::Ident("match"@),
                Token::Ident("sources"@),
                Token::Group(
                    Delim::Brace,
                    arms + seq![Token::Ident("_"@)] + fat_arrow() + seq![
                        Token::Ident("None"@),
                        alone(','),
                    ],
                ),
            ],
        ),
    ]
}

/// `impl ::bevy::state::state::ComputedStates for <name> { type SourceStates = <source>; <compute> }`
pub open spec fn impl_tokens(name: Token, source: Seq<Token>, arms: Seq<Token>) -> Seq<Token> {
    seq![Token::Ident("impl"@)] + path_sep() + seq![Token::Ident("bevy"@)] + path_sep() + seq![
        Token::Ident("state"@),
    ] + path_sep() + seq![Token::Ident("state"@)] + path_sep() + seq![
        Token::Ident("ComputedStates"@),
        Token::Ident("for"@),
        name,
        Token::Group(
            Delim::Brace,
            seq![Token::Ident("type"@), Token::Ident("SourceStates"@), alone('=')] + source + seq![
                alone(';'),
            ] + compute_tokens(arms),
        ),
    ]
}

/// Whether `item` reads as an enum with a list of variants.
pub open spec fn enum_well_shaped(item: Seq<Token>) -> bool {
    let e = enum_pos(item, 0);
    &&& e + 2 < item.len()
    &&& is_ident(item[e + 1])
    &&& is_group(item[e + 2], Delim::Brace)
    &&& parse_variants(group_inner(item[e + 2]), 0) is Some
}

/// The body of the enum.
pub open spec fn enum_body(item: Seq<Token>) -> Seq<Token> {
    group_inner(item[enum_pos(item, 0) + 2])
}

/// The variants of the enum.
pub open spec fn enum_variants(item: Seq<Token>) -> Seq<VariantSpan> {
    parse_variants(enum_body(item), 0).unwrap()
}

/// What `#[computed(<source>)]` turns `item` into.
pub open spec fn computed_expansion(source: Seq<Token>, item: Seq<Token>) -> Seq<Token> {
    if !enum_well_shaped(item) {
        item + error_tokens(ENUM_SHAPE_ERROR@)
    } else if first_error(enum_body(item), enum_variants(item)) is Some {
        item + error_tokens(first_error(enum_body(item), enum_variants(item)).unwrap())
    } else {
        let e = enum_pos(item, 0);
        let c = enum_body(item);
        let vs = enum_variants(item);
        derive_tokens() + item.subrange(0, e) + seq![
            Token::Ident("enum"@),
            item[e + 1],
            Token::Group(Delim::Brace, all_variant_tokens(c, vs)),
        ] + impl_tokens(item[e + 1], source, all_match_arms(c, vs))
    }
}

pub proof fn lemma_named_attrs_end_parity(c: Seq<Token>, i: int)
    ensures
        (named_attrs_end(c, i) - i) % 2 == 0,
    decreases c.len() - i,
{
    if named_attr_at(c, i) {
        lemma_named_attrs_end_parity(c, i + 2);
    }
}

pub proof fn lemma_pat_count_grows(c: Seq<Token>, a: int, i: int, j: int)
    requires
        a <= i <= j,
        (j - i) % 2 == 0,
    ensures
        pat_count(c, a, i) <= pat_count(c, a, j),
    decreases j - i,
{
    if j > i {
        lemma_pat_count_grows(c, a, i, j - 2);
    }
}

pub proof fn lemma_first_error_prefix(c: Seq<Token>, vs: Seq<VariantSpan>, j: int)
    requires
        0 <= j <= vs.len(),
        first_error(c, vs.take(j)) is Some,
    ensures
        first_error(c, vs) == first_error(c, vs.take(j)),
    decreases vs.len() - j,
{
    if j == vs.len() {
        assert(vs.take(j) =~= vs);
    } else {
        assert(vs.take(j + 1).drop_last() =~= vs.take(j));
        lemma_first_error_prefix(c, vs, j + 1);
    }
}

/// Where one variant stands, as positions in the body.
#[derive(Clone, Copy)]
struct Span {
    start: usize,
    attrs: usize,
    name: usize,
    next: usize,
    comma: bool,
}

spec fn span_view(s: Span) -> VariantSpan {
    VariantSpan {
        start: s.start as int,
        attrs: s.attrs as int,
        name: s.name as int,
        next: s.next as int,
        comma: s.comma,
    }
}

spec fn spans_view(v: Seq<Span>) -> Seq<VariantSpan> {
    v.map_values(|s: Span| span_view(s))
}

/// The facts about a variant's positions that its expansion relies on.
spec fn span_ok(c: Seq<Token>, s: Span) -> bool {
    &&& s.start <= s.attrs <= s.name < c.len()
    &&& named_attrs_end(c, s.attrs as int) == s.name
}

/// The first position that holds the keyword `enum`, or the end of the stream.
fn find_enum(item: &Vec<TokenTree>) -> (e: usize)
    ensures
        e == enum_pos(stream_view(item@), 0),
{
    let ghost s = stream_view(item@);
    let n = item.len();
    let mut e: usize = 0;
    while e < n && !tree_is_word(&item[e], "enum")
        invariant
            n == item.len(),
            s == stream_view(item@),
            e <= n,
            enum_pos(s, 0) == enum_pos(s, e as int),
        decreases n - e,
    {
        e = e + 1;
    }
    e
}

/// Whether an attribute `# [ <name> ( ... ) ]` starts at `i`.
fn named_attr_starts(c: &Vec<TokenTree>, i: usize) -> (r: bool)
    ensures
        r == named_attr_at(stream_view(c@), i as int),
{
    if !(i < c.len() && i + 1 < c.len() && tree_is_punct(&c[i], '#') && tree_is_group(
        &c[i + 1],
        Delim::Bracket,
    )) {
        return false;
    }
    match group_contents(&c[i + 1]) {
        Some(inner) => inner.len() == 2 && tree_is_ident(&inner[0]) && tree_is_group(
            &inner[1],
            Delim::Parenthesis,
        ),
        None => false,
    }
}

/// Whether the attribute that starts at `i` is `#[pat(...)]`.
fn pat_attr_at(c: &Vec<TokenTree>, i: usize) -> (r: bool)
    requires
        named_attr_at(stream_view(c@), i as int),
    ensures
        r == is_pat_attr(stream_view(c@), i as int),
{
    assert(stream_view(c@).len() == c@.len());
    assert(i + 1 < stream_view(c@).len());
    assert(i + 1 < c.len());
    match group_contents(&c[i + 1]) {
        Some(inner) => tree_is_word(&inner[0], "pat"),
        None => false,
    }
}

/// A copy of the tokens between the parentheses of the attribute that starts at `i`.
fn copy_attr_args(c: &Vec<TokenTree>, i: usize) -> (r: Vec<TokenTree>)
    requires
        named_attr_at(stream_view(c@), i as int),
    ensures
        stream_view(r@) == attr_args(stream_view(c@), i as int),
{
    let ghost cv = stream_view(c@);
    assert(cv.len() == c@.len());
    assert(i + 1 < cv.len());
    assert(i + 1 < c.len());
    match group_contents(&c[i + 1]) {
        Some(inner) => match group_contents(&inner[1]) {
            Some(args) => {
                let r = copy_range(args, 0, args.len());
                assert(stream_view(args@).subrange(0, args.len() as int) =~= stream_view(args@));
                r
            },
            None => Vec::new(),
        },
        None => Vec::new(),
    }
}

/// Reads the body of the enum as a list of variants.
fn parse_body(c: &Vec<TokenTree>) -> (r: Option<Vec<Span>>)
    ensures
        r is Some == parse_variants(stream_view(c@), 0) is Some,
        r matches Some(v) ==> spans_view(v@) == parse_variants(stream_view(c@), 0).unwrap(),
        r matches Some(v) ==> forall|k: int|
            0 <= k < v.len() ==> span_ok(stream_view(c@), #[trigger] v@[k]),
{
    let ghost cv = stream_view(c@);
    let n = c.len();
    let mut spans: Vec<Span> = Vec::new();
    let mut p: usize = 0;
    assert(spans_view(spans@) + parse_variants(cv, 0).unwrap() =~= parse_variants(cv, 0).unwrap());
    loop
        invariant
            n == c.len() == cv.len(),
            cv == stream_view(c@),
            p <= n,
            parse_variants(cv, 0) == (match parse_variants(cv, p as int) {
                Some(rest) => Some(spans_view(spans@) + rest),
                None => None,
            }),
            forall|k: int| 0 <= k < spans.len() ==> span_ok(cv, #[trigger] spans@[k]),
        decreases n - p,
    {
        if p == n {
            assert(spans_view(spans@) + Seq::<VariantSpan>::empty() =~= spans_view(spans@));
            return Some(spans);
        }
        let mut u: usize = p;
        while u < n && !named_attr_starts(c, u)
            invariant
                n == c.len() == cv.len(),
                cv == stream_view(c@),
                p <= u <= n,
                named_attr_start(cv, p as int) == named_attr_start(cv, u as int),
            decreases n - u,
        {
            u = u + 1;
        }
        let mut v: usize = u;
        while named_attr_starts(c, v)
            invariant
                n == c.len() == cv.len(),
                cv == stream_view(c@),
                u <= v <= n,
                named_attrs_end(cv, u as int) == named_attrs_end(cv, v as int),
            decreases n - v,
        {
            v = v + 2;
        }
        if !(v < n && tree_is_ident(&c[v])) {
            return None;
        }
        let comma = v + 1 < n && tree_is_punct(&c[v + 1], ',');
        let next = if comma {
            v + 2
        } else {
            v + 1
        };
        let sp = Span { start: p, attrs: u, name: v, next, comma };
        assert(parse_variant(cv, p as int) == Some(span_view(sp)));
        let ghost before = spans_view(spans@);
        spans.push(sp);
        assert(spans_view(spans@) =~= before.push(span_view(sp)));
        if !comma {
            if next == n {
                assert(before + seq![span_view(sp)] =~= spans_view(spans@));
                return Some(spans);
            } else {
                return None;
            }
        }
        proof {
            match parse_variants(cv, next as int) {
                Some(rest) => {
                    assert(before + (seq![span_view(sp)] + rest) =~= spans_view(spans@) + rest);
                },
                None => {},
            }
        }
        p = next;
    }
}

/// The attributes of a variant other than its pattern, and where its pattern's attribute
/// starts; or the variant's error.
fn variant_pattern(c: &Vec<TokenTree>, sp: Span) -> (r: Result<(Vec<TokenTree>, usize), &'static str>)
    requires
        span_ok(stream_view(c@), sp),
    ensures
        match r {
            Ok((others, p)) => {
                &&& variant_error(stream_view(c@), span_view(sp)) is None
                &&& stream_view(others@) == other_attrs(stream_view(c@), sp.attrs as int, sp.name as int)
                &&& first_pat_pos(stream_view(c@), sp.attrs as int, sp.name as int) == Some(p as int)
                &&& named_attr_at(stream_view(c@), p as int)
            },
            Err(m) => variant_error(stream_view(c@), span_view(sp)) == Some(m@),
        },
{
    let ghost cv = stream_view(c@);
    let ghost a = sp.attrs as int;
    let mut pat_at: Option<usize> = None;
    let mut others: Vec<TokenTree> = Vec::new();
    let mut i: usize = sp.attrs;
    proof {
        lemma_named_attrs_end_parity(cv, a);
    }
    while i < sp.name
        invariant
            cv == stream_view(c@),
            span_ok(cv, sp),
            a == sp.attrs,
            a <= i <= sp.name,
            named_attrs_end(cv, i as int) == sp.name,
            (sp.name - i) % 2 == 0,
            stream_view(others@) == other_attrs(cv, a, i as int),
            pat_count(cv, a, i as int) <= 1,
            pat_at is None <==> pat_count(cv, a, i as int) == 0,
            pat_at is None ==> first_pat_pos(cv, a, i as int) is None,
            pat_at matches Some(p) ==> first_pat_pos(cv, a, i as int) == Some(p as int)
                && named_attr_at(cv, p as int),
        decreases sp.name - i,
    {
        assert(named_attr_at(cv, i as int));
        proof {
            lemma_named_attrs_end_bounds(cv, i + 2);
        }
        if pat_attr_at(c, i) {
            if pat_at.is_some() {
                proof {
                    lemma_pat_count_grows(cv, a, i + 2, sp.name as int);
                }
                return Err(MULTIPLE_PAT_ERROR);
            }
            pat_at = Some(i);
            assert(other_attrs(cv, a, i + 2) =~= other_attrs(cv, a, i as int));
        } else {
            push_tree(&mut others, lone('#'));
            push_tree(&mut others, copy_tree(&c[i + 1]));
            assert(stream_view(others@) =~= other_attrs(cv, a, i + 2));
        }
        i = i + 2;
    }
    match pat_at {
        None => Err(MISSING_PAT_ERROR),
        Some(p) => Ok((others, p)),
    }
}

/// `#[derive(Debug, Hash, PartialEq, Eq, Clone, Copy)]`
fn derive_attribute() -> (r: Vec<TokenTree>)
    ensures
        stream_view(r@) == derive_tokens(),
{
    let mut list: Vec<TokenTree> = Vec::new();
    push_tree(&mut list, word("Debug"));
    push_tree(&mut list, lone(','));
    push_tree(&mut list, word("Hash"));
    push_tree(&mut list, lone(','));
    push_tree(&mut list, word("PartialEq"));
    push_tree(&mut list, lone(','));
    push_tree(&mut list, word("Eq"));
    push_tree(&mut list, lone(','));
    push_tree(&mut list, word("Clone"));
    push_tree(&mut list, lone(','));
    push_tree(&mut list, word("Copy"));
    let ghost list_view = stream_view(list@);
    let mut body: Vec<TokenTree> = Vec::new();
    push_tree(&mut body, word("derive"));
    push_tree(&mut body, make_group(Delim::Parenthesis, list));
    let ghost body_view = stream_view(body@);
    let mut out: Vec<TokenTree> = Vec::new();
    push_tree(&mut out, lone('#'));
    push_tree(&mut out, make_group(Delim::Bracket, body));
    assert(list_view =~= derive_tokens()[1]->Group_1[1]->Group_1);
    assert(body_view =~= derive_tokens()[1]->Group_1);
    assert(stream_view(out@) =~= derive_tokens());
    out
}

/// The `compute` function with the given match arms.
fn compute_function(arms: Vec<TokenTree>) -> (r: Vec<TokenTree>)
    ensures
        stream_view(r@) == compute_tokens(stream_view(arms@)),
{
    let ghost arms_view = stream_view(arms@);
    let mut params: Vec<TokenTree> = Vec::new();
    push_tree(&mut params, word("sources"));
    push_tree(&mut params, lone(':'));
    push_tree(&mut params, word("Self"));
    push_path_sep(&mut params);
    push_tree(&mut params, word("SourceStates"));
    let ghost params_view = stream_view(params@);
    assert(params_view =~= seq![Token::Ident("sources"@), alone(':'), Token::Ident("Self"@)]
        + path_sep() + seq![Token::Ident("SourceStates"@)]);
    let mut all_arms = arms;
    push_tree(&mut all_arms, word("_"));
    push_fat_arrow(&mut all_arms);
    push_tree(&mut all_arms, word("None"));
    push_tree(&mut all_arms, lone(','));
    let ghost all_arms_view = stream_view(all_arms@);
    assert(all_arms_view =~= arms_view + seq![Token::Ident("_"@)] + fat_arrow() + seq![
        Token::Ident("None"@),
        alone(','),
    ]);
    let mut body: Vec<TokenTree> = Vec::new();
    push_tree(&mut body, word("match"));
    push_tree(&mut body, word("sources"));
    push_tree(&mut body, make_group(Delim::Brace, all_arms));
    let ghost body_view = stream_view(body@);
    assert(body_view =~= seq![
        Token::Ident("match"@),
        Token::Ident("sources"@),
        Token::Group(Delim::Brace, all_arms_view),
    ]);
    let mut out: Vec<TokenTree> = Vec::new();
    push_tree(&mut out, word("fn"));
    push_tree(&mut out, word("compute"));
    push_tree(&mut out, make_group(Delim::Parenthesis, params));
    push_tree(&mut out, glued('-'));
    push_tree(&mut out, lone('>'));
    push_tree(&mut out, word("Option"));
    push_tree(&mut out, lone('<'));
    push_tree(&mut out, word("Self"));
    push_tree(&mut out, lone('>'));
    push_tree(&mut out, make_group(Delim::Brace, body));
    assert(stream_view(out@) =~= compute_tokens(arms_view));
    out
}

/// The `ComputedStates` implementation for `name`, computed from `source`.
fn impl_block(name: &TokenTree, source: Vec<TokenTree>, arms: Vec<TokenTree>) -> (r: Vec<TokenTree>)
    ensures
        stream_view(r@) == impl_tokens(tree_view(*name), stream_view(source@), stream_view(arms@)),
{
    let ghost source_view = stream_view(source@);
    let ghost arms_view = stream_view(arms@);
    let mut body: Vec<TokenTree> = Vec::new();
    push_tree(&mut body, word("type"));
    push_tree(&mut body, word("SourceStates"));
    push_tree(&mut body, lone('='));
    append_stream(&mut body, source);
    push_tree(&mut body, lone(';'));
    append_stream(&mut body, compute_function(arms));
    let ghost body_view = stream_view(body@);
    assert(body_view =~= seq![Token::Ident("type"@), Token::Ident("SourceStates"@), alone('=')]
        + source_view + seq![alone(';')] + compute_tokens(arms_view));
    let mut out: Vec<TokenTree> = Vec::new();
    push_tree(&mut out, word("impl"));
    push_path_sep(&mut out);
    push_tree(&mut out, word("bevy"));
    push_path_sep(&mut out);
    push_tree(&mut out, word("state"));
    push_path_sep(&mut out);
    push_tree(&mut out, word("state"));
    push_path_sep(&mut out);
    push_tree(&mut out, word("ComputedStates"));
    push_tree(&mut out, word("for"));
    push_tree(&mut out, copy_tree(name));
    push_tree(&mut out, make_group(Delim::Brace, body));
    assert(stream_view(out@) =~= impl_tokens(tree_view(*name), source_view, arms_view));
    out
}

/// Expands `#[computed(<source>)]` on `item`: the enum with the derives a state needs and
/// without its `#[pat(...)]` attributes, followed by its `ComputedStates` implementation
/// for the state type `source`. An item of another shape, a variant without a pattern or
/// one with two gives the item back followed by a `compile_error!`.
pub fn computed(attr: Vec<TokenTree>, item: Vec<TokenTree>) -> (out: Vec<TokenTree>)
    ensures
        stream_view(out@) == computed_expansion(stream_view(attr@), stream_view(item@)),
{
    let ghost s = stream_view(item@);
    let n = item.len();
    let e = find_enum(&item);
    assert(s.len() == n);
    if !(e < n && e + 1 < n && e + 2 < n && tree_is_ident(&item[e + 1]) && tree_is_group(
        &item[e + 2],
        Delim::Brace,
    )) {
        return output_err(ENUM_SHAPE_ERROR, item);
    }
    let body = match group_contents(&item[e + 2]) {
        Some(b) => b,
        None => {
            return output_err(ENUM_SHAPE_ERROR, item);
        },
    };
    let ghost cb = stream_view(body@);
    assert(cb == enum_body(s));
    let spans = match parse_body(body) {
        Some(v) => v,
        None => {
            return output_err(ENUM_SHAPE_ERROR, item);
        },
    };
    let ghost vs = spans_view(spans@);
    assert(enum_well_shaped(s));
    assert(vs == enum_variants(s));
    let mut variants_out: Vec<TokenTree> = Vec::new();
    let mut arms: Vec<TokenTree> = Vec::new();
    let mut k: usize = 0;
    assert(vs.take(0) =~= Seq::<VariantSpan>::empty());
    while k < spans.len()
        invariant
            s == stream_view(item@),
            enum_well_shaped(s),
            cb == enum_body(s),
            vs == enum_variants(s),
            cb == stream_view(body@),
            vs == spans_view(spans@),
            k <= spans.len() == vs.len(),
            forall|j: int| 0 <= j < spans.len() ==> span_ok(cb, #[trigger] spans@[j]),
            first_error(cb, vs.take(k as int)) is None,
            stream_view(variants_out@) == all_variant_tokens(cb, vs.take(k as int)),
            stream_view(arms@) == all_match_arms(cb, vs.take(k as int)),
        decreases spans.len() - k,
    {
        let sp = spans[k];
        assert(span_ok(cb, spans@[k as int]));
        assert(vs[k as int] == span_view(sp));
        assert(vs.take(k + 1).drop_last() =~= vs.take(k as int));
        assert(vs.take(k + 1).last() == vs[k as int]);
        match variant_pattern(body, sp) {
            Err(msg) => {
                assert(first_error(cb, vs.take(k + 1)) == Some(msg@));
                proof {
                    lemma_first_error_prefix(cb, vs, k + 1);
                }
                return output_err(msg, item);
            },
            Ok((others, p)) => {
                let ghost before_variants = stream_view(variants_out@);
                append_stream(&mut variants_out, others);
                extend_range(&mut variants_out, body, sp.start, sp.attrs);
                push_tree(&mut variants_out, copy_tree(&body[sp.name]));
                if sp.comma {
                    push_tree(&mut variants_out, lone(','));
                }
                assert(stream_view(variants_out@) =~= before_variants + variant_tokens(
                    cb,
                    span_view(sp),
                ));
                let ghost before_arms = stream_view(arms@);
                append_stream(&mut arms, copy_attr_args(body, p));
                push_fat_arrow(&mut arms);
                push_tree(&mut arms, word("Some"));
                let mut inner: Vec<TokenTree> = Vec::new();
                push_tree(&mut inner, word("Self"));
                push_path_sep(&mut inner);
                push_tree(&mut inner, copy_tree(&body[sp.name]));
                let ghost inner_view = stream_view(inner@);
                assert(inner_view =~= seq![Token::Ident("Self"@)] + path_sep() + seq![
                    cb[sp.name as int],
                ]);
                push_tree(&mut arms, make_group(Delim::Parenthesis, inner));
                push_tree(&mut arms, lone(','));
                assert(stream_view(arms@) =~= before_arms + match_arm(cb, span_view(sp)));
            },
        }
        k = k + 1;
    }
    assert(vs.take(vs.len() as int) =~= vs);
    let mut out = derive_attribute();
    extend_range(&mut out, &item, 0, e);
    push_tree(&mut out, word("enum"));
    push_tree(&mut out, copy_tree(&item[e + 1]));
    push_tree(&mut out, make_group(Delim::Brace, variants_out));
    append_stream(&mut out, impl_block(&item[e + 1], attr, arms));
    assert(stream_view(out@) =~= computed_expansion(stream_view(attr@), s));
    out
}

/// The state type that an expansion names is the whole argument of the attribute: the last
/// token of a successful expansion is the braced body of the `ComputedStates` implementation
/// for the enum, and that body starts with `type SourceStates =`, every token of the
/// argument in order, and `;`.
pub proof fn lemma_source_states_is_the_whole_argument(source: Seq<Token>, item: Seq<Token>)
    requires
        enum_well_shaped(item),
        first_error(enum_body(item), enum_variants(item)) is None,
    ensures
        ({
            let out = computed_expansion(source, item);
            let body = group_inner(out.last());
            &&& out.len() >= 3
            &&& is_group(out.last(), Delim::Brace)
            &&& out[out.len() - 3] == Token::Ident("for"@)
            &&& out[out.len() - 2] == item[enum_pos(item, 0) + 1]
            &&& body.len() >= source.len() + 4
            &&& body.subrange(0, source.len() as int + 4) == seq![
                Token::Ident("type"@),
                Token::Ident("SourceStates"@),
                alone('='),
            ] + source + seq![alone(';')]
        }),
{
    let out = computed_expansion(source, item);
    let e = enum_pos(item, 0);
    let c = enum_body(item);
    let vs = enum_variants(item);
    let body = seq![Token::Ident("type"@), Token::Ident("SourceStates"@), alone('=')] + source
        + seq![alone(';')] + compute_tokens(all_match_arms(c, vs));
    let tail = seq![
        Token::Ident("ComputedStates"@),
        Token::Ident("for"@),
        item[e + 1],
        Token::Group(Delim::Brace, body),
    ];
    let imp = impl_tokens(item[e + 1], source, all_match_arms(c, vs));
    assert(imp =~= seq![Token::Ident("impl"@)] + path_sep() + seq![Token::Ident("bevy"@)]
        + path_sep() + seq![Token::Ident("state"@)] + path_sep() + seq![Token::Ident("state"@)]
        + path_sep() + tail);
    let head = derive_tokens() + item.subrange(0, e) + seq![
        Token::Ident("enum"@),
        item[e + 1],
        Token::Group(Delim::Brace, all_variant_tokens(c, vs)),
    ];
    assert(out == head + imp);
    assert(out.last() == Token::Group(Delim::Brace, body));
    assert(out[out.len() - 3] == Token::Ident("for"@));
    assert(out[out.len() - 2] == item[e + 1]);
    assert(body.subrange(0, source.len() as int + 4) =~= seq![
        Token::Ident("type"@),
        Token::Ident("SourceStates"@),
        alone('='),
    ] + source + seq![alone(';')]);
}

} // verus!
