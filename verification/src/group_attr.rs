//! The `#[group(Group)]` attribute: it makes a component type a member of a component group
//! by adding the group's insert and remove hooks to the type's attributes.
//!
//! The item is read as: any tokens, then a run of one or more outer attributes, then any
//! tokens up to the keyword `struct` or `enum`, the type's name, and the rest. The hooks go
//! right after the run of attributes. An item of another shape, or an argument that does
//! not start with a name, is reported with a message of the library's own wording.
use vstd::prelude::*;
use crate::tokens::{
    alone, append_stream, copy_range, copy_tree, error_tokens, extend_range, is_group, is_ident, joint,
    is_punct, is_word, lone, make_group, output_err, path_sep, push_path_sep, push_tree,
    stream_view, tree_is_group, tree_is_ident, tree_is_punct, tree_is_word, tree_view, word, Delim,
    Token, TokenTree,
};

verus! {

/// What the attribute reports when the item does not have the expected shape.
/// This message is the library's own wording. It does not reproduce a token parser's error
/// text, which names the token found and its source position: the tokens here carry no
/// positions.
pub const ITEM_SHAPE_ERROR: &'static str =
    "expected attributes followed by a `struct` or `enum` declaration with a name";

/// What the attribute reports when its argument does not start with the group's name.
/// This message is the library's own wording. It does not reproduce a token parser's error
/// text, which names the token found and its source position: the tokens here carry no
/// positions.
pub const GROUP_NAME_ERROR: &'static str = "expected the name of the group";

/// Whether an outer attribute `# [ ... ]` starts at `i`.
pub open spec fn attribute_at(s: Seq<Token>, i: int) -> bool {
    0 <= i && i + 1 < s.len() && is_punct(s[i], '#') && is_group(s[i + 1], Delim::Bracket)
}

/// Whether `t` is the keyword `struct` or `enum`.
pub open spec fn decl_keyword(t: Token) -> bool {
    is_word(t, "struct"@) || is_word(t, "enum"@)
}

/// The first position from `i` on where an attribute or a declaration keyword starts, or
/// the end of the stream.
pub open spec fn attrs_start(s: Seq<Token>, i: int) -> int
    decreases s.len() - i,
{
    if i >= s.len() || attribute_at(s, i) || decl_keyword(s[i]) {
        i
    } else {
        attrs_start(s, i + 1)
    }
}

/// The end of the run of attributes that starts at `i`.
pub open spec fn attrs_end(s: Seq<Token>, i: int) -> int
    decreases s.len() - i,
{
    if attribute_at(s, i) {
        attrs_end(s, i + 2)
    } else {
        i
    }
}

/// The first position from `i` on that holds a declaration keyword, or the end of the stream.
pub open spec fn keyword_pos(s: Seq<Token>, i: int) -> int
    decreases s.len() - i,
{
    if i >= s.len() || decl_keyword(s[i]) {
        i
    } else {
        keyword_pos(s, i + 1)
    }
}

/// The end of the item's run of attributes.
pub open spec fn item_attrs_end(item: Seq<Token>) -> int {
    attrs_end(item, attrs_start(item, 0))
}

/// The position of the item's declaration keyword.
pub open spec fn item_keyword(item: Seq<Token>) -> int {
    keyword_pos(item, item_attrs_end(item))
}

/// Whether the item has the shape the attribute expects.
pub open spec fn item_well_shaped(item: Seq<Token>) -> bool {
    &&& attrs_start(item, 0) < item_attrs_end(item)
    &&& item_keyword(item) + 1 < item.len()
    &&& is_ident(item[item_keyword(item) + 1])
}

/// `#[component(<hook> = ::bevy_utils::group::<function>::<name, group>)]`
pub open spec fn hook_tokens(hook: Seq<char>, function: Seq<char>, name: Token, group: Token) -> Seq<
    Token,
> {
    seq![
        alone('#'),
        Token::Group(
            Delim::Bracket,
            seq![
                Token::Ident("component"@),
                Token::Group(
                    Delim::Parenthesis,
                    seq![Token::Ident(hook), alone('=')] + path_sep() + seq![
                        Token::Ident("bevy_utils"@),
                    ] + path_sep() + seq![Token::Ident("group"@)] + path_sep() + seq![
                        Token::Ident(function),
                    ] + path_sep() + seq![alone('<'), name, alone(','), group, alone('>')],
                ),
            ],
        ),
    ]
}

/// The two hook attributes for type `name` in group `group`.
pub open spec fn group_hooks(name: Token, group: Token) -> Seq<Token> {
    hook_tokens("on_insert"@, "component_group_on_insert"@, name, group) + hook_tokens(
        "on_remove"@,
        "component_group_on_remove"@,
        name,
        group,
    )
}

/// What `#[group(<attr>)]` turns `item` into.
pub open spec fn group_expansion(attr: Seq<Token>, item: Seq<Token>) -> Seq<Token> {
    if !item_well_shaped(item) {
        item + error_tokens(ITEM_SHAPE_ERROR@)
    } else if attr.len() == 0 || !is_ident(attr[0]) {
        item + error_tokens(GROUP_NAME_ERROR@)
    } else {
        item.subrange(0, item_attrs_end(item)) + group_hooks(
            item[item_keyword(item) + 1],
            attr[0],
        ) + item.subrange(item_attrs_end(item), item.len() as int)
    }
}

/// Whether an attribute starts at `i`.
fn attribute_starts(v: &Vec<TokenTree>, i: usize) -> (r: bool)
    ensures
        r == attribute_at(stream_view(v@), i as int),
{
    i < v.len() && i + 1 < v.len() && tree_is_punct(&v[i], '#') && tree_is_group(
        &v[i + 1],
        Delim::Bracket,
    )
}

/// Whether `t` is the keyword `struct` or `enum`.
fn is_decl_keyword(t: &TokenTree) -> (r: bool)
    ensures
        r == decl_keyword(tree_view(*t)),
{
    tree_is_word(t, "struct") || tree_is_word(t, "enum")
}

/// The tokens of one hook attribute.
fn hook_attribute(hook: &str, function: &str, name: &TokenTree, group: &TokenTree) -> (r: Vec<
    TokenTree,
>)
    ensures
        stream_view(r@) == hook_tokens(hook@, function@, tree_view(*name), tree_view(*group)),
{
    let mut path: Vec<TokenTree> = Vec::new();
    push_tree(&mut path, word(hook));
    push_tree(&mut path, lone('='));
    push_path_sep(&mut path);
    push_tree(&mut path, word("bevy_utils"));
    push_path_sep(&mut path);
    push_tree(&mut path, word("group"));
    push_path_sep(&mut path);
    push_tree(&mut path, word(function));
    push_path_sep(&mut path);
    push_tree(&mut path, lone('<'));
    push_tree(&mut path, copy_tree(name));
    push_tree(&mut path, lone(','));
    push_tree(&mut path, copy_tree(group));
    push_tree(&mut path, lone('>'));
    let ghost path_view = stream_view(path@);
    assert(path_view =~= seq![Token::Ident(hook@), alone('=')] + path_sep() + seq![
        Token::Ident("bevy_utils"@),
    ] + path_sep() + seq![Token::Ident("group"@)] + path_sep() + seq![Token::Ident(function@)]
        + path_sep() + seq![
        alone('<'),
        tree_view(*name),
        alone(','),
        tree_view(*group),
        alone('>'),
    ]);
    let mut body: Vec<TokenTree> = Vec::new();
    push_tree(&mut body, word("component"));
    push_tree(&mut body, make_group(Delim::Parenthesis, path));
    assert(stream_view(body@) =~= seq![
        Token::Ident("component"@),
        Token::Group(Delim::Parenthesis, path_view),
    ]);
    let ghost body_view = stream_view(body@);
    let mut out: Vec<TokenTree> = Vec::new();
    push_tree(&mut out, lone('#'));
    push_tree(&mut out, make_group(Delim::Bracket, body));
    assert(stream_view(out@) =~= seq![alone('#'), Token::Group(Delim::Bracket, body_view)]);
    out
}

/// Expands `#[group(<attr>)]` on `item`: the item with the group's insert and remove hooks
/// added after its run of attributes. An item of another shape, or an argument that does
/// not start with a name, gives the item back followed by a `compile_error!`.
pub fn group(attr: Vec<TokenTree>, item: Vec<TokenTree>) -> (out: Vec<TokenTree>)
    ensures
        stream_view(out@) == group_expansion(stream_view(attr@), stream_view(item@)),
{
    let ghost s = stream_view(item@);
    let n = item.len();
    let mut a: usize = 0;
    while a < n && !attribute_starts(&item, a) && !is_decl_keyword(&item[a])
        invariant
            n == item.len() == s.len(),
            s == stream_view(item@),
            0 <= a <= n,
            attrs_start(s, 0) == attrs_start(s, a as int),
        decreases n - a,
    {
        a = a + 1;
    }
    let mut b: usize = a;
    while attribute_starts(&item, b)
        invariant
            n == item.len() == s.len(),
            s == stream_view(item@),
            a <= b <= n,
            attrs_end(s, a as int) == attrs_end(s, b as int),
        decreases n - b,
    {
        b = b + 2;
    }
    let mut c: usize = b;
    while c < n && !is_decl_keyword(&item[c])
        invariant
            n == item.len() == s.len(),
            s == stream_view(item@),
            b <= c <= n,
            keyword_pos(s, b as int) == keyword_pos(s, c as int),
        decreases n - c,
    {
        c = c + 1;
    }
    assert(item_attrs_end(s) == b);
    assert(item_keyword(s) == c);
    if !(a < b && c < n && c + 1 < n && tree_is_ident(&item[c + 1])) {
        return output_err(ITEM_SHAPE_ERROR, item);
    }
    if attr.len() == 0 || !tree_is_ident(&attr[0]) {
        return output_err(GROUP_NAME_ERROR, item);
    }
    let mut out = copy_range(&item, 0, b);
    let insert_hook = hook_attribute("on_insert", "component_group_on_insert", &item[c + 1], &attr[0]);
    append_stream(&mut out, insert_hook);
    let remove_hook = hook_attribute("on_remove", "component_group_on_remove", &item[c + 1], &attr[0]);
    append_stream(&mut out, remove_hook);
    extend_range(&mut out, &item, b, n);
    assert(stream_view(out@) =~= group_expansion(stream_view(attr@), s));
    out
}

/// The attribute loses nothing of the item: taking the four hook tokens out of a successful
/// expansion gives the item back.
pub proof fn lemma_group_keeps_item(attr: Seq<Token>, item: Seq<Token>)
    requires
        item_well_shaped(item),
        attr.len() > 0,
        is_ident(attr[0]),
    ensures
        ({
            let out = group_expansion(attr, item);
            let b = item_attrs_end(item);
            &&& out.len() == item.len() + 4
            &&& out.subrange(0, b) + out.subrange(b + 4, out.len() as int) == item
        }),
{
    let out = group_expansion(attr, item);
    let b = item_attrs_end(item);
    lemma_attrs_end_bounds(item, attrs_start(item, 0));
    assert(out.subrange(0, b) + out.subrange(b + 4, out.len() as int) =~= item);
}

pub proof fn lemma_attrs_end_bounds(s: Seq<Token>, i: int)
    requires
        0 <= i <= s.len(),
    ensures
        i <= attrs_end(s, i) <= s.len(),
    decreases s.len() - i,
{
    if attribute_at(s, i) {
        lemma_attrs_end_bounds(s, i + 2);
    }
}

proof fn lemma_attrs_start_at(s: Seq<Token>, i: int, j: int)
    requires
        0 <= i <= j < s.len(),
        forall|k: int| i <= k < j ==> !attribute_at(s, k) && !decl_keyword(s[k]),
        attribute_at(s, j),
    ensures
        attrs_start(s, i) == j,
    decreases j - i,
{
    if i < j {
        lemma_attrs_start_at(s, i + 1, j);
    }
}

proof fn lemma_attrs_end_run(s: Seq<Token>, a: int, e: int)
    requires
        0 <= a <= e,
        (e - a) % 2 == 0,
        forall|x: int| a <= x < e && (x - a) % 2 == 0 ==> #[trigger] attribute_at(s, x),
        !attribute_at(s, e),
    ensures
        attrs_end(s, a) == e,
    decreases e - a,
{
    if a < e {
        assert(attribute_at(s, a));
        assert forall|x: int| a + 2 <= x < e && (x - (a + 2)) % 2 == 0 implies #[trigger] attribute_at(s, x) by {
            assert((x - a) % 2 == 0);
        }
        lemma_attrs_end_run(s, a + 2, e);
    }
}

proof fn lemma_keyword_pos_at(s: Seq<Token>, i: int, j: int)
    requires
        0 <= i <= j < s.len(),
        forall|k: int| i <= k < j ==> !decl_keyword(s[k]),
        decl_keyword(s[j]),
    ensures
        keyword_pos(s, i) == j,
    decreases j - i,
{
    if i < j {
        lemma_keyword_pos_at(s, i + 1, j);
    }
}

/// Where the scans of the item stop, for an item of the shape the attribute reads.
proof fn lemma_item_positions(
    pre: Seq<Token>,
    attrs: Seq<Token>,
    k: nat,
    mid: Seq<Token>,
    kw: Token,
    name: Token,
    rest: Seq<Token>,
)
    requires
        forall|i: int| 0 <= i < pre.len() ==> !is_word(#[trigger] pre[i], "struct"@) && !is_word(
            pre[i],
            "enum"@,
        ),
        forall|i: int|
            0 <= i < pre.len() - 1 ==> !(is_punct(#[trigger] pre[i], '#') && is_group(
                pre[i + 1],
                Delim::Bracket,
            )),
        k >= 1,
        attrs.len() == 2 * k,
        forall|x: int|
            0 <= x < attrs.len() ==> if x % 2 == 0 {
                is_punct(#[trigger] attrs[x], '#')
            } else {
                is_group(attrs[x], Delim::Bracket)
            },
        forall|i: int| 0 <= i < mid.len() ==> !is_word(#[trigger] mid[i], "struct"@) && !is_word(
            mid[i],
            "enum"@,
        ),
        !(mid.len() >= 2 && is_punct(mid[0], '#') && is_group(mid[1], Delim::Bracket)),
        is_word(kw, "struct"@) || is_word(kw, "enum"@),
        name is Ident,
    ensures
        ({
            let s = pre + attrs + mid + seq![kw, name] + rest;
            &&& item_attrs_end(s) == pre.len() + attrs.len()
            &&& item_keyword(s) == pre.len() + attrs.len() + mid.len()
            &&& item_well_shaped(s)
        }),
{
    let s = pre + attrs + mid + seq![kw, name] + rest;
    let p = pre.len() as int;
    let a = attrs.len() as int;
    let m = mid.len() as int;
    assert(s[p + a + m] == kw);
    assert(s[p + a + m + 1] == name);
    assert forall|i: int| 0 <= i < p implies !attribute_at(s, i) && !decl_keyword(
        #[trigger] s[i],
    ) by {
        assert(s[i] == pre[i]);
        assert(!is_word(pre[i], "struct"@) && !is_word(pre[i], "enum"@));
        if i < p - 1 {
            assert(!(is_punct(pre[i], '#') && is_group(pre[i + 1], Delim::Bracket)));
            assert(s[i + 1] == pre[i + 1]);
        } else {
            assert(s[i + 1] == attrs[0]);
            assert(is_punct(attrs[0], '#'));
        }
    }
    assert(attribute_at(s, p)) by {
        assert(s[p] == attrs[0]);
        assert(s[p + 1] == attrs[1]);
        assert(is_punct(attrs[0], '#'));
        assert(is_group(attrs[1], Delim::Bracket));
    }
    lemma_attrs_start_at(s, 0, p);
    assert forall|x: int| p <= x < p + a && (x - p) % 2 == 0 implies #[trigger] attribute_at(
        s,
        x,
    ) by {
        assert(s[x] == attrs[x - p]);
        assert(s[x + 1] == attrs[x - p + 1]);
        assert((x - p + 1) % 2 == 1);
        assert(is_punct(attrs[x - p], '#'));
        assert(is_group(attrs[x - p + 1], Delim::Bracket));
    }
    assert(!attribute_at(s, p + a)) by {
        if m >= 2 {
            assert(s[p + a] == mid[0]);
            assert(s[p + a + 1] == mid[1]);
        } else if m == 1 {
            assert(s[p + a + 1] == kw);
        } else {
            assert(s[p + a] == kw);
        }
    }
    lemma_attrs_end_run(s, p, p + a);
    assert forall|i: int| p + a <= i < p + a + m implies !decl_keyword(#[trigger] s[i]) by {
        assert(s[i] == mid[i - p - a]);
        assert(!is_word(mid[i - p - a], "struct"@) && !is_word(mid[i - p - a], "enum"@));
    }
    lemma_keyword_pos_at(s, p + a, p + a + m);
}

/// Where the hooks go, for every item of the shape the attribute reads: tokens `pre` that
/// hold no attribute and no declaration keyword, a run `attrs` of one or more outer
/// attributes, tokens `mid` that hold no declaration keyword and do not start another
/// attribute, the keyword `struct` or `enum`, the type's name, and any tokens `rest` at all.
/// With an argument that starts with the group's name, the expansion is the item with the
/// insert hook and the remove hook, naming the type and the group, right after `attrs`.
pub proof fn lemma_hooks_follow_the_attributes(
    attr: Seq<Token>,
    pre: Seq<Token>,
    attrs: Seq<Token>,
    k: nat,
    mid: Seq<Token>,
    kw: Token,
    name: Token,
    rest: Seq<Token>,
)
    requires
        forall|i: int| 0 <= i < pre.len() ==> !is_word(#[trigger] pre[i], "struct"@) && !is_word(
            pre[i],
            "enum"@,
        ),
        forall|i: int|
            0 <= i < pre.len() - 1 ==> !(is_punct(#[trigger] pre[i], '#') && is_group(
                pre[i + 1],
                Delim::Bracket,
            )),
        k >= 1,
        attrs.len() == 2 * k,
        forall|x: int|
            0 <= x < attrs.len() ==> if x % 2 == 0 {
                is_punct(#[trigger] attrs[x], '#')
            } else {
                is_group(attrs[x], Delim::Bracket)
            },
        forall|i: int| 0 <= i < mid.len() ==> !is_word(#[trigger] mid[i], "struct"@) && !is_word(
            mid[i],
            "enum"@,
        ),
        !(mid.len() >= 2 && is_punct(mid[0], '#') && is_group(mid[1], Delim::Bracket)),
        is_word(kw, "struct"@) || is_word(kw, "enum"@),
        name is Ident,
        attr.len() > 0,
        attr[0] is Ident,
    ensures
        group_expansion(attr, pre + attrs + mid + seq![kw, name] + rest) == pre + attrs + seq![
            alone('#'),
            Token::Group(
                Delim::Bracket,
                seq![
                    Token::Ident("component"@),
                    Token::Group(
                        Delim::Parenthesis,
                        seq![
                            Token::Ident("on_insert"@), alone('='),
                            joint(':'), alone(':'), Token::Ident("bevy_utils"@),
                            joint(':'), alone(':'), Token::Ident("group"@),
                            joint(':'), alone(':'), Token::Ident("component_group_on_insert"@),
                            joint(':'), alone(':'),
                            alone('<'), name, alone(','), attr[0], alone('>'),
                        ],
                    ),
                ],
            ),
            alone('#'),
            Token::Group(
                Delim::Bracket,
                seq![
                    Token::Ident("component"@),
                    Token::Group(
                        Delim::Parenthesis,
                        seq![
                            Token::Ident("on_remove"@), alone('='),
                            joint(':'), alone(':'), Token::Ident("bevy_utils"@),
                            joint(':'), alone(':'), Token::Ident("group"@),
                            joint(':'), alone(':'), Token::Ident("component_group_on_remove"@),
                            joint(':'), alone(':'),
                            alone('<'), name, alone(','), attr[0], alone('>'),
                        ],
                    ),
                ],
            ),
        ] + mid + seq![kw, name] + rest,
{
    let s = pre + attrs + mid + seq![kw, name] + rest;
    let p = pre.len() as int;
    let a = attrs.len() as int;
    let m = mid.len() as int;
    lemma_item_positions(pre, attrs, k, mid, kw, name, rest);
    assert(s[p + a + m + 1] == name);
    lemma_expansion_splits(attr, s);
    assert(s.subrange(0, p + a) =~= pre + attrs);
    assert(s.subrange(p + a, s.len() as int) =~= mid + seq![kw, name] + rest);
    lemma_hook_text("on_insert"@, "component_group_on_insert"@, name, attr[0]);
    lemma_hook_text("on_remove"@, "component_group_on_remove"@, name, attr[0]);
}

/// A successful expansion is the item cut after its attributes, with the two hooks between.
proof fn lemma_expansion_splits(attr: Seq<Token>, s: Seq<Token>)
    requires
        item_well_shaped(s),
        attr.len() > 0,
        is_ident(attr[0]),
    ensures
        group_expansion(attr, s) == s.subrange(0, item_attrs_end(s)) + hook_tokens(
            "on_insert"@,
            "component_group_on_insert"@,
            s[item_keyword(s) + 1],
            attr[0],
        ) + hook_tokens(
            "on_remove"@,
            "component_group_on_remove"@,
            s[item_keyword(s) + 1],
            attr[0],
        ) + s.subrange(item_attrs_end(s), s.len() as int),
{
    assert(group_expansion(attr, s) =~= s.subrange(0, item_attrs_end(s)) + hook_tokens(
        "on_insert"@,
        "component_group_on_insert"@,
        s[item_keyword(s) + 1],
        attr[0],
    ) + hook_tokens(
        "on_remove"@,
        "component_group_on_remove"@,
        s[item_keyword(s) + 1],
        attr[0],
    ) + s.subrange(item_attrs_end(s), s.len() as int));
}

/// One hook attribute, token by token.
proof fn lemma_hook_text(hook: Seq<char>, function: Seq<char>, name: Token, group: Token)
    ensures
        hook_tokens(hook, function, name, group) == seq![
            alone('#'),
            Token::Group(
                Delim::Bracket,
                seq![
                    Token::Ident("component"@),
                    Token::Group(
                        Delim::Parenthesis,
                        seq![
                            Token::Ident(hook), alone('='),
                            joint(':'), alone(':'), Token::Ident("bevy_utils"@),
                            joint(':'), alone(':'), Token::Ident("group"@),
                            joint(':'), alone(':'), Token::Ident(function),
                            joint(':'), alone(':'),
                            alone('<'), name, alone(','), group, alone('>'),
                        ],
                    ),
                ],
            ),
        ],
{
    assert(seq![Token::Ident(hook), alone('=')] + path_sep() + seq![Token::Ident("bevy_utils"@)]
        + path_sep() + seq![Token::Ident("group"@)] + path_sep() + seq![Token::Ident(function)]
        + path_sep() + seq![alone('<'), name, alone(','), group, alone('>')] =~= seq![
        Token::Ident(hook), alone('='),
        joint(':'), alone(':'), Token::Ident("bevy_utils"@),
        joint(':'), alone(':'), Token::Ident("group"@),
        joint(':'), alone(':'), Token::Ident(function),
        joint(':'), alone(':'),
        alone('<'), name, alone(','), group, alone('>'),
    ]);
}

} // verus!
