use game_utils::computed_attr::{
    computed, ENUM_SHAPE_ERROR, MISSING_PAT_ERROR, MULTIPLE_PAT_ERROR,
};
use game_utils::group_attr::{group, GROUP_NAME_ERROR, ITEM_SHAPE_ERROR};
use game_utils::tokens::{output_err, Delim, Spacing, TokenTree};

fn id(s: &str) -> TokenTree {
    TokenTree::Ident(s.to_string())
}

fn p(c: char) -> TokenTree {
    TokenTree::Punct(c, Spacing::Alone)
}

fn pj(c: char) -> TokenTree {
    TokenTree::Punct(c, Spacing::Joint)
}

fn grp(d: Delim, v: Vec<TokenTree>) -> TokenTree {
    TokenTree::Group(d, v)
}

fn sep() -> Vec<TokenTree> {
    vec![pj(':'), p(':')]
}

fn error_tail(message: &str) -> Vec<TokenTree> {
    vec![
        id("compile_error"),
        p('!'),
        grp(Delim::Parenthesis, vec![TokenTree::Literal(format!("\"{}\"", message))]),
        p(';'),
    ]
}

fn derive_component() -> Vec<TokenTree> {
    vec![
        p('#'),
        grp(Delim::Bracket, vec![id("derive"), grp(Delim::Parenthesis, vec![id("Component")])]),
    ]
}

fn hook(key: &str, function: &str, name: &str, group: &str) -> Vec<TokenTree> {
    let mut path = vec![id(key), p('=')];
    path.extend(sep());
    path.push(id("bevy_utils"));
    path.extend(sep());
    path.push(id("group"));
    path.extend(sep());
    path.push(id(function));
    path.extend(sep());
    path.extend(vec![p('<'), id(name), p(','), id(group), p('>')]);
    vec![
        p('#'),
        grp(Delim::Bracket, vec![id("component"), grp(Delim::Parenthesis, path)]),
    ]
}

fn my_component_item() -> Vec<TokenTree> {
    let mut item = derive_component();
    item.extend(vec![id("pub"), id("struct"), id("MyComponent"), p(';')]);
    item
}

#[test]
fn group_adds_hooks_after_attributes() {
    let out = group(vec![id("Group")], my_component_item());
    let mut expected = derive_component();
    expected.extend(hook("on_insert", "component_group_on_insert", "MyComponent", "Group"));
    expected.extend(hook("on_remove", "component_group_on_remove", "MyComponent", "Group"));
    expected.extend(vec![id("pub"), id("struct"), id("MyComponent"), p(';')]);
    assert_eq!(out, expected);
}

#[test]
fn group_hooks_follow_the_whole_attribute_run() {
    // Two attributes, and tokens before and between them and the keyword.
    let mut item = vec![id("pub")];
    item.extend(derive_component());
    item.extend(vec![
        p('#'),
        grp(Delim::Bracket, vec![id("reflect"), grp(Delim::Parenthesis, vec![id("Component")])]),
    ]);
    item.extend(vec![id("pub"), id("enum"), id("Mode"), grp(Delim::Brace, vec![id("A")])]);
    let out = group(vec![id("Modes"), p(','), id("extra")], item);
    let mut expected = vec![id("pub")];
    expected.extend(derive_component());
    expected.extend(vec![
        p('#'),
        grp(Delim::Bracket, vec![id("reflect"), grp(Delim::Parenthesis, vec![id("Component")])]),
    ]);
    expected.extend(hook("on_insert", "component_group_on_insert", "Mode", "Modes"));
    expected.extend(hook("on_remove", "component_group_on_remove", "Mode", "Modes"));
    expected.extend(vec![id("pub"), id("enum"), id("Mode"), grp(Delim::Brace, vec![id("A")])]);
    assert_eq!(out, expected);
}

#[test]
fn group_without_attribute_reports_the_item_shape() {
    let item = vec![id("struct"), id("Plain"), p(';')];
    let out = group(vec![id("Group")], item);
    let mut expected = vec![id("struct"), id("Plain"), p(';')];
    expected.extend(error_tail(ITEM_SHAPE_ERROR));
    assert_eq!(out, expected);
}

#[test]
fn group_without_type_name_reports_the_item_shape() {
    let mut item = derive_component();
    item.extend(vec![id("struct"), p(';')]);
    let out = group(vec![id("Group")], item);
    let mut expected = derive_component();
    expected.extend(vec![id("struct"), p(';')]);
    expected.extend(error_tail(ITEM_SHAPE_ERROR));
    assert_eq!(out, expected);
}

#[test]
fn group_without_group_name_reports_it() {
    let out = group(vec![], my_component_item());
    let mut expected = my_component_item();
    expected.extend(error_tail(GROUP_NAME_ERROR));
    assert_eq!(out, expected);

    let out = group(vec![TokenTree::Literal("1".to_string())], my_component_item());
    let mut expected = my_component_item();
    expected.extend(error_tail(GROUP_NAME_ERROR));
    assert_eq!(out, expected);
}

fn pat(args: Vec<TokenTree>) -> Vec<TokenTree> {
    vec![p('#'), grp(Delim::Bracket, vec![id("pat"), grp(Delim::Parenthesis, args)])]
}

fn path(a: &str, b: &str) -> Vec<TokenTree> {
    let mut v = vec![id(a)];
    v.extend(sep());
    v.push(id(b));
    v
}

/// The example of the attribute's documentation:
/// `#[computed(State)] enum Computed { #[pat(State::Something | State::SomethingElse)]
/// Something, #[pat(State::AnotherThing)] Another, }`
fn doc_example() -> Vec<TokenTree> {
    let mut first = path("State", "Something");
    first.push(p('|'));
    first.extend(path("State", "SomethingElse"));
    let mut body = pat(first);
    body.extend(vec![id("Something"), p(',')]);
    body.extend(pat(path("State", "AnotherThing")));
    body.extend(vec![id("Another"), p(',')]);
    vec![id("enum"), id("Computed"), grp(Delim::Brace, body)]
}

fn arm(pattern: Vec<TokenTree>, variant: &str) -> Vec<TokenTree> {
    let mut v = pattern;
    v.extend(vec![pj('='), p('>'), id("Some")]);
    let mut inner = vec![id("Self")];
    inner.extend(sep());
    inner.push(id(variant));
    v.push(grp(Delim::Parenthesis, inner));
    v.push(p(','));
    v
}

fn derive_state() -> Vec<TokenTree> {
    let mut list = vec![];
    for (i, name) in ["Debug", "Hash", "PartialEq", "Eq", "Clone", "Copy"].iter().enumerate() {
        if i > 0 {
            list.push(p(','));
        }
        list.push(id(name));
    }
    vec![p('#'), grp(Delim::Bracket, vec![id("derive"), grp(Delim::Parenthesis, list)])]
}

fn impl_block(name: &str, source: Vec<TokenTree>, arms: Vec<TokenTree>) -> Vec<TokenTree> {
    let mut params = vec![id("sources"), p(':'), id("Self")];
    params.extend(sep());
    params.push(id("SourceStates"));
    let mut all_arms = arms;
    all_arms.extend(vec![id("_"), pj('='), p('>'), id("None"), p(',')]);
    let mut body = vec![id("type"), id("SourceStates"), p('=')];
    body.extend(source);
    body.extend(vec![
        p(';'),
        id("fn"),
        id("compute"),
        grp(Delim::Parenthesis, params),
        pj('-'),
        p('>'),
        id("Option"),
        p('<'),
        id("Self"),
        p('>'),
        grp(Delim::Brace, vec![id("match"), id("sources"), grp(Delim::Brace, all_arms)]),
    ]);
    let mut v = vec![id("impl")];
    v.extend(sep());
    v.push(id("bevy"));
    v.extend(sep());
    v.push(id("state"));
    v.extend(sep());
    v.push(id("state"));
    v.extend(sep());
    v.extend(vec![id("ComputedStates"), id("for"), id(name), grp(Delim::Brace, body)]);
    v
}

#[test]
fn computed_expands_the_documented_example() {
    let out = computed(vec![id("State")], doc_example());
    let mut expected = derive_state();
    expected.extend(vec![
        id("enum"),
        id("Computed"),
        grp(Delim::Brace, vec![id("Something"), p(','), id("Another"), p(',')]),
    ]);
    let mut first = path("State", "Something");
    first.push(p('|'));
    first.extend(path("State", "SomethingElse"));
    let mut arms = arm(first, "Something");
    arms.extend(arm(path("State", "AnotherThing"), "Another"));
    expected.extend(impl_block("Computed", vec![id("State")], arms));
    assert_eq!(out, expected);
}

#[test]
fn computed_keeps_other_attributes_and_leading_tokens() {
    // `pub enum Computed { #[doc(x)] #[pat(States::Two)] GreaterThanOne }` under `#[computed(States)]`
    let mut body = vec![
        p('#'),
        grp(Delim::Bracket, vec![id("doc"), grp(Delim::Parenthesis, vec![id("x")])]),
    ];
    body.extend(pat(path("States", "Two")));
    body.push(id("GreaterThanOne"));
    // A variant whose leading tokens are an attribute of another form.
    body.push(p(','));
    body.extend(vec![
        p('#'),
        grp(Delim::Bracket, vec![id("default")]),
    ]);
    body.extend(pat(vec![id("_")]));
    body.push(id("Other"));
    let item = vec![id("pub"), id("enum"), id("Computed"), grp(Delim::Brace, body)];
    let out = computed(vec![id("States")], item);
    let mut expected = derive_state();
    expected.extend(vec![
        id("pub"),
        id("enum"),
        id("Computed"),
        grp(
            Delim::Brace,
            vec![
                p('#'),
                grp(Delim::Bracket, vec![id("doc"), grp(Delim::Parenthesis, vec![id("x")])]),
                id("GreaterThanOne"),
                p(','),
                p('#'),
                grp(Delim::Bracket, vec![id("default")]),
                id("Other"),
            ],
        ),
    ]);
    let mut arms = arm(path("States", "Two"), "GreaterThanOne");
    arms.extend(arm(vec![id("_")], "Other"));
    expected.extend(impl_block("Computed", vec![id("States")], arms));
    assert_eq!(out, expected);
}

#[test]
fn computed_reports_a_variant_without_pattern() {
    let mut body = vec![id("NotTwo"), p(',')];
    body.extend(pat(path("States", "Two")));
    body.push(id("Two"));
    let mut item = vec![id("enum"), id("Computed"), grp(Delim::Brace, body)];
    // Leading tokens run up to the first named attribute, so the two names make one variant
    // and the expansion succeeds; a variant whose named attributes hold no pattern does not.
    let out = computed(vec![id("States")], item.clone_tokens());
    assert!(!out.iter().any(|t| *t == id("compile_error")));

    if let TokenTree::Group(_, body) = &mut item[2] {
        body.push(p(','));
        body.extend(vec![
            p('#'),
            grp(Delim::Bracket, vec![id("other"), grp(Delim::Parenthesis, vec![id("x")])]),
        ]);
        body.push(id("Last"));
    }
    let out = computed(vec![id("States")], item.clone_tokens());
    let mut expected = item;
    expected.extend(error_tail(MISSING_PAT_ERROR));
    assert_eq!(out, expected);
}

#[test]
fn computed_reports_two_patterns() {
    let mut body = pat(path("States", "One"));
    body.extend(pat(path("States", "Two")));
    body.push(id("Both"));
    let item = vec![id("enum"), id("Computed"), grp(Delim::Brace, body)];
    let out = computed(vec![id("States")], item.clone_tokens());
    let mut expected = item;
    expected.extend(error_tail(MULTIPLE_PAT_ERROR));
    assert_eq!(out, expected);
}

#[test]
fn computed_reports_an_item_of_another_shape() {
    let item = vec![id("struct"), id("Computed"), p(';')];
    let out = computed(vec![id("States")], item.clone_tokens());
    let mut expected = item;
    expected.extend(error_tail(ENUM_SHAPE_ERROR));
    assert_eq!(out, expected);

    // A variant with fields is not a list of names.
    let body = vec![id("A"), grp(Delim::Parenthesis, vec![id("u8")])];
    let item = vec![id("enum"), id("Computed"), grp(Delim::Brace, body)];
    let out = computed(vec![id("States")], item.clone_tokens());
    let mut expected = item;
    expected.extend(error_tail(ENUM_SHAPE_ERROR));
    assert_eq!(out, expected);
}

trait CloneTokens {
    fn clone_tokens(&self) -> Self;
}

impl CloneTokens for Vec<TokenTree> {
    fn clone_tokens(&self) -> Self {
        self.iter().map(clone_tree).collect()
    }
}

fn clone_tree(t: &TokenTree) -> TokenTree {
    match t {
        TokenTree::Group(d, v) => TokenTree::Group(*d, v.clone_tokens()),
        TokenTree::Ident(s) => TokenTree::Ident(s.clone()),
        TokenTree::Punct(c, s) => TokenTree::Punct(*c, *s),
        TokenTree::Literal(s) => TokenTree::Literal(s.clone()),
    }
}

#[test]
fn computed_maps_the_states_of_the_example() {
    // `#[computed(States)] enum Computed { #[pat(States::One | States::Three)] NotTwo,
    // #[pat(States::Two)] GreaterThanOne, }`
    let mut not_two = path("States", "One");
    not_two.push(p('|'));
    not_two.extend(path("States", "Three"));
    let mut body = pat(not_two);
    body.extend(vec![id("NotTwo"), p(',')]);
    body.extend(pat(path("States", "Two")));
    body.extend(vec![id("GreaterThanOne"), p(',')]);
    let item = vec![id("enum"), id("Computed"), grp(Delim::Brace, body)];
    let out = computed(vec![id("States")], item);

    let mut expected = derive_state();
    expected.extend(vec![
        id("enum"),
        id("Computed"),
        grp(Delim::Brace, vec![id("NotTwo"), p(','), id("GreaterThanOne"), p(',')]),
    ]);
    let mut not_two = path("States", "One");
    not_two.push(p('|'));
    not_two.extend(path("States", "Three"));
    let mut arms = arm(not_two, "NotTwo");
    arms.extend(arm(path("States", "Two"), "GreaterThanOne"));
    expected.extend(impl_block("Computed", vec![id("States")], arms));
    assert_eq!(out, expected);
}

fn literal_of(out: &[TokenTree]) -> String {
    match &out[out.len() - 2] {
        TokenTree::Group(_, inner) => match &inner[0] {
            TokenTree::Literal(text) => text.clone(),
            other => panic!("not a literal: {:?}", other),
        },
        other => panic!("not a group: {:?}", other),
    }
}

#[test]
fn error_messages_are_escaped() {
    let out = output_err("a\"b\\c\nd\te\r'", vec![id("x")]);
    assert_eq!(out.len(), 5);
    assert_eq!(out[0], id("x"));
    assert_eq!(out[1], id("compile_error"));
    assert_eq!(literal_of(&out), "\"a\\\"b\\\\c\\nd\\te\\r'\"");
}

#[test]
fn error_messages_escape_nul_and_control_characters() {
    let out = output_err("\01\0x\u{1}\u{1f}\u{7f}", vec![]);
    assert_eq!(literal_of(&out), "\"\\x001\\0x\\u{1}\\u{1f}\\u{7f}\"");
}

#[test]
fn error_messages_escape_other_characters_as_the_standard_library_does() {
    // A zero-width space is escaped, a printable accented letter is not.
    let out = output_err("\u{200b}é", vec![]);
    assert_eq!(literal_of(&out), "\"\\u{200b}é\"");
}

/// The variant that the expansion's `compute` gives for the state written `States::<state>`:
/// the variant of the first match arm one of whose `|` alternatives is that path.
fn computed_variant(out: &[TokenTree], state: &str) -> Option<String> {
    let block = match out.last() {
        Some(TokenTree::Group(Delim::Brace, body)) => body,
        _ => panic!("no impl block"),
    };
    let arms = match block.last() {
        Some(TokenTree::Group(Delim::Brace, f)) => match f.last() {
            Some(TokenTree::Group(Delim::Brace, arms)) => arms,
            _ => panic!("no match"),
        },
        _ => panic!("no function body"),
    };
    let wanted = path("States", state);
    let mut i = 0;
    while i < arms.len() {
        let start = i;
        while arms[i] != pj('=') {
            i += 1;
        }
        let pattern = &arms[start..i];
        // After `=>` comes either `None` or `Some` and the parenthesised variant.
        let result = if arms[i + 2] == id("None") {
            i += 3;
            None
        } else {
            let variant = match &arms[i + 3] {
                TokenTree::Group(Delim::Parenthesis, inner) => match inner.last() {
                    Some(TokenTree::Ident(name)) => name.clone(),
                    _ => panic!("no variant"),
                },
                _ => panic!("no result"),
            };
            i += 4;
            Some(variant)
        };
        if i < arms.len() && arms[i] == p(',') {
            i += 1;
        }
        let matches = pattern.split(|t| *t == p('|')).any(|alt| alt == wanted.as_slice());
        if matches {
            return result;
        }
        if pattern == [id("_")].as_slice() {
            return None;
        }
    }
    None
}

#[test]
fn it_works() {
    let mut not_two = path("States", "One");
    not_two.push(p('|'));
    not_two.extend(path("States", "Three"));
    let mut body = pat(not_two);
    body.extend(vec![id("NotTwo"), p(',')]);
    body.extend(pat(path("States", "Two")));
    body.extend(vec![id("GreaterThanOne"), p(',')]);
    let item = vec![id("enum"), id("Computed"), grp(Delim::Brace, body)];
    let out = computed(vec![id("States")], item);
    assert_eq!(computed_variant(&out, "Two"), Some("GreaterThanOne".to_string()));
    assert_eq!(computed_variant(&out, "Three"), Some("NotTwo".to_string()));
}
