//! How text is written inside a string literal.
//!
//! Each character is written the way `char::escape_debug` writes it, except that a single
//! quote stays as it is, and a NUL character followed by an octal digit is written `\x00`
//! (so that the digit is not read as part of an octal escape).
use vstd::prelude::*;

verus! {

/// What `char::escape_debug` writes for the character `c`.
pub uninterp spec fn char_debug_escape(c: char) -> Seq<char>;

/// `char::escape_debug` on `c`, collected into a string.
#[verifier::external_body]
fn debug_escape(c: char) -> (r: String)
    ensures
        r@ == char_debug_escape(c),
{
    c.escape_debug().to_string()
}

/// The hexadecimal digit for `d`, written in lower case.
pub open spec fn hex_char(d: int) -> char {
    "0123456789abcdef"@[d]
}

/// The hexadecimal digits of a number below 256, without leading zeros.
pub open spec fn hex_text(v: int) -> Seq<char> {
    if v < 16 {
        seq![hex_char(v)]
    } else {
        seq![hex_char(v / 16), hex_char(v % 16)]
    }
}

/// How the character `c` is written inside a string literal, given the character after it.
pub open spec fn escape_char(c: char, next: Option<char>) -> Seq<char> {
    if c == '\0' {
        if next matches Some(n) && '0' <= n <= '7' {
            seq!['\\', 'x', '0', '0']
        } else {
            seq!['\\', '0']
        }
    } else if c == '\'' {
        seq!['\'']
    } else if c == '\t' {
        seq!['\\', 't']
    } else if c == '\r' {
        seq!['\\', 'r']
    } else if c == '\n' {
        seq!['\\', 'n']
    } else if c == '\\' {
        seq!['\\', '\\']
    } else if c == '"' {
        seq!['\\', '"']
    } else if ' ' <= c <= '~' {
        seq![c]
    } else if (c as u32) < 0x80 {
        seq!['\\', 'u', '{'] + hex_text(c as u32 as int) + seq!['}']
    } else {
        char_debug_escape(c)
    }
}

/// How the character at `j` of `text` is written.
pub open spec fn escape_at(text: Seq<char>, j: int) -> Seq<char> {
    escape_char(
        text[j],
        if j + 1 < text.len() {
            Some(text[j + 1])
        } else {
            None
        },
    )
}

/// How the first `i` characters of `text` are written.
pub open spec fn escaped_prefix(text: Seq<char>, i: int) -> Seq<char>
    decreases i,
{
    if i <= 0 {
        Seq::empty()
    } else {
        escaped_prefix(text, i - 1) + escape_at(text, i - 1)
    }
}

/// How `text` is written inside a string literal.
pub open spec fn escaped(text: Seq<char>) -> Seq<char> {
    escaped_prefix(text, text.len() as int)
}

/// The hexadecimal digit for `d`.
fn hex_digit(d: u32) -> (r: &'static str)
    requires
        d < 16,
    ensures
        r@ == seq![hex_char(d as int)],
{
    let digits = "0123456789abcdef";
    proof {
        reveal_strlit("0123456789abcdef");
    }
    let r = digits.substring_char(d as usize, d as usize + 1);
    assert(r@ =~= seq![hex_char(d as int)]);
    r
}

/// Appends to `s` how the character `c`, at `i` in `text`, is written.
fn push_escape(s: &mut String, text: &str, i: usize, c: char, next: Option<char>)
    requires
        i < text@.len() <= usize::MAX,
        c == text@[i as int],
    ensures
        final(s)@ == old(s)@ + escape_char(c, next),
{
    let ghost start = s@;
    if c == '\0' {
        let octal = match next {
            Some(n) => '0' <= n && n <= '7',
            None => false,
        };
        if octal {
            s.append("\\x00");
            proof {
                reveal_strlit("\\x00");
            }
        } else {
            s.append("\\0");
            proof {
                reveal_strlit("\\0");
            }
        }
    } else if c == '\'' || (' ' <= c && c <= '~' && c != '\\' && c != '"') {
        s.append(text.substring_char(i, i + 1));
    } else if c == '\t' {
        s.append("\\t");
        proof {
            reveal_strlit("\\t");
        }
    } else if c == '\r' {
        s.append("\\r");
        proof {
            reveal_strlit("\\r");
        }
    } else if c == '\n' {
        s.append("\\n");
        proof {
            reveal_strlit("\\n");
        }
    } else if c == '\\' {
        s.append("\\\\");
        proof {
            reveal_strlit("\\\\");
        }
    } else if c == '"' {
        s.append("\\\"");
        proof {
            reveal_strlit("\\\"");
        }
    } else if (c as u32) < 0x80 {
        let v = c as u32;
        s.append("\\u{");
        proof {
            reveal_strlit("\\u{");
        }
        if v < 16 {
            s.append(hex_digit(v));
        } else {
            s.append(hex_digit(v / 16));
            s.append(hex_digit(v % 16));
        }
        s.append("}");
        proof {
            reveal_strlit("}");
        }
    } else {
        let e = debug_escape(c);
        s.append(e.as_str());
    }
    assert(s@ =~= start + escape_char(c, next));
}

/// `text` as it is written inside a string literal.
pub fn escape_text(text: &str) -> (r: String)
    ensures
        r@ == escaped(text@),
{
    let n = text.unicode_len();
    let mut s = String::new();
    let mut i: usize = 0;
    while i < n
        invariant
            n == text@.len(),
            i <= n,
            s@ == escaped_prefix(text@, i as int),
        decreases n - i,
    {
        let c = text.get_char(i);
        let next = if i + 1 < n {
            Some(text.get_char(i + 1))
        } else {
            None
        };
        push_escape(&mut s, text, i, c, next);
        i = i + 1;
    }
    s
}

} // verus!
