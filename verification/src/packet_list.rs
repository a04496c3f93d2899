//! The packet list: the declaration of which packet types each connection
//! state has, by direction, and which layer handles them.
//!
//! The text has this grammar, with spaces, tabs, line breaks and comments
//! (`// ...` to the end of the line, `/* ... */`, which may nest) allowed
//! between any two tokens:
//!
//! ```text
//! list      := group*
//! group     := IDENT [ "(" "networking" ")" ] ":" direction* ";"
//! direction := ("CB" | "SB") "{" [ entry ("," entry)* [","] ] "}"
//! entry     := IDENT [ "=" STRING ]
//! ```
//!
//! An identifier is an ASCII letter or `_` followed by ASCII letters, digits
//! and `_`, other than `_` alone and the keywords of Rust; identifiers are
//! ASCII only, as the Unicode identifier tables are not part of this
//! grammar. A string is text between double quotes in which a backslash
//! starts one of the escapes `\n`, `\r`, `\t`, `\0`, `\\`, `\'`, `\"`,
//! `\xHH` (an ASCII character by two hexadecimal digits, at most `7F`) and
//! `\u{H..}` (a character by one to six hexadecimal digits), or ends the
//! line, which is then dropped with the spaces and line breaks after it.
use vstd::prelude::*;

use crate::common::text::{chars_of, string_from_chars};
use crate::packet_registry::{
    camel_to_snake, find_id, qualified, resolve_one, resolve_packets, Direction, PacketDeclaration, PacketEntry,
    PacketWithMetadata, ResolveError, ResolveFailure, Sides,
};

verus! {

/// Whether `c` separates tokens.
pub open spec fn is_space(c: char) -> bool {
    c == ' ' || c == '\t' || c == '\n' || c == '\r'
}

/// Whether `c` may start an identifier.
pub open spec fn is_ident_start(c: char) -> bool {
    ('a' <= c <= 'z') || ('A' <= c <= 'Z') || c == '_'
}

/// Whether `c` may continue an identifier.
pub open spec fn is_ident_continue(c: char) -> bool {
    is_ident_start(c) || ('0' <= c <= '9')
}

/// The index just past the line that index `i` is on: the index of its line
/// break, or the end of the text.
pub open spec fn line_end(s: Seq<char>, i: int) -> int
    decreases s.len() - i,
{
    if 0 <= i < s.len() && s[i] != '\n' {
        line_end(s, i + 1)
    } else {
        i
    }
}

/// The index after the `*/` that closes a block comment whose text starts at
/// `i`, with `depth` comments open, or nothing when the text ends first.
pub open spec fn block_end(s: Seq<char>, i: int, depth: nat) -> Option<int>
    decreases s.len() - i,
{
    if i < 0 || i + 1 >= s.len() {
        None
    } else if s[i] == '*' && s[i + 1] == '/' {
        if depth <= 1 {
            Some(i + 2)
        } else {
            block_end(s, i + 2, (depth - 1) as nat)
        }
    } else if s[i] == '/' && s[i + 1] == '*' {
        block_end(s, i + 2, depth + 1)
    } else {
        block_end(s, i + 1, depth)
    }
}

/// Whether a line comment starts at `i`.
pub open spec fn starts_line_comment(s: Seq<char>, i: int) -> bool {
    0 <= i && i + 1 < s.len() && s[i] == '/' && s[i + 1] == '/'
}

/// Whether a block comment starts at `i`.
pub open spec fn starts_block_comment(s: Seq<char>, i: int) -> bool {
    0 <= i && i + 1 < s.len() && s[i] == '/' && s[i + 1] == '*'
}

pub proof fn lemma_line_end(s: Seq<char>, i: int)
    requires
        0 <= i <= s.len(),
    ensures
        i <= line_end(s, i) <= s.len(),
    decreases s.len() - i,
{
    if i < s.len() && s[i] != '\n' {
        lemma_line_end(s, i + 1);
    }
}

pub proof fn lemma_block_end(s: Seq<char>, i: int, depth: nat)
    requires
        0 <= i,
    ensures
        block_end(s, i, depth) matches Some(e) ==> i < e <= s.len(),
    decreases s.len() - i,
{
    if i + 1 < s.len() {
        if s[i] == '*' && s[i + 1] == '/' {
            if depth > 1 {
                lemma_block_end(s, i + 2, (depth - 1) as nat);
            }
        } else if s[i] == '/' && s[i + 1] == '*' {
            lemma_block_end(s, i + 2, depth + 1);
        } else {
            lemma_block_end(s, i + 1, depth);
        }
    }
}

/// The index of the first character at or after `i` that is neither a
/// space nor in a comment; an unterminated block comment stops there.
pub open spec fn skip_space(s: Seq<char>, i: int) -> int
    decreases s.len() - i,
{
    if 0 <= i < s.len() && is_space(s[i]) {
        skip_space(s, i + 1)
    } else if starts_line_comment(s, i) {
        proof {
            lemma_line_end(s, i + 2);
        }
        skip_space(s, line_end(s, i + 2))
    } else if starts_block_comment(s, i) {
        proof {
            lemma_block_end(s, i + 2, 1);
        }
        match block_end(s, i + 2, 1) {
            Some(e) => skip_space(s, e),
            None => i,
        }
    } else {
        i
    }
}

/// The index after the run of identifier characters that starts at `i`.
pub open spec fn ident_end(s: Seq<char>, i: int) -> int
    decreases s.len() - i,
{
    if 0 <= i < s.len() && is_ident_continue(s[i]) {
        ident_end(s, i + 1)
    } else {
        i
    }
}

/// The identifier that is the next token from `i`, and the index after it.
pub open spec fn ident_at(s: Seq<char>, i: int) -> Option<(Seq<char>, int)> {
    let j = skip_space(s, i);
    if 0 <= j < s.len() && is_ident_start(s[j]) && !is_reserved(s.subrange(j, ident_end(s, j + 1))) {
        let e = ident_end(s, j + 1);
        Some((s.subrange(j, e), e))
    } else {
        None
    }
}

/// Whether `w` is `_` or a keyword of the language, which are not
/// identifiers.
pub open spec fn is_reserved(w: Seq<char>) -> bool {
    ||| w == "_"@
    ||| w == "abstract"@
    ||| w == "as"@
    ||| w == "async"@
    ||| w == "await"@
    ||| w == "become"@
    ||| w == "box"@
    ||| w == "break"@
    ||| w == "const"@
    ||| w == "continue"@
    ||| w == "crate"@
    ||| w == "do"@
    ||| w == "dyn"@
    ||| w == "else"@
    ||| w == "enum"@
    ||| w == "extern"@
    ||| w == "false"@
    ||| w == "final"@
    ||| w == "fn"@
    ||| w == "for"@
    ||| w == "if"@
    ||| w == "impl"@
    ||| w == "in"@
    ||| w == "let"@
    ||| w == "loop"@
    ||| w == "macro"@
    ||| w == "match"@
    ||| w == "mod"@
    ||| w == "move"@
    ||| w == "mut"@
    ||| w == "override"@
    ||| w == "priv"@
    ||| w == "pub"@
    ||| w == "ref"@
    ||| w == "return"@
    ||| w == "Self"@
    ||| w == "self"@
    ||| w == "static"@
    ||| w == "struct"@
    ||| w == "super"@
    ||| w == "trait"@
    ||| w == "true"@
    ||| w == "try"@
    ||| w == "type"@
    ||| w == "typeof"@
    ||| w == "unsafe"@
    ||| w == "unsized"@
    ||| w == "use"@
    ||| w == "virtual"@
    ||| w == "where"@
    ||| w == "while"@
    ||| w == "yield"@
}

/// The index after the punctuation `c` when it is the next token from `i`.
pub open spec fn punct_at(s: Seq<char>, i: int, c: char) -> Option<int> {
    let j = skip_space(s, i);
    if 0 <= j < s.len() && s[j] == c {
        Some(j + 1)
    } else {
        None
    }
}

/// The character that the escape `\\c` stands for, if `c` names one.
pub open spec fn escaped(c: char) -> Option<char> {
    if c == 'n' {
        Some('\n')
    } else if c == 'r' {
        Some('\r')
    } else if c == 't' {
        Some('\t')
    } else if c == '0' {
        Some('\0')
    } else if c == '\\' || c == '\'' || c == '"' {
        Some(c)
    } else {
        None
    }
}

/// The value of the hexadecimal digit `c`, if it is one.
pub open spec fn hex_value(c: char) -> Option<u8> {
    if '0' <= c <= '9' {
        Some(((c as u32) - ('0' as u32)) as u8)
    } else if 'a' <= c <= 'f' {
        Some(((c as u32) - ('a' as u32) + 10) as u8)
    } else if 'A' <= c <= 'F' {
        Some(((c as u32) - ('A' as u32) + 10) as u8)
    } else {
        None
    }
}

/// Whether a `\\xHH` escape of an ASCII character starts at `i`.
pub open spec fn starts_hex_escape(s: Seq<char>, i: int) -> bool {
    &&& 0 <= i
    &&& i + 3 < s.len()
    &&& s[i] == '\\'
    &&& s[i + 1] == 'x'
    &&& hex_value(s[i + 2]) is Some
    &&& hex_value(s[i + 3]) is Some
    &&& hex_value(s[i + 2])->0 < 8
}

/// The character of the `\\xHH` escape that starts at `i`.
pub open spec fn hex_escape_char(s: Seq<char>, i: int) -> char {
    ((hex_value(s[i + 2])->0 * 16 + hex_value(s[i + 3])->0) as u8) as char
}

/// The index after the run of spaces, tabs and line breaks at `i`.
pub open spec fn blank_end(s: Seq<char>, i: int) -> int
    decreases s.len() - i,
{
    if 0 <= i < s.len() && is_space(s[i]) {
        blank_end(s, i + 1)
    } else {
        i
    }
}

pub proof fn lemma_blank_end(s: Seq<char>, i: int)
    requires
        0 <= i <= s.len(),
    ensures
        i <= blank_end(s, i) <= s.len(),
    decreases s.len() - i,
{
    if i < s.len() && is_space(s[i]) {
        lemma_blank_end(s, i + 1);
    }
}

/// The index after the run of hexadecimal digits at `i`.
pub open spec fn hex_run_end(s: Seq<char>, i: int) -> int
    decreases s.len() - i,
{
    if 0 <= i < s.len() && hex_value(s[i]) is Some {
        hex_run_end(s, i + 1)
    } else {
        i
    }
}

pub proof fn lemma_hex_run_end(s: Seq<char>, i: int)
    requires
        0 <= i <= s.len(),
    ensures
        i <= hex_run_end(s, i) <= s.len(),
        forall|j: int| i <= j < hex_run_end(s, i) ==> #[trigger] hex_value(s[j]) is Some,
    decreases s.len() - i,
{
    if i < s.len() && hex_value(s[i]) is Some {
        lemma_hex_run_end(s, i + 1);
    }
}

/// The number that the hexadecimal digits of `s` from `from` to `to` write.
pub open spec fn hex_number(s: Seq<char>, from: int, to: int) -> nat
    decreases to - from,
{
    if to <= from {
        0
    } else {
        (hex_number(s, from, to - 1) * 16 + hex_value(s[to - 1])->0) as nat
    }
}

/// Whether `v` is the value of a character: at most `10FFFF` and outside
/// the surrogates `D800`..`DFFF`.
pub open spec fn is_char_value(v: nat) -> bool {
    v <= 0x10FFFF && !(0xD800 <= v <= 0xDFFF)
}

/// The character of a `\\u{H..}` escape (one to six hexadecimal digits
/// naming a character) that starts at `i`, and the index after its `}`.
pub open spec fn unicode_escape(s: Seq<char>, i: int) -> Option<(char, int)> {
    if 0 <= i && i + 2 < s.len() && s[i] == '\\' && s[i + 1] == 'u' && s[i + 2] == '{' {
        let e = hex_run_end(s, i + 3);
        let v = hex_number(s, i + 3, e);
        if 1 <= e - (i + 3) <= 6 && e < s.len() && s[e] == '}' && is_char_value(v) {
            Some(((v as u32) as char, e + 1))
        } else {
            None
        }
    } else {
        None
    }
}

pub proof fn lemma_unicode_escape(s: Seq<char>, i: int)
    requires
        0 <= i,
    ensures
        unicode_escape(s, i) matches Some((_, e)) ==> i < e <= s.len(),
{
    if 0 <= i && i + 2 < s.len() {
        lemma_hex_run_end(s, i + 3);
    }
}

/// The text of a string whose body starts at `i`, with its escapes
/// replaced, and the index of its closing quote; nothing when the text ends
/// first or holds an unknown escape.
pub open spec fn literal_body(s: Seq<char>, i: int) -> Option<(Seq<char>, int)>
    decreases s.len() - i,
{
    if i < 0 || i >= s.len() {
        None
    } else if s[i] == '"' {
        Some((Seq::empty(), i))
    } else if s[i] == '\\' {
        if i + 1 < s.len() && escaped(s[i + 1]) is Some {
            match literal_body(s, i + 2) {
                Some((t, e)) => Some((seq![escaped(s[i + 1])->0] + t, e)),
                None => None,
            }
        } else if starts_hex_escape(s, i) {
            match literal_body(s, i + 4) {
                Some((t, e)) => Some((seq![hex_escape_char(s, i)] + t, e)),
                None => None,
            }
        } else if let Some((c, k)) = unicode_escape(s, i) {
            proof {
                lemma_unicode_escape(s, i);
            }
            match literal_body(s, k) {
                Some((t, e)) => Some((seq![c] + t, e)),
                None => None,
            }
        } else if i + 1 < s.len() && s[i + 1] == '\n' {
            proof {
                lemma_blank_end(s, i + 2);
            }
            literal_body(s, blank_end(s, i + 2))
        } else {
            None
        }
    } else {
        match literal_body(s, i + 1) {
            Some((t, e)) => Some((seq![s[i]] + t, e)),
            None => None,
        }
    }
}

/// The text of the string that is the next token from `i`, and the index
/// after its closing quote.
pub open spec fn literal_at(s: Seq<char>, i: int) -> Option<(Seq<char>, int)> {
    match punct_at(s, i, '"') {
        Some(j) => match literal_body(s, j) {
            Some((t, e)) => Some((t, e + 1)),
            None => None,
        },
        None => None,
    }
}

proof fn lemma_skip_space(s: Seq<char>, i: int)
    requires
        0 <= i <= s.len(),
    ensures
        i <= skip_space(s, i) <= s.len(),
    decreases s.len() - i,
{
    if i < s.len() && is_space(s[i]) {
        lemma_skip_space(s, i + 1);
    } else if starts_line_comment(s, i) {
        lemma_line_end(s, i + 2);
        lemma_skip_space(s, line_end(s, i + 2));
    } else if starts_block_comment(s, i) {
        lemma_block_end(s, i + 2, 1);
        if let Some(e) = block_end(s, i + 2, 1) {
            lemma_skip_space(s, e);
        }
    }
}

proof fn lemma_ident_end(s: Seq<char>, i: int)
    requires
        0 <= i <= s.len(),
    ensures
        i <= ident_end(s, i) <= s.len(),
    decreases s.len() - i,
{
    if i < s.len() && is_ident_continue(s[i]) {
        lemma_ident_end(s, i + 1);
    }
}

proof fn lemma_literal_body(s: Seq<char>, i: int)
    requires
        0 <= i,
    ensures
        literal_body(s, i) matches Some((_, e)) ==> i <= e < s.len(),
    decreases s.len() - i,
{
    if 0 <= i < s.len() && s[i] != '"' {
        if s[i] == '\\' {
            if i + 1 < s.len() {
                lemma_literal_body(s, i + 2);
            }
            if i + 3 < s.len() {
                lemma_literal_body(s, i + 4);
            }
            lemma_unicode_escape(s, i);
            if let Some((_, k)) = unicode_escape(s, i) {
                lemma_literal_body(s, k);
            }
            if i + 1 < s.len() {
                lemma_blank_end(s, i + 2);
                lemma_literal_body(s, blank_end(s, i + 2));
            }
        } else {
            lemma_literal_body(s, i + 1);
        }
    }
}

/// Each token consumes at least one character and stays within the text.
pub proof fn lemma_tokens_advance(s: Seq<char>, i: int, c: char)
    requires
        0 <= i <= s.len(),
    ensures
        ident_at(s, i) matches Some((_, e)) ==> i < e <= s.len(),
        punct_at(s, i, c) matches Some(e) ==> i < e <= s.len(),
        literal_at(s, i) matches Some((_, e)) ==> i < e <= s.len(),
{
    lemma_skip_space(s, i);
    let j = skip_space(s, i);
    if 0 <= j < s.len() {
        lemma_ident_end(s, j + 1);
        lemma_literal_body(s, j + 1);
    }
}

/// The index just past the line that index `i` is on.
fn line_end_exec(s: &Vec<char>, i: usize) -> (j: usize)
    requires
        i <= s@.len(),
    ensures
        j == line_end(s@, i as int),
        i <= j <= s@.len(),
{
    proof {
        lemma_line_end(s@, i as int);
    }
    let mut j = i;
    while j < s.len() && s[j] != '\n'
        invariant
            i <= j <= s@.len(),
            line_end(s@, j as int) == line_end(s@, i as int),
        decreases s@.len() - j,
    {
        j = j + 1;
    }
    j
}

/// The index after the `*/` that closes a block comment whose text starts at
/// `i`, or nothing when the text ends first.
fn block_end_exec(s: &Vec<char>, i: usize) -> (r: Option<usize>)
    requires
        i <= s@.len(),
    ensures
        match block_end(s@, i as int, 1) {
            Some(e) => r matches Some(k) && k == e && i < e <= s@.len(),
            None => r is None,
        },
{
    proof {
        lemma_block_end(s@, i as int, 1);
    }
    let mut k = i;
    let mut depth: usize = 1;
    loop
        invariant
            i <= k <= s@.len(),
            1 <= depth <= k + 1,
            block_end(s@, k as int, depth as nat) == block_end(s@, i as int, 1),
        decreases s@.len() - k,
    {
        if s.len() - k < 2 {
            return None;
        }
        if s[k] == '*' && s[k + 1] == '/' {
            if depth <= 1 {
                return Some(k + 2);
            }
            depth = depth - 1;
            k = k + 2;
        } else if s[k] == '/' && s[k + 1] == '*' {
            depth = depth + 1;
            k = k + 2;
        } else {
            k = k + 1;
        }
    }
}

/// The index of the first character at or after `i` that is neither a
/// space nor in a comment.
fn skip_space_exec(s: &Vec<char>, i: usize) -> (j: usize)
    requires
        i <= s@.len(),
    ensures
        j == skip_space(s@, i as int),
        i <= j <= s@.len(),
{
    proof {
        lemma_skip_space(s@, i as int);
    }
    let mut j = i;
    loop
        invariant
            i <= j <= s@.len(),
            skip_space(s@, j as int) == skip_space(s@, i as int),
        decreases s@.len() - j,
    {
        if j < s.len() && (s[j] == ' ' || s[j] == '\t' || s[j] == '\n' || s[j] == '\r') {
            j = j + 1;
        } else if s.len() - j >= 2 && s[j] == '/' && s[j + 1] == '/' {
            j = line_end_exec(s, j + 2);
        } else if s.len() - j >= 2 && s[j] == '/' && s[j + 1] == '*' {
            match block_end_exec(s, j + 2) {
                Some(e) => {
                    j = e;
                },
                None => {
                    return j;
                },
            }
        } else {
            return j;
        }
    }
}

/// The identifier that is the next token from `i`, as the indices of its
/// first character and of the character after it.
fn ident_at_exec(s: &Vec<char>, i: usize) -> (r: Option<(usize, usize)>)
    requires
        i <= s@.len(),
    ensures
        match ident_at(s@, i as int) {
            Some((w, e)) => r matches Some((b, e2)) && e2 == e && b <= e2 <= s@.len() && s@.subrange(b as int, e2 as int) == w,
            None => r is None,
        },
{
    let j = skip_space_exec(s, i);
    if j < s.len() && (('a' <= s[j] && s[j] <= 'z') || ('A' <= s[j] && s[j] <= 'Z') || s[j] == '_') {
        let mut e = j + 1;
        proof {
            lemma_ident_end(s@, e as int);
        }
        while e < s.len() && (('a' <= s[e] && s[e] <= 'z') || ('A' <= s[e] && s[e] <= 'Z') || s[e] == '_' || ('0'
            <= s[e] && s[e] <= '9'))
            invariant
                j < e <= s@.len(),
                ident_end(s@, e as int) == ident_end(s@, j + 1),
            decreases s@.len() - e,
        {
            e = e + 1;
        }
        if is_reserved_exec(s, j, e) {
            None
        } else {
            Some((j, e))
        }
    } else {
        None
    }
}

/// Whether the characters of `s` from `from` to `to` are `_` or a keyword.
fn is_reserved_exec(s: &Vec<char>, from: usize, to: usize) -> (b: bool)
    requires
        from <= to <= s@.len(),
    ensures
        b == is_reserved(s@.subrange(from as int, to as int)),
{
    is_word(s, from, to, "_")
        || is_word(s, from, to, "abstract")
        || is_word(s, from, to, "as")
        || is_word(s, from, to, "async")
        || is_word(s, from, to, "await")
        || is_word(s, from, to, "become")
        || is_word(s, from, to, "box")
        || is_word(s, from, to, "break")
        || is_word(s, from, to, "const")
        || is_word(s, from, to, "continue")
        || is_word(s, from, to, "crate")
        || is_word(s, from, to, "do")
        || is_word(s, from, to, "dyn")
        || is_word(s, from, to, "else")
        || is_word(s, from, to, "enum")
        || is_word(s, from, to, "extern")
        || is_word(s, from, to, "false")
        || is_word(s, from, to, "final")
        || is_word(s, from, to, "fn")
        || is_word(s, from, to, "for")
        || is_word(s, from, to, "if")
        || is_word(s, from, to, "impl")
        || is_word(s, from, to, "in")
        || is_word(s, from, to, "let")
        || is_word(s, from, to, "loop")
        || is_word(s, from, to, "macro")
        || is_word(s, from, to, "match")
        || is_word(s, from, to, "mod")
        || is_word(s, from, to, "move")
        || is_word(s, from, to, "mut")
        || is_word(s, from, to, "override")
        || is_word(s, from, to, "priv")
        || is_word(s, from, to, "pub")
        || is_word(s, from, to, "ref")
        || is_word(s, from, to, "return")
        || is_word(s, from, to, "Self")
        || is_word(s, from, to, "self")
        || is_word(s, from, to, "static")
        || is_word(s, from, to, "struct")
        || is_word(s, from, to, "super")
        || is_word(s, from, to, "trait")
        || is_word(s, from, to, "true")
        || is_word(s, from, to, "try")
        || is_word(s, from, to, "type")
        || is_word(s, from, to, "typeof")
        || is_word(s, from, to, "unsafe")
        || is_word(s, from, to, "unsized")
        || is_word(s, from, to, "use")
        || is_word(s, from, to, "virtual")
        || is_word(s, from, to, "where")
        || is_word(s, from, to, "while")
        || is_word(s, from, to, "yield")
}

/// The index after the punctuation `c` when it is the next token from `i`.
fn punct_at_exec(s: &Vec<char>, i: usize, c: char) -> (r: Option<usize>)
    requires
        i <= s@.len(),
    ensures
        match punct_at(s@, i as int, c) {
            Some(e) => r matches Some(k) && k == e && i < e <= s@.len(),
            None => r is None,
        },
{
    let j = skip_space_exec(s, i);
    if j < s.len() && s[j] == c {
        proof {
            lemma_skip_space(s@, i as int);
        }
        Some(j + 1)
    } else {
        None
    }
}

/// The character that an escape names.
fn escaped_exec(c: char) -> (r: Option<char>)
    ensures
        r == escaped(c),
{
    if c == 'n' {
        Some('\n')
    } else if c == 'r' {
        Some('\r')
    } else if c == 't' {
        Some('\t')
    } else if c == '0' {
        Some('\0')
    } else if c == '\\' || c == '\'' || c == '"' {
        Some(c)
    } else {
        None
    }
}

fn hex_value_exec(c: char) -> (r: Option<u8>)
    ensures
        r == hex_value(c),
{
    if '0' <= c && c <= '9' {
        Some(((c as u32) - ('0' as u32)) as u8)
    } else if 'a' <= c && c <= 'f' {
        Some(((c as u32) - ('a' as u32) + 10) as u8)
    } else if 'A' <= c && c <= 'F' {
        Some(((c as u32) - ('A' as u32) + 10) as u8)
    } else {
        None
    }
}

/// The character of a `\\xHH` escape at `i`, when one starts there.
fn hex_escape_exec(s: &Vec<char>, i: usize) -> (r: Option<char>)
    requires
        i + 1 < s@.len(),
        s@[i as int] == '\\',
    ensures
        match r {
            Some(c) => starts_hex_escape(s@, i as int) && c == hex_escape_char(s@, i as int),
            None => !starts_hex_escape(s@, i as int),
        },
{
    if s.len() - i < 4 || s[i + 1] != 'x' {
        return None;
    }
    match (hex_value_exec(s[i + 2]), hex_value_exec(s[i + 3])) {
        (Some(high), Some(low)) => {
            if high < 8 {
                Some(((high * 16 + low) as u8) as char)
            } else {
                None
            }
        },
        _ => None,
    }
}

/// `2^(4n)`, the number of values that `n` hexadecimal digits write.
pub open spec fn pow16(n: nat) -> nat
    decreases n,
{
    if n == 0 {
        1
    } else {
        16 * pow16((n - 1) as nat)
    }
}

proof fn lemma_hex_value_bound(c: char)
    ensures
        hex_value(c) matches Some(d) ==> d < 16,
{
}

proof fn lemma_hex_number_bound(s: Seq<char>, from: int, to: int)
    requires
        from <= to,
        forall|j: int| from <= j < to ==> #[trigger] hex_value(s[j]) is Some,
    ensures
        hex_number(s, from, to) < pow16((to - from) as nat),
    decreases to - from,
{
    if to > from {
        lemma_hex_number_bound(s, from, to - 1);
        lemma_hex_value_bound(s[to - 1]);
        let x = hex_number(s, from, to - 1);
        let d = hex_value(s[to - 1])->0;
        let p = pow16((to - 1 - from) as nat);
        assert(x * 16 + d < 16 * p) by (nonlinear_arith)
            requires
                x < p,
                d < 16,
        ;
    }
}

/// `char::from_u32`: a character exactly when `v` is the value of one, and
/// then the character with that value.
#[verifier::external_body]
fn char_from_u32(v: u32) -> (r: Option<char>)
    ensures
        (r is Some) == is_char_value(v as nat),
        r matches Some(c) ==> c == v as char,
{
    char::from_u32(v)
}

/// The index after the run of spaces, tabs and line breaks at `i`.
fn blank_end_exec(s: &Vec<char>, i: usize) -> (j: usize)
    requires
        i <= s@.len(),
    ensures
        j == blank_end(s@, i as int),
        i <= j <= s@.len(),
{
    proof {
        lemma_blank_end(s@, i as int);
    }
    let mut j = i;
    while j < s.len() && (s[j] == ' ' || s[j] == '\t' || s[j] == '\n' || s[j] == '\r')
        invariant
            i <= j <= s@.len(),
            blank_end(s@, j as int) == blank_end(s@, i as int),
        decreases s@.len() - j,
    {
        j = j + 1;
    }
    j
}

/// The character of a `\\u{H..}` escape at `i`, when one starts there, and
/// the index after it.
fn unicode_escape_exec(s: &Vec<char>, i: usize) -> (r: Option<(char, usize)>)
    requires
        i + 1 < s@.len(),
        s@[i as int] == '\\',
    ensures
        match unicode_escape(s@, i as int) {
            Some((c, e)) => r matches Some((c2, k)) && c2 == c && k == e,
            None => r is None,
        },
{
    if s.len() - i < 3 || s[i + 1] != 'u' || s[i + 2] != '{' {
        return None;
    }
    let start = i + 3;
    proof {
        lemma_hex_run_end(s@, start as int);
    }
    let mut e = start;
    while e < s.len() && hex_value_exec(s[e]).is_some()
        invariant
            start <= e <= s@.len(),
            hex_run_end(s@, e as int) == hex_run_end(s@, start as int),
        decreases s@.len() - e,
    {
        e = e + 1;
    }
    if e == start || e - start > 6 || e >= s.len() || s[e] != '}' {
        return None;
    }
    let mut value: u32 = 0;
    let mut k = start;
    while k < e
        invariant
            start <= k <= e,
            e - start <= 6,
            e == hex_run_end(s@, start as int),
            e <= s@.len(),
            forall|j: int| start <= j < e ==> #[trigger] hex_value(s@[j]) is Some,
            value as nat == hex_number(s@, start as int, k as int),
        decreases e - k,
    {
        let d = match hex_value_exec(s[k]) {
            Some(d) => d,
            None => {
                return None;
            },
        };
        proof {
            lemma_hex_number_bound(s@, start as int, k + 1);
            reveal_with_fuel(pow16, 7);
            assert(pow16((k + 1 - start) as nat) <= 0x1000000) by {
                reveal_with_fuel(pow16, 7);
            }
        }
        value = value * 16 + d as u32;
        k = k + 1;
    }
    match char_from_u32(value) {
        Some(c) => Some((c, e + 1)),
        None => None,
    }
}

/// The string that is the next token from `i`, with its escapes replaced,
/// and the index after its closing quote.
fn literal_at_exec(s: &Vec<char>, i: usize) -> (r: Option<(String, usize)>)
    requires
        i <= s@.len(),
    ensures
        match literal_at(s@, i as int) {
            Some((w, e)) => r matches Some((t, e2)) && e2 == e && t@ == w && e <= s@.len(),
            None => r is None,
        },
{
    match punct_at_exec(s, i, '"') {
        None => None,
        Some(j) => {
            proof {
                lemma_literal_body(s@, j as int);
            }
            let mut out: Vec<char> = Vec::new();
            let mut m = j;
            loop
                invariant
                    j <= m <= s@.len(),
                    punct_at(s@, i as int, '"') == Some(j as int),
                    literal_body(s@, j as int) == match literal_body(s@, m as int) {
                        Some((t, e)) => Some((out@ + t, e)),
                        None => None,
                    },
                decreases s@.len() - m,
            {
                if m >= s.len() {
                    return None;
                }
                let c = s[m];
                let ghost before = out@;
                if c == '"' {
                    assert(before + Seq::<char>::empty() =~= before);
                    return Some((string_from_chars(out), m + 1));
                }
                if c == '\\' {
                    if s.len() - m < 2 {
                        return None;
                    }
                    match escaped_exec(s[m + 1]) {
                        Some(x) => {
                            out.push(x);
                            proof {
                                if let Some((t, e)) = literal_body(s@, m + 2) {
                                    assert(before.push(x) + t =~= before + (seq![x] + t));
                                }
                            }
                            m = m + 2;
                        },
                        None => {
                            match hex_escape_exec(s, m) {
                                Some(x) => {
                                    out.push(x);
                                    proof {
                                        if let Some((t, e)) = literal_body(s@, m + 4) {
                                            assert(before.push(x) + t =~= before + (seq![x] + t));
                                        }
                                    }
                                    m = m + 4;
                                },
                                None => match unicode_escape_exec(s, m) {
                                    Some((x, k)) => {
                                        out.push(x);
                                        proof {
                                            if let Some((t, e)) = literal_body(s@, k as int) {
                                                assert(before.push(x) + t =~= before + (seq![x] + t));
                                            }
                                        }
                                        m = k;
                                    },
                                    None => {
                                        if s[m + 1] == '\n' {
                                            m = blank_end_exec(s, m + 2);
                                        } else {
                                            return None;
                                        }
                                    },
                                },
                            }
                        },
                    }
                } else {
                    out.push(c);
                    proof {
                        if let Some((t, e)) = literal_body(s@, m + 1) {
                            assert(before.push(c) + t =~= before + (seq![c] + t));
                        }
                    }
                    m = m + 1;
                }
            }
        },
    }
}

/// The characters of `s` from `from` to `to`, as a string.
fn text_between(s: &Vec<char>, from: usize, to: usize) -> (r: String)
    requires
        from <= to <= s@.len(),
    ensures
        r@ == s@.subrange(from as int, to as int),
{
    let mut out: Vec<char> = Vec::new();
    let mut k = from;
    while k < to
        invariant
            from <= k <= to <= s@.len(),
            out@ == s@.subrange(from as int, k as int),
        decreases to - k,
    {
        out.push(s[k]);
        k = k + 1;
        assert(out@ =~= s@.subrange(from as int, k as int));
    }
    string_from_chars(out)
}

/// Whether the characters of `s` from `from` to `to` are the word `w`.
fn is_word(s: &Vec<char>, from: usize, to: usize, w: &str) -> (b: bool)
    requires
        from <= to <= s@.len(),
    ensures
        b == (s@.subrange(from as int, to as int) == w@),
{
    let word = chars_of(w);
    if to - from != word.len() {
        return false;
    }
    let mut k: usize = 0;
    while k < word.len()
        invariant
            k <= word@.len(),
            word@ == w@,
            to - from == word@.len(),
            from <= to <= s@.len(),
            forall|x: int| 0 <= x < k ==> s@[from + x] == word@[x],
        decreases word@.len() - k,
    {
        if s[from + k] != word[k] {
            assert(s@.subrange(from as int, to as int)[k as int] != w@[k as int]);
            return false;
        }
        k = k + 1;
    }
    assert(s@.subrange(from as int, to as int) =~= w@);
    true
}

/// A packet entry as the grammar reads it: the type name and the report name
/// if one is given.
pub type EntryModel = (Seq<char>, Option<Seq<char>>);

/// A direction block: its direction and its entries.
pub type BlockModel = (Direction, Seq<EntryModel>);

/// A state group: the state's name, whether the networking layer handles it,
/// and its direction blocks in order.
pub type GroupModel = (Seq<char>, bool, Seq<BlockModel>);

/// Why the text is not a packet list.
#[derive(Debug, Clone, Copy, PartialEq, Eq)]
pub enum DeclarationError {
    /// The token at this character index is not one the grammar allows
    /// there (or the text ends early, with the index at its end).
    Unexpected(usize),
    /// A state is flagged with another word than `networking`, at this index.
    NotNetworking(usize),
    /// A direction is another word than `CB` or `SB`, at this index.
    UnknownDirection(usize),
}

/// The directions of one state group.
#[derive(Debug)]
pub struct DirectionBlock {
    pub direction: Direction,
    pub entries: Vec<PacketEntry>,
}

/// One state of the packet list.
#[derive(Debug)]
pub struct StateGroup {
    pub state: String,
    pub is_networking_side: bool,
    pub directions: Vec<DirectionBlock>,
}

pub open spec fn entry_model(e: PacketEntry) -> EntryModel {
    (
        e.ident@,
        match e.internal_name {
            Some(n) => Some(n@),
            None => None,
        },
    )
}

pub open spec fn entries_model(v: Seq<PacketEntry>) -> Seq<EntryModel> {
    v.map_values(|e: PacketEntry| entry_model(e))
}

pub open spec fn block_model(b: DirectionBlock) -> BlockModel {
    (b.direction, entries_model(b.entries@))
}

pub open spec fn blocks_model(v: Seq<DirectionBlock>) -> Seq<BlockModel> {
    v.map_values(|b: DirectionBlock| block_model(b))
}

pub open spec fn group_model(g: StateGroup) -> GroupModel {
    (g.state@, g.is_networking_side, blocks_model(g.directions@))
}

pub open spec fn groups_model(v: Seq<StateGroup>) -> Seq<GroupModel> {
    v.map_values(|g: StateGroup| group_model(g))
}

/// The error for an unexpected token at the next token from `i`.
pub open spec fn unexpected(s: Seq<char>, i: int) -> DeclarationError {
    DeclarationError::Unexpected(skip_space(s, i) as usize)
}

/// An entry that is the next token from `i`, and the index after it.
pub open spec fn entry_at(s: Seq<char>, i: int) -> Result<(EntryModel, int), DeclarationError> {
    match ident_at(s, i) {
        None => Err(unexpected(s, i)),
        Some((name, j)) => match punct_at(s, j, '=') {
            None => Ok(((name, None), j)),
            Some(k) => match literal_at(s, k) {
                Some((text, e)) => Ok(((name, Some(text)), e)),
                None => Err(unexpected(s, k)),
            },
        },
    }
}

pub proof fn lemma_entry_advances(s: Seq<char>, i: int)
    requires
        0 <= i <= s.len(),
    ensures
        entry_at(s, i) matches Ok((_, j)) ==> i < j <= s.len(),
{
    lemma_tokens_advance(s, i, '=');
    if let Some((_, j)) = ident_at(s, i) {
        lemma_tokens_advance(s, j, '=');
        if let Some(k) = punct_at(s, j, '=') {
            lemma_tokens_advance(s, k, '=');
        }
    }
}

/// The entries of a block from `i`, just after its opening brace, to its
/// closing brace, and the index after that brace.
pub open spec fn entries_from(s: Seq<char>, i: int) -> Result<(Seq<EntryModel>, int), DeclarationError>
    decreases s.len() - i,
{
    if !(0 <= i <= s.len()) {
        Err(unexpected(s, i))
    } else {
        match punct_at(s, i, '}') {
            Some(k) => Ok((Seq::empty(), k)),
            None => match entry_at(s, i) {
                Err(e) => Err(e),
                Ok((entry, j)) => match punct_at(s, j, ',') {
                    Some(k) => {
                        proof {
                            lemma_entry_advances(s, i);
                            lemma_tokens_advance(s, j, ',');
                        }
                        match entries_from(s, k) {
                            Ok((rest, e)) => Ok((seq![entry] + rest, e)),
                            Err(x) => Err(x),
                        }
                    },
                    None => match punct_at(s, j, '}') {
                        Some(k) => Ok((seq![entry], k)),
                        None => Err(unexpected(s, j)),
                    },
                },
            },
        }
    }
}

pub proof fn lemma_entries_advance(s: Seq<char>, i: int)
    requires
        0 <= i <= s.len(),
    ensures
        entries_from(s, i) matches Ok((_, j)) ==> i < j <= s.len(),
    decreases s.len() - i,
{
    lemma_tokens_advance(s, i, '}');
    lemma_entry_advances(s, i);
    if let Ok((_, j)) = entry_at(s, i) {
        lemma_tokens_advance(s, j, ',');
        lemma_tokens_advance(s, j, '}');
        if let Some(k) = punct_at(s, j, ',') {
            lemma_entries_advance(s, k);
        }
    }
}

/// The direction that the word `w` names.
pub open spec fn direction_named(w: Seq<char>) -> Option<Direction> {
    if w == seq!['C', 'B'] {
        Some(Direction::Clientbound)
    } else if w == seq!['S', 'B'] {
        Some(Direction::Serverbound)
    } else {
        None
    }
}

/// The direction blocks of a group from `i`, just after its colon, to the
/// semicolon that ends the group, and the index after the semicolon.
pub open spec fn blocks_from(s: Seq<char>, i: int) -> Result<(Seq<BlockModel>, int), DeclarationError>
    decreases s.len() - i,
{
    if !(0 <= i <= s.len()) {
        Err(unexpected(s, i))
    } else {
        match ident_at(s, i) {
            None => match punct_at(s, i, ';') {
                Some(k) => Ok((Seq::empty(), k)),
                None => Err(unexpected(s, i)),
            },
            Some((word, j)) => match direction_named(word) {
                None => Err(DeclarationError::UnknownDirection(skip_space(s, i) as usize)),
                Some(d) => match punct_at(s, j, '{') {
                    None => Err(unexpected(s, j)),
                    Some(k) => match entries_from(s, k) {
                        Err(e) => Err(e),
                        Ok((entries, m)) => {
                            proof {
                                lemma_tokens_advance(s, i, '{');
                                lemma_tokens_advance(s, j, '{');
                                lemma_entries_advance(s, k);
                            }
                            match blocks_from(s, m) {
                                Ok((rest, e)) => Ok((seq![(d, entries)] + rest, e)),
                                Err(x) => Err(x),
                            }
                        },
                    },
                },
            },
        }
    }
}

pub proof fn lemma_blocks_advance(s: Seq<char>, i: int)
    requires
        0 <= i <= s.len(),
    ensures
        blocks_from(s, i) matches Ok((_, j)) ==> i < j <= s.len(),
    decreases s.len() - i,
{
    lemma_tokens_advance(s, i, ';');
    if let Some((word, j)) = ident_at(s, i) {
        lemma_tokens_advance(s, j, '{');
        if let Some(k) = punct_at(s, j, '{') {
            lemma_entries_advance(s, k);
            if let Ok((_, m)) = entries_from(s, k) {
                lemma_blocks_advance(s, m);
            }
        }
    }
}

/// The word that flags a state as handled by the networking layer.
pub open spec fn networking_word() -> Seq<char> {
    seq!['n', 'e', 't', 'w', 'o', 'r', 'k', 'i', 'n', 'g']
}

/// The optional `(networking)` flag from `i`: whether it is there, and the
/// index after it.
pub open spec fn flag_at(s: Seq<char>, i: int) -> Result<(bool, int), DeclarationError> {
    match punct_at(s, i, '(') {
        None => Ok((false, i)),
        Some(k) => match ident_at(s, k) {
            None => Err(unexpected(s, k)),
            Some((word, m)) => if word == networking_word() {
                match punct_at(s, m, ')') {
                    Some(n) => Ok((true, n)),
                    None => Err(unexpected(s, m)),
                }
            } else {
                Err(DeclarationError::NotNetworking(skip_space(s, k) as usize))
            },
        },
    }
}

/// The state group that starts at the next token from `i`, and the index
/// after it.
pub open spec fn group_at(s: Seq<char>, i: int) -> Result<(GroupModel, int), DeclarationError> {
    match ident_at(s, i) {
        None => Err(unexpected(s, i)),
        Some((name, j)) => match flag_at(s, j) {
            Err(e) => Err(e),
            Ok((networking, k)) => match punct_at(s, k, ':') {
                None => Err(unexpected(s, k)),
                Some(m) => match blocks_from(s, m) {
                    Err(e) => Err(e),
                    Ok((blocks, e)) => Ok(((name, networking, blocks), e)),
                },
            },
        },
    }
}

pub proof fn lemma_group_advances(s: Seq<char>, i: int)
    requires
        0 <= i <= s.len(),
    ensures
        group_at(s, i) matches Ok((_, j)) ==> i < j <= s.len(),
{
    lemma_tokens_advance(s, i, ':');
    if let Some((_, j)) = ident_at(s, i) {
        lemma_tokens_advance(s, j, '(');
        if let Some(k) = punct_at(s, j, '(') {
            lemma_tokens_advance(s, k, ')');
            if let Some((_, m)) = ident_at(s, k) {
                lemma_tokens_advance(s, m, ')');
            }
        }
        if let Ok((_, k)) = flag_at(s, j) {
            lemma_tokens_advance(s, k, ':');
            if let Some(m) = punct_at(s, k, ':') {
                lemma_blocks_advance(s, m);
            }
        }
    }
}

/// The state groups from `i` to the end of the text.
pub open spec fn groups_from(s: Seq<char>, i: int) -> Result<Seq<GroupModel>, DeclarationError>
    decreases s.len() - i,
{
    if !(0 <= i <= s.len()) {
        Err(unexpected(s, i))
    } else if skip_space(s, i) >= s.len() {
        Ok(Seq::empty())
    } else {
        match group_at(s, i) {
            Err(e) => Err(e),
            Ok((g, j)) => {
                proof {
                    lemma_group_advances(s, i);
                }
                match groups_from(s, j) {
                    Ok(rest) => Ok(seq![g] + rest),
                    Err(e) => Err(e),
                }
            },
        }
    }
}

/// The packet list that the text `s` declares, or why it is none.
pub open spec fn parse_list(s: Seq<char>) -> Result<Seq<GroupModel>, DeclarationError> {
    groups_from(s, 0)
}

fn entry_at_exec(s: &Vec<char>, i: usize) -> (r: Result<(PacketEntry, usize), DeclarationError>)
    requires
        i <= s@.len(),
    ensures
        match entry_at(s@, i as int) {
            Ok((m, j)) => r matches Ok((e, j2)) && entry_model(e) == m && j2 == j,
            Err(x) => r == Err::<(PacketEntry, usize), DeclarationError>(x),
        },
{
    match ident_at_exec(s, i) {
        None => Err(DeclarationError::Unexpected(skip_space_exec(s, i))),
        Some((b, j)) => {
            let ident = text_between(s, b, j);
            match punct_at_exec(s, j, '=') {
                None => Ok((PacketEntry { ident, internal_name: None }, j)),
                Some(k) => match literal_at_exec(s, k) {
                    Some((text, e)) => Ok((PacketEntry { ident, internal_name: Some(text) }, e)),
                    None => Err(DeclarationError::Unexpected(skip_space_exec(s, k))),
                },
            }
        },
    }
}

fn entries_from_exec(s: &Vec<char>, i: usize) -> (r: Result<(Vec<PacketEntry>, usize), DeclarationError>)
    requires
        i <= s@.len(),
    ensures
        match entries_from(s@, i as int) {
            Ok((m, j)) => r matches Ok((v, j2)) && entries_model(v@) == m && j2 == j,
            Err(x) => r == Err::<(Vec<PacketEntry>, usize), DeclarationError>(x),
        },
    decreases s@.len() - i,
{
    if let Some(k) = punct_at_exec(s, i, '}') {
        assert(entries_model(Seq::<PacketEntry>::empty()) =~= Seq::<EntryModel>::empty());
        return Ok((Vec::new(), k));
    }
    match entry_at_exec(s, i) {
        Err(e) => Err(e),
        Ok((entry, j)) => {
            proof {
                lemma_entry_advances(s@, i as int);
            }
            match punct_at_exec(s, j, ',') {
                Some(k) => {
                    proof {
                        lemma_tokens_advance(s@, j as int, ',');
                    }
                    match entries_from_exec(s, k) {
                        Ok((rest, e)) => {
                            let ghost tail = rest@;
                            let ghost first = entry;
                            let mut all = rest;
                            all.insert(0, entry);
                            assert(entries_model(all@) =~= seq![entry_model(first)] + entries_model(tail));
                            Ok((all, e))
                        },
                        Err(x) => Err(x),
                    }
                },
                None => match punct_at_exec(s, j, '}') {
                    Some(k) => {
                        let ghost first = entry;
                        let mut all: Vec<PacketEntry> = Vec::new();
                        all.push(entry);
                        assert(entries_model(all@) =~= seq![entry_model(first)]);
                        Ok((all, k))
                    },
                    None => Err(DeclarationError::Unexpected(skip_space_exec(s, j))),
                },
            }
        },
    }
}

fn direction_named_exec(s: &Vec<char>, from: usize, to: usize) -> (r: Option<Direction>)
    requires
        from <= to <= s@.len(),
    ensures
        r == direction_named(s@.subrange(from as int, to as int)),
{
    proof {
        reveal_strlit("CB");
        reveal_strlit("SB");
        assert("CB"@ == seq!['C', 'B']);
        assert("SB"@ == seq!['S', 'B']);
    }
    if is_word(s, from, to, "CB") {
        Some(Direction::Clientbound)
    } else if is_word(s, from, to, "SB") {
        Some(Direction::Serverbound)
    } else {
        None
    }
}

fn blocks_from_exec(s: &Vec<char>, i: usize) -> (r: Result<(Vec<DirectionBlock>, usize), DeclarationError>)
    requires
        i <= s@.len(),
    ensures
        match blocks_from(s@, i as int) {
            Ok((m, j)) => r matches Ok((v, j2)) && blocks_model(v@) == m && j2 == j,
            Err(x) => r == Err::<(Vec<DirectionBlock>, usize), DeclarationError>(x),
        },
    decreases s@.len() - i,
{
    match ident_at_exec(s, i) {
        None => match punct_at_exec(s, i, ';') {
            Some(k) => {
                assert(blocks_model(Seq::<DirectionBlock>::empty()) =~= Seq::<BlockModel>::empty());
                Ok((Vec::new(), k))
            },
            None => Err(DeclarationError::Unexpected(skip_space_exec(s, i))),
        },
        Some((b, j)) => match direction_named_exec(s, b, j) {
            None => Err(DeclarationError::UnknownDirection(skip_space_exec(s, i))),
            Some(direction) => match punct_at_exec(s, j, '{') {
                None => Err(DeclarationError::Unexpected(skip_space_exec(s, j))),
                Some(k) => match entries_from_exec(s, k) {
                    Err(e) => Err(e),
                    Ok((entries, m)) => {
                        proof {
                            lemma_tokens_advance(s@, i as int, '{');
                            lemma_tokens_advance(s@, j as int, '{');
                            lemma_entries_advance(s@, k as int);
                        }
                        match blocks_from_exec(s, m) {
                            Ok((rest, e)) => {
                                let block = DirectionBlock { direction, entries };
                                let ghost tail = rest@;
                                let ghost first = block;
                                let mut all = rest;
                                all.insert(0, block);
                                assert(blocks_model(all@) =~= seq![block_model(first)] + blocks_model(tail));
                                Ok((all, e))
                            },
                            Err(x) => Err(x),
                        }
                    },
                },
            },
        },
    }
}

fn flag_at_exec(s: &Vec<char>, i: usize) -> (r: Result<(bool, usize), DeclarationError>)
    requires
        i <= s@.len(),
    ensures
        match flag_at(s@, i as int) {
            Ok((f, j)) => r matches Ok((f2, j2)) && f2 == f && j2 == j && j <= s@.len(),
            Err(x) => r == Err::<(bool, usize), DeclarationError>(x),
        },
{
    match punct_at_exec(s, i, '(') {
        None => Ok((false, i)),
        Some(k) => match ident_at_exec(s, k) {
            None => Err(DeclarationError::Unexpected(skip_space_exec(s, k))),
            Some((b, m)) => {
                proof {
                    reveal_strlit("networking");
                    assert("networking"@ == networking_word());
                }
                if is_word(s, b, m, "networking") {
                    match punct_at_exec(s, m, ')') {
                        Some(n) => Ok((true, n)),
                        None => Err(DeclarationError::Unexpected(skip_space_exec(s, m))),
                    }
                } else {
                    Err(DeclarationError::NotNetworking(skip_space_exec(s, k)))
                }
            },
        },
    }
}

fn group_at_exec(s: &Vec<char>, i: usize) -> (r: Result<(StateGroup, usize), DeclarationError>)
    requires
        i <= s@.len(),
    ensures
        match group_at(s@, i as int) {
            Ok((m, j)) => r matches Ok((g, j2)) && group_model(g) == m && j2 == j,
            Err(x) => r == Err::<(StateGroup, usize), DeclarationError>(x),
        },
{
    match ident_at_exec(s, i) {
        None => Err(DeclarationError::Unexpected(skip_space_exec(s, i))),
        Some((b, j)) => match flag_at_exec(s, j) {
            Err(e) => Err(e),
            Ok((networking, k)) => match punct_at_exec(s, k, ':') {
                None => Err(DeclarationError::Unexpected(skip_space_exec(s, k))),
                Some(m) => match blocks_from_exec(s, m) {
                    Err(e) => Err(e),
                    Ok((directions, e)) => Ok(
                        (StateGroup { state: text_between(s, b, j), is_networking_side: networking, directions }, e),
                    ),
                },
            },
        },
    }
}

fn groups_from_exec(s: &Vec<char>, i: usize) -> (r: Result<Vec<StateGroup>, DeclarationError>)
    requires
        i <= s@.len(),
    ensures
        match groups_from(s@, i as int) {
            Ok(m) => r matches Ok(v) && groups_model(v@) == m,
            Err(x) => r == Err::<Vec<StateGroup>, DeclarationError>(x),
        },
    decreases s@.len() - i,
{
    if skip_space_exec(s, i) >= s.len() {
        assert(groups_model(Seq::<StateGroup>::empty()) =~= Seq::<GroupModel>::empty());
        return Ok(Vec::new());
    }
    match group_at_exec(s, i) {
        Err(e) => Err(e),
        Ok((group, j)) => {
            proof {
                lemma_group_advances(s@, i as int);
            }
            match groups_from_exec(s, j) {
                Ok(rest) => {
                    let ghost tail = rest@;
                    let ghost first = group;
                    let mut all = rest;
                    all.insert(0, group);
                    assert(groups_model(all@) =~= seq![group_model(first)] + groups_model(tail));
                    Ok(all)
                },
                Err(e) => Err(e),
            }
        },
    }
}

/// Reads a packet list: its state groups in order, each with its direction
/// blocks in order, or the first place where the text leaves the grammar.
pub fn parse_packet_list(input: &str) -> (r: Result<Vec<StateGroup>, DeclarationError>)
    ensures
        match parse_list(input@) {
            Ok(m) => r matches Ok(v) && groups_model(v@) == m,
            Err(x) => r == Err::<Vec<StateGroup>, DeclarationError>(x),
        },
{
    let chars = chars_of(input);
    groups_from_exec(&chars, 0)
}

/// A declaration as a model: state, networking flag, direction and entry.
pub type DeclarationModel = (Seq<char>, bool, Direction, EntryModel);

pub open spec fn declaration_model(d: PacketDeclaration) -> DeclarationModel {
    (d.state@, d.is_networking_side, d.direction, entry_model(d.entry))
}

pub open spec fn declarations_model(v: Seq<PacketDeclaration>) -> Seq<DeclarationModel> {
    v.map_values(|d: PacketDeclaration| declaration_model(d))
}

/// Whether block `k` of `bs` is the last one of its direction; an earlier
/// block of the same direction is replaced by a later one.
pub open spec fn block_kept(bs: Seq<BlockModel>, k: int) -> bool {
    forall|l: int| k < l < bs.len() ==> #[trigger] bs[l].0 != bs[k].0
}

/// Whether group `k` of `gs` is the last one of its state; an earlier group
/// of the same state is replaced by a later one.
pub open spec fn group_kept(gs: Seq<GroupModel>, k: int) -> bool {
    forall|l: int| k < l < gs.len() ==> #[trigger] gs[l].0 != gs[k].0
}

/// The declarations of the entries `es` of one block.
pub open spec fn entry_declarations(state: Seq<char>, networking: bool, direction: Direction, es: Seq<EntryModel>) -> Seq<DeclarationModel> {
    es.map_values(|e: EntryModel| (state, networking, direction, e))
}

/// The declarations of the kept blocks among the first `n` of `bs`.
pub open spec fn block_declarations(state: Seq<char>, networking: bool, bs: Seq<BlockModel>, n: int) -> Seq<DeclarationModel>
    decreases n,
{
    if n <= 0 {
        Seq::empty()
    } else {
        block_declarations(state, networking, bs, n - 1) + if block_kept(bs, n - 1) {
            entry_declarations(state, networking, bs[n - 1].0, bs[n - 1].1)
        } else {
            Seq::empty()
        }
    }
}

/// The declarations of the kept groups among the first `n` of `gs`.
pub open spec fn group_declarations(gs: Seq<GroupModel>, n: int) -> Seq<DeclarationModel>
    decreases n,
{
    if n <= 0 {
        Seq::empty()
    } else {
        group_declarations(gs, n - 1) + if group_kept(gs, n - 1) {
            block_declarations(gs[n - 1].0, gs[n - 1].1, gs[n - 1].2, gs[n - 1].2.len() as int)
        } else {
            Seq::empty()
        }
    }
}

/// The declarations of a packet list: every entry of every kept block of
/// every kept group, in order.
pub open spec fn declared(gs: Seq<GroupModel>) -> Seq<DeclarationModel> {
    group_declarations(gs, gs.len() as int)
}

fn group_is_last(groups: &Vec<StateGroup>, k: usize) -> (b: bool)
    requires
        k < groups.len(),
    ensures
        b == group_kept(groups_model(groups@), k as int),
{
    let ghost gs = groups_model(groups@);
    let mut l = k + 1;
    while l < groups.len()
        invariant
            k < l <= groups@.len(),
            gs == groups_model(groups@),
            forall|x: int| k < x < l ==> #[trigger] gs[x].0 != gs[k as int].0,
        decreases groups.len() - l,
    {
        if groups[l].state == groups[k].state {
            assert(gs[l as int].0 == gs[k as int].0);
            return false;
        }
        l = l + 1;
    }
    true
}

fn block_is_last(blocks: &Vec<DirectionBlock>, k: usize) -> (b: bool)
    requires
        k < blocks.len(),
    ensures
        b == block_kept(blocks_model(blocks@), k as int),
{
    let ghost bs = blocks_model(blocks@);
    let mut l = k + 1;
    while l < blocks.len()
        invariant
            k < l <= blocks@.len(),
            bs == blocks_model(blocks@),
            forall|x: int| k < x < l ==> #[trigger] bs[x].0 != bs[k as int].0,
        decreases blocks.len() - l,
    {
        if blocks[l].direction == blocks[k].direction {
            assert(bs[l as int].0 == bs[k as int].0);
            return false;
        }
        l = l + 1;
    }
    true
}

fn copy_entry(e: &PacketEntry) -> (r: PacketEntry)
    ensures
        entry_model(r) == entry_model(*e),
{
    PacketEntry {
        ident: e.ident.clone(),
        internal_name: match &e.internal_name {
            Some(n) => Some(n.clone()),
            None => None,
        },
    }
}

fn push_block(out: &mut Vec<PacketDeclaration>, state: &String, networking: bool, block: &DirectionBlock)
    ensures
        declarations_model(final(out)@) == declarations_model(old(out)@) + entry_declarations(
            state@,
            networking,
            block.direction,
            entries_model(block.entries@),
        ),
{
    let ghost es = entries_model(block.entries@);
    let mut i: usize = 0;
    while i < block.entries.len()
        invariant
            i <= block.entries@.len(),
            es == entries_model(block.entries@),
            declarations_model(out@) == declarations_model(old(out)@) + entry_declarations(
                state@,
                networking,
                block.direction,
                es.take(i as int),
            ),
        decreases block.entries.len() - i,
    {
        let ghost before = out@;
        let d = PacketDeclaration {
            state: state.clone(),
            is_networking_side: networking,
            direction: block.direction,
            entry: copy_entry(&block.entries[i]),
        };
        out.push(d);
        assert(declarations_model(out@) =~= declarations_model(before).push(declaration_model(d)));
        assert(entry_declarations(state@, networking, block.direction, es.take(i + 1)) =~= entry_declarations(
            state@,
            networking,
            block.direction,
            es.take(i as int),
        ).push((state@, networking, block.direction, es[i as int])));
        i = i + 1;
    }
    assert(es.take(i as int) =~= es);
}

/// The declarations of a packet list: one for every entry, in order, where a
/// state that appears again replaces its earlier group and a direction that
/// appears again within a group replaces its earlier block.
pub fn declarations(groups: &Vec<StateGroup>) -> (r: Vec<PacketDeclaration>)
    ensures
        declarations_model(r@) == declared(groups_model(groups@)),
{
    let ghost gs = groups_model(groups@);
    let mut out: Vec<PacketDeclaration> = Vec::new();
    assert(declarations_model(out@) =~= Seq::<DeclarationModel>::empty());
    let mut g: usize = 0;
    while g < groups.len()
        invariant
            g <= groups@.len(),
            gs == groups_model(groups@),
            declarations_model(out@) == group_declarations(gs, g as int),
        decreases groups.len() - g,
    {
        let group = &groups[g];
        if group_is_last(groups, g) {
            let ghost bs = blocks_model(group.directions@);
            let ghost base = declarations_model(out@);
            let mut b: usize = 0;
            while b < group.directions.len()
                invariant
                    g < groups@.len(),
                    b <= group.directions@.len(),
                    *group == groups@[g as int],
                    bs == blocks_model(group.directions@),
                    declarations_model(out@) == base + block_declarations(group.state@, group.is_networking_side, bs, b as int),
                decreases group.directions.len() - b,
            {
                let ghost before = declarations_model(out@);
                if block_is_last(&group.directions, b) {
                    push_block(&mut out, &group.state, group.is_networking_side, &group.directions[b]);
                }
                assert(declarations_model(out@) =~= base + block_declarations(
                    group.state@,
                    group.is_networking_side,
                    bs,
                    b + 1,
                ));
                b = b + 1;
            }
            assert(gs[g as int] == group_model(*group));
        }
        assert(declarations_model(out@) =~= group_declarations(gs, g + 1));
        g = g + 1;
    }
    out
}

/// The report name (without namespace) and id of a declared packet, or why
/// there is none: the name given, or else the snake case form of the type
/// name, looked up with the `minecraft` namespace added when it has none.
pub open spec fn resolve_model(d: DeclarationModel, report: Seq<(String, Sides)>) -> Result<(Seq<char>, u8), (ResolveFailure, Seq<char>)> {
    let ident = d.3.0;
    let name = match d.3.1 {
        Some(n) => Some(n),
        None => camel_to_snake(ident),
    };
    match name {
        None => Err((ResolveFailure::InvalidName, ident)),
        Some(n) => match find_id(report, qualified(n), d.2) {
            Some(id) => Ok((n, id)),
            None => Err((ResolveFailure::UnknownPacket, n)),
        },
    }
}

/// Why a packet list could not be turned into resolved packets.
#[derive(Debug)]
pub enum PacketListError {
    /// The text is not a packet list.
    Syntax(DeclarationError),
    /// A declared packet has no valid name or is not in the report.
    Resolve(ResolveError),
}

/// Whether `r` is what resolving the declarations `ds` against `report`
/// gives: every packet resolved, in order, or the error of the first that is
/// not.
pub open spec fn resolved_as(ds: Seq<DeclarationModel>, report: Seq<(String, Sides)>, r: Result<Vec<PacketWithMetadata>, PacketListError>) -> bool {
    match r {
        Ok(all) => {
            &&& all@.len() == ds.len()
            &&& forall|k: int| 0 <= k < ds.len() ==> {
                let d = #[trigger] ds[k];
                let m = all@[k];
                &&& resolve_model(d, report) == Ok::<(Seq<char>, u8), (ResolveFailure, Seq<char>)>((m.internal_name@, m.id))
                &&& m.ident@ == d.3.0
                &&& m.state@ == d.0
                &&& m.is_networking_layer == d.1
                &&& m.direction == d.2
            }
        },
        Err(PacketListError::Resolve(e)) => exists|k: int|
            0 <= k < ds.len() && (forall|j: int| 0 <= j < k ==> #[trigger] resolve_model(ds[j], report) is Ok)
                && #[trigger] resolve_model(ds[k], report) == Err::<(Seq<char>, u8), (ResolveFailure, Seq<char>)>((e.kind, e.name@)),
        Err(PacketListError::Syntax(_)) => false,
    }
}

/// Reads a packet list and resolves every packet it declares against the
/// packet report: the packets with their ids, or the first error.
pub fn resolve_packet_list(input: &str, report: &Vec<(String, Sides)>) -> (r: Result<Vec<PacketWithMetadata>, PacketListError>)
    ensures
        match parse_list(input@) {
            Err(e) => r matches Err(PacketListError::Syntax(e2)) && e2 == e,
            Ok(gs) => resolved_as(declared(gs), report@, r),
        },
{
    let groups = match parse_packet_list(input) {
        Ok(groups) => groups,
        Err(e) => return Err(PacketListError::Syntax(e)),
    };
    let decls = declarations(&groups);
    let ghost ds = declarations_model(decls@);
    assert forall|k: int| 0 <= k < decls@.len() implies resolve_one(#[trigger] decls@[k], report@) == resolve_model(ds[k], report@) by {
        assert(ds[k] == declaration_model(decls@[k]));
    }
    match resolve_packets(&decls, report) {
        Ok(all) => {
            assert forall|k: int| 0 <= k < ds.len() implies ({
                let d = #[trigger] ds[k];
                let m = all@[k];
                &&& resolve_model(d, report@) == Ok::<(Seq<char>, u8), (ResolveFailure, Seq<char>)>((m.internal_name@, m.id))
                &&& m.ident@ == d.3.0
                &&& m.state@ == d.0
                &&& m.is_networking_layer == d.1
                &&& m.direction == d.2
            }) by {
                assert(ds[k] == declaration_model(decls@[k]));
                assert(resolve_one(decls@[k], report@) == resolve_model(ds[k], report@));
            }
            Ok(all)
        },
        Err(e) => {
            let ghost k = choose|k: int|
                0 <= k < decls@.len() && (forall|j: int| 0 <= j < k ==> #[trigger] resolve_one(decls@[j], report@) is Ok)
                    && #[trigger] resolve_one(decls@[k], report@) == Err::<(Seq<char>, u8), (ResolveFailure, Seq<char>)>((e.kind, e.name@));
            assert(resolve_one(decls@[k], report@) == resolve_model(ds[k], report@));
            assert forall|j: int| 0 <= j < k implies #[trigger] resolve_model(ds[j], report@) is Ok by {
                assert(resolve_one(decls@[j], report@) == resolve_model(ds[j], report@));
                assert(resolve_one(decls@[j], report@) is Ok);
            }
            Err(PacketListError::Resolve(e))
        },
    }
}

} // verus!
