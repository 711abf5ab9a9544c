//! Target emitters: four pure, symmetric renderers that turn a validated
//! token list into one target-platform source text each, plus the artifact
//! builder that bundles them and names their destination paths.
//!
//! Every emitter walks the tokens in list order — the path-sorted order the
//! ingest stage fixed — derives a platform identifier from the token path,
//! renders the token value as a literal of the target syntax, and wraps the
//! declarations in one fixed enclosing construct.

use vstd::prelude::*;

use crate::ingest::{dotted, dotted_path, tokens_view, RawValue, Token, TokenModel, ValueModel};
use crate::ingest::{
    array_model_upto, lemma_array_model_upto, lemma_object_model, object_model, value_view,
};

verus! {

/// Relies on std's `String::push`: it appends exactly the given character to
/// the end of the string.
pub assume_specification[ String::push ](s: &mut String, c: char)
    ensures
        final(s)@ == old(s)@.push(c),
;

/// The lower-case form of an ASCII letter; any other character is unchanged.
pub open spec fn lower_char(c: char) -> char {
    if c == 'Z' {
        'z'
    } else if c == 'A' {
        'a'
    } else if c == 'B' {
        'b'
    } else if c == 'C' {
        'c'
    } else if c == 'D' {
        'd'
    } else if c == 'E' {
        'e'
    } else if c == 'F' {
        'f'
    } else if c == 'G' {
        'g'
    } else if c == 'H' {
        'h'
    } else if c == 'I' {
        'i'
    } else if c == 'J' {
        'j'
    } else if c == 'K' {
        'k'
    } else if c == 'L' {
        'l'
    } else if c == 'M' {
        'm'
    } else if c == 'N' {
        'n'
    } else if c == 'O' {
        'o'
    } else if c == 'P' {
        'p'
    } else if c == 'Q' {
        'q'
    } else if c == 'R' {
        'r'
    } else if c == 'S' {
        's'
    } else if c == 'T' {
        't'
    } else if c == 'U' {
        'u'
    } else if c == 'V' {
        'v'
    } else if c == 'W' {
        'w'
    } else if c == 'X' {
        'x'
    } else if c == 'Y' {
        'y'
    } else if c == 'Z' {
        'z'
    } else {
        c
    }
}

/// The upper-case form of an ASCII letter; any other character is unchanged.
pub open spec fn upper_char(c: char) -> char {
    if c == 'z' {
        'Z'
    } else if c == 'a' {
        'A'
    } else if c == 'b' {
        'B'
    } else if c == 'c' {
        'C'
    } else if c == 'd' {
        'D'
    } else if c == 'e' {
        'E'
    } else if c == 'f' {
        'F'
    } else if c == 'g' {
        'G'
    } else if c == 'h' {
        'H'
    } else if c == 'i' {
        'I'
    } else if c == 'j' {
        'J'
    } else if c == 'k' {
        'K'
    } else if c == 'l' {
        'L'
    } else if c == 'm' {
        'M'
    } else if c == 'n' {
        'N'
    } else if c == 'o' {
        'O'
    } else if c == 'p' {
        'P'
    } else if c == 'q' {
        'Q'
    } else if c == 'r' {
        'R'
    } else if c == 's' {
        'S'
    } else if c == 't' {
        'T'
    } else if c == 'u' {
        'U'
    } else if c == 'v' {
        'V'
    } else if c == 'w' {
        'W'
    } else if c == 'x' {
        'X'
    } else if c == 'y' {
        'Y'
    } else if c == 'z' {
        'Z'
    } else {
        c
    }
}

/// Lower-cases each ASCII letter of a text.
pub open spec fn lower_text(s: Seq<char>) -> Seq<char> {
    Seq::new(s.len(), |i: int| lower_char(s[i]))
}

/// A segment with its first character upper-cased.
pub open spec fn pascal_seg(s: Seq<char>) -> Seq<char> {
    if s.len() == 0 {
        s
    } else {
        seq![upper_char(s[0])] + s.subrange(1, s.len() as int)
    }
}

/// A segment with its first character lower-cased.
pub open spec fn lower_first(s: Seq<char>) -> Seq<char> {
    if s.len() == 0 {
        s
    } else {
        seq![lower_char(s[0])] + s.subrange(1, s.len() as int)
    }
}

/// The kebab-case identifier of the first `i` path segments: each segment
/// lower-cased, segments joined with `-`.
pub open spec fn kebab_upto(path: Seq<Seq<char>>, i: int) -> Seq<char>
    decreases i,
{
    if i <= 0 {
        Seq::empty()
    } else if i == 1 {
        lower_text(path[0])
    } else {
        kebab_upto(path, i - 1) + "-"@ + lower_text(path[i - 1])
    }
}

/// The kebab-case identifier of a whole path.
pub open spec fn kebab_ident(path: Seq<Seq<char>>) -> Seq<char> {
    kebab_upto(path, path.len() as int)
}

/// The PascalCase identifier of the first `i` path segments: each segment's
/// first character upper-cased, segments concatenated.
pub open spec fn pascal_upto(path: Seq<Seq<char>>, i: int) -> Seq<char>
    decreases i,
{
    if i <= 0 {
        Seq::empty()
    } else {
        pascal_upto(path, i - 1) + pascal_seg(path[i - 1])
    }
}

/// The PascalCase identifier of a whole path.
pub open spec fn pascal_ident(path: Seq<Seq<char>>) -> Seq<char> {
    pascal_upto(path, path.len() as int)
}

/// The camelCase identifier of the first `i` path segments: the first segment
/// starts lower-cased, each later segment starts upper-cased.
pub open spec fn camel_upto(path: Seq<Seq<char>>, i: int) -> Seq<char>
    decreases i,
{
    if i <= 0 {
        Seq::empty()
    } else if i == 1 {
        lower_first(path[0])
    } else {
        camel_upto(path, i - 1) + pascal_seg(path[i - 1])
    }
}

/// The camelCase identifier of a whole path.
pub open spec fn camel_ident(path: Seq<Seq<char>>) -> Seq<char> {
    camel_upto(path, path.len() as int)
}

/// The lower-case hexadecimal digit of `d`.
pub open spec fn hex_digit(d: int) -> char {
    if d == 0 {
        '0'
    } else if d == 1 {
        '1'
    } else if d == 2 {
        '2'
    } else if d == 3 {
        '3'
    } else if d == 4 {
        '4'
    } else if d == 5 {
        '5'
    } else if d == 6 {
        '6'
    } else if d == 7 {
        '7'
    } else if d == 8 {
        '8'
    } else if d == 9 {
        '9'
    } else if d == 10 {
        'a'
    } else if d == 11 {
        'b'
    } else if d == 12 {
        'c'
    } else if d == 13 {
        'd'
    } else if d == 14 {
        'e'
    } else {
        'f'
    }
}

/// The escape of one character inside a double-quoted literal: JSON's named
/// escapes, `\u00..` for the other control characters, the character itself
/// otherwise.
pub open spec fn esc_char(c: char) -> Seq<char> {
    if c == '"' {
        "\\\""@
    } else if c == '\\' {
        "\\\\"@
    } else if c == '\n' {
        "\\n"@
    } else if c == '\r' {
        "\\r"@
    } else if c == '\t' {
        "\\t"@
    } else if (c as u32) < 32 {
        "\\u00"@.push(hex_digit((c as u32) as int / 16)).push(hex_digit((c as u32) as int % 16))
    } else {
        seq![c]
    }
}

/// The escapes of the first `i` characters of a text.
pub open spec fn esc_upto(s: Seq<char>, i: int) -> Seq<char>
    decreases i,
{
    if i <= 0 {
        Seq::empty()
    } else {
        esc_upto(s, i - 1) + esc_char(s[i - 1])
    }
}

/// A whole text escaped.
pub open spec fn escape_text(s: Seq<char>) -> Seq<char> {
    esc_upto(s, s.len() as int)
}

/// A text as a double-quoted, escaped literal.
pub open spec fn quoted(s: Seq<char>) -> Seq<char> {
    "\""@ + escape_text(s) + "\""@
}

/// A value rendered as JSON text: the literal syntax shared by the emitters.
pub open spec fn json_text(v: ValueModel) -> Seq<char>
    decreases v, 1int, 0int,
{
    match v {
        ValueModel::Null => "null"@,
        ValueModel::Bool(b) => if b {
            "true"@
        } else {
            "false"@
        },
        ValueModel::Number(s) => s,
        ValueModel::Text(s) => quoted(s),
        ValueModel::Array(items) => "["@ + json_items_upto(items, items.len() as int) + "]"@,
        ValueModel::Object(es) => "{"@ + json_entries_upto(es, es.len() as int) + "}"@,
    }
}

/// The first `i` array items as JSON, joined with `,`.
pub open spec fn json_items_upto(items: Seq<ValueModel>, i: int) -> Seq<char>
    decreases items, 0int, i,
{
    if i <= 0 || items.len() < i {
        Seq::empty()
    } else if i == 1 {
        json_text(items[0])
    } else {
        json_items_upto(items, i - 1) + ","@ + json_text(items[i - 1])
    }
}

/// The first `i` object entries as JSON `"key":value` pairs, joined with `,`.
pub open spec fn json_entries_upto(es: Seq<(Seq<char>, ValueModel)>, i: int) -> Seq<char>
    decreases es, 0int, i,
{
    if i <= 0 || es.len() < i {
        Seq::empty()
    } else if i == 1 {
        quoted(es[0].0) + ":"@ + json_text(es[0].1)
    } else {
        json_entries_upto(es, i - 1) + ","@ + quoted(es[i - 1].0) + ":"@ + json_text(es[i - 1].1)
    }
}

/// The stylesheet literal: text and numbers stand bare, as a custom property
/// value does; structured values fall back to JSON text.
pub open spec fn css_literal(v: ValueModel) -> Seq<char> {
    match v {
        ValueModel::Text(s) => s,
        _ => json_text(v),
    }
}

/// The host-language literal for the two class objects: text is quoted,
/// numbers and booleans stand bare, structured values become a quoted JSON
/// text.
pub open spec fn host_literal(v: ValueModel) -> Seq<char> {
    match v {
        ValueModel::Array(_) => quoted(json_text(v)),
        ValueModel::Object(_) => quoted(json_text(v)),
        _ => json_text(v),
    }
}

/// One stylesheet declaration line.
pub open spec fn css_decl(t: TokenModel) -> Seq<char> {
    "  --"@ + kebab_ident(t.path) + ": "@ + css_literal(t.value) + ";\n"@
}

/// One typed-module entry line: the dotted path, verbatim, as a quoted key.
pub open spec fn module_decl(t: TokenModel) -> Seq<char> {
    "  "@ + quoted(dotted(t.path)) + ": "@ + json_text(t.value) + ",\n"@
}

/// One class-object field line of the first host language.
pub open spec fn compose_decl(t: TokenModel) -> Seq<char> {
    "  val "@ + pascal_ident(t.path) + " = "@ + host_literal(t.value) + "\n"@
}

/// One class-object constant line of the second host language.
pub open spec fn dart_decl(t: TokenModel) -> Seq<char> {
    "  static const "@ + camel_ident(t.path) + " = "@ + host_literal(t.value) + ";\n"@
}

/// The declaration lines of the first `i` tokens for the stylesheet target.
pub open spec fn css_decls_upto(ts: Seq<TokenModel>, i: int) -> Seq<char>
    decreases i,
{
    if i <= 0 {
        Seq::empty()
    } else {
        css_decls_upto(ts, i - 1) + css_decl(ts[i - 1])
    }
}

/// The entry lines of the first `i` tokens for the typed-module target.
pub open spec fn module_decls_upto(ts: Seq<TokenModel>, i: int) -> Seq<char>
    decreases i,
{
    if i <= 0 {
        Seq::empty()
    } else {
        module_decls_upto(ts, i - 1) + module_decl(ts[i - 1])
    }
}

/// The field lines of the first `i` tokens for the first class object.
pub open spec fn compose_decls_upto(ts: Seq<TokenModel>, i: int) -> Seq<char>
    decreases i,
{
    if i <= 0 {
        Seq::empty()
    } else {
        compose_decls_upto(ts, i - 1) + compose_decl(ts[i - 1])
    }
}

/// The constant lines of the first `i` tokens for the second class object.
pub open spec fn dart_decls_upto(ts: Seq<TokenModel>, i: int) -> Seq<char>
    decreases i,
{
    if i <= 0 {
        Seq::empty()
    } else {
        dart_decls_upto(ts, i - 1) + dart_decl(ts[i - 1])
    }
}

/// The whole stylesheet artifact.
pub open spec fn css_text(ts: Seq<TokenModel>) -> Seq<char> {
    ":root {\n"@ + css_decls_upto(ts, ts.len() as int) + "}\n"@
}

/// The whole typed-module artifact.
pub open spec fn module_text(ts: Seq<TokenModel>) -> Seq<char> {
    "export const tokens = {\n"@ + module_decls_upto(ts, ts.len() as int) + "};\n"@
}

/// The whole first class-object artifact.
pub open spec fn compose_text(ts: Seq<TokenModel>) -> Seq<char> {
    "object Tokens {\n"@ + compose_decls_upto(ts, ts.len() as int) + "}\n"@
}

/// The whole second class-object artifact.
pub open spec fn dart_text(ts: Seq<TokenModel>) -> Seq<char> {
    "class Tokens {\n"@ + dart_decls_upto(ts, ts.len() as int) + "}\n"@
}

/// The lower-case form of an ASCII letter.
fn lower_char_exec(c: char) -> (r: char)
    ensures
        r == lower_char(c),
{
    if c == 'Z' {
        'z'
    } else if c == 'A' {
        'a'
    } else if c == 'B' {
        'b'
    } else if c == 'C' {
        'c'
    } else if c == 'D' {
        'd'
    } else if c == 'E' {
        'e'
    } else if c == 'F' {
        'f'
    } else if c == 'G' {
        'g'
    } else if c == 'H' {
        'h'
    } else if c == 'I' {
        'i'
    } else if c == 'J' {
        'j'
    } else if c == 'K' {
        'k'
    } else if c == 'L' {
        'l'
    } else if c == 'M' {
        'm'
    } else if c == 'N' {
        'n'
    } else if c == 'O' {
        'o'
    } else if c == 'P' {
        'p'
    } else if c == 'Q' {
        'q'
    } else if c == 'R' {
        'r'
    } else if c == 'S' {
        's'
    } else if c == 'T' {
        't'
    } else if c == 'U' {
        'u'
    } else if c == 'V' {
        'v'
    } else if c == 'W' {
        'w'
    } else if c == 'X' {
        'x'
    } else if c == 'Y' {
        'y'
    } else if c == 'Z' {
        'z'
    } else {
        c
    }
}

/// The upper-case form of an ASCII letter.
fn upper_char_exec(c: char) -> (r: char)
    ensures
        r == upper_char(c),
{
    if c == 'z' {
        'Z'
    } else if c == 'a' {
        'A'
    } else if c == 'b' {
        'B'
    } else if c == 'c' {
        'C'
    } else if c == 'd' {
        'D'
    } else if c == 'e' {
        'E'
    } else if c == 'f' {
        'F'
    } else if c == 'g' {
        'G'
    } else if c == 'h' {
        'H'
    } else if c == 'i' {
        'I'
    } else if c == 'j' {
        'J'
    } else if c == 'k' {
        'K'
    } else if c == 'l' {
        'L'
    } else if c == 'm' {
        'M'
    } else if c == 'n' {
        'N'
    } else if c == 'o' {
        'O'
    } else if c == 'p' {
        'P'
    } else if c == 'q' {
        'Q'
    } else if c == 'r' {
        'R'
    } else if c == 's' {
        'S'
    } else if c == 't' {
        'T'
    } else if c == 'u' {
        'U'
    } else if c == 'v' {
        'V'
    } else if c == 'w' {
        'W'
    } else if c == 'x' {
        'X'
    } else if c == 'y' {
        'Y'
    } else if c == 'z' {
        'Z'
    } else {
        c
    }
}

/// The lower-case hexadecimal digit of `d`.
fn hex_digit_exec(d: u32) -> (r: char)
    requires
        d < 16,
    ensures
        r == hex_digit(d as int),
{
    if d == 0 {
        '0'
    } else if d == 1 {
        '1'
    } else if d == 2 {
        '2'
    } else if d == 3 {
        '3'
    } else if d == 4 {
        '4'
    } else if d == 5 {
        '5'
    } else if d == 6 {
        '6'
    } else if d == 7 {
        '7'
    } else if d == 8 {
        '8'
    } else if d == 9 {
        '9'
    } else if d == 10 {
        'a'
    } else if d == 11 {
        'b'
    } else if d == 12 {
        'c'
    } else if d == 13 {
        'd'
    } else if d == 14 {
        'e'
    } else {
        'f'
    }
}

/// Appends the segment lower-cased.
#[verifier::loop_isolation(false)]
fn append_lower(out: &mut String, s: &String)
    ensures
        final(out)@ == old(out)@ + lower_text(s@),
{
    let n = s.as_str().unicode_len();
    let mut i: usize = 0;
    while i < n
        invariant
            i <= n,
            n == s@.len(),
            out@ == old(out)@ + lower_text(s@).subrange(0, i as int),
        decreases n - i,
    {
        let c = s.as_str().get_char(i);
        out.push(lower_char_exec(c));
        proof {
            assert(out@ =~= old(out)@ + lower_text(s@).subrange(0, i + 1));
        }
        i = i + 1;
    }
    proof {
        assert(lower_text(s@).subrange(0, n as int) =~= lower_text(s@));
    }
}

/// Appends the segment with its first character upper-cased.
#[verifier::loop_isolation(false)]
fn append_pascal(out: &mut String, s: &String)
    ensures
        final(out)@ == old(out)@ + pascal_seg(s@),
{
    let n = s.as_str().unicode_len();
    if n == 0 {
        proof {
            assert(out@ =~= old(out)@ + pascal_seg(s@));
        }
        return ;
    }
    let c = s.as_str().get_char(0);
    out.push(upper_char_exec(c));
    let rest = s.as_str().substring_char(1, n);
    out.append(rest);
    proof {
        assert(out@ =~= old(out)@ + pascal_seg(s@));
    }
}

/// Appends the segment with its first character lower-cased.
#[verifier::loop_isolation(false)]
fn append_lower_first(out: &mut String, s: &String)
    ensures
        final(out)@ == old(out)@ + lower_first(s@),
{
    let n = s.as_str().unicode_len();
    if n == 0 {
        proof {
            assert(out@ =~= old(out)@ + lower_first(s@));
        }
        return ;
    }
    let c = s.as_str().get_char(0);
    out.push(lower_char_exec(c));
    let rest = s.as_str().substring_char(1, n);
    out.append(rest);
    proof {
        assert(out@ =~= old(out)@ + lower_first(s@));
    }
}

/// Appends the kebab-case identifier of a path.
#[verifier::loop_isolation(false)]
fn append_kebab(out: &mut String, path: &Vec<String>)
    ensures
        final(out)@ == old(out)@ + kebab_ident(path.deep_view()),
{
    let ghost dp = path.deep_view();
    let mut i: usize = 0;
    while i < path.len()
        invariant
            i <= path.len(),
            out@ == old(out)@ + kebab_upto(dp, i as int),
        decreases path.len() - i,
    {
        if i > 0 {
            out.append("-");
        }
        append_lower(out, &path[i]);
        proof {
            assert(dp[i as int] == path@[i as int]@);
            assert(out@ =~= old(out)@ + kebab_upto(dp, i + 1));
        }
        i = i + 1;
    }
}

/// Appends the PascalCase identifier of a path.
#[verifier::loop_isolation(false)]
fn append_pascal_ident(out: &mut String, path: &Vec<String>)
    ensures
        final(out)@ == old(out)@ + pascal_ident(path.deep_view()),
{
    let ghost dp = path.deep_view();
    let mut i: usize = 0;
    while i < path.len()
        invariant
            i <= path.len(),
            out@ == old(out)@ + pascal_upto(dp, i as int),
        decreases path.len() - i,
    {
        append_pascal(out, &path[i]);
        proof {
            assert(dp[i as int] == path@[i as int]@);
            assert(out@ =~= old(out)@ + pascal_upto(dp, i + 1));
        }
        i = i + 1;
    }
}

/// Appends the camelCase identifier of a path.
#[verifier::loop_isolation(false)]
fn append_camel_ident(out: &mut String, path: &Vec<String>)
    ensures
        final(out)@ == old(out)@ + camel_ident(path.deep_view()),
{
    let ghost dp = path.deep_view();
    let mut i: usize = 0;
    while i < path.len()
        invariant
            i <= path.len(),
            out@ == old(out)@ + camel_upto(dp, i as int),
        decreases path.len() - i,
    {
        if i == 0 {
            append_lower_first(out, &path[i]);
        } else {
            append_pascal(out, &path[i]);
        }
        proof {
            assert(dp[i as int] == path@[i as int]@);
            assert(out@ =~= old(out)@ + camel_upto(dp, i + 1));
        }
        i = i + 1;
    }
}

/// Appends the escape of one character.
fn append_esc_char(out: &mut String, c: char)
    ensures
        final(out)@ == old(out)@ + esc_char(c),
{
    if c == '"' {
        out.append("\\\"");
    } else if c == '\\' {
        out.append("\\\\");
    } else if c == '\n' {
        out.append("\\n");
    } else if c == '\r' {
        out.append("\\r");
    } else if c == '\t' {
        out.append("\\t");
    } else {
        let code = c as u32;
        if code < 32 {
            out.append("\\u00");
            out.push(hex_digit_exec(code / 16));
            out.push(hex_digit_exec(code % 16));
            proof {
                assert(out@ =~= old(out)@ + esc_char(c));
            }
        } else {
            out.push(c);
            proof {
                assert(out@ =~= old(out)@ + esc_char(c));
            }
        }
    }
}

/// Appends a whole text escaped.
#[verifier::loop_isolation(false)]
fn append_escaped(out: &mut String, s: &String)
    ensures
        final(out)@ == old(out)@ + escape_text(s@),
{
    let n = s.as_str().unicode_len();
    let mut i: usize = 0;
    while i < n
        invariant
            i <= n,
            n == s@.len(),
            out@ == old(out)@ + esc_upto(s@, i as int),
        decreases n - i,
    {
        let c = s.as_str().get_char(i);
        append_esc_char(out, c);
        proof {
            assert(out@ =~= old(out)@ + esc_upto(s@, i + 1));
        }
        i = i + 1;
    }
}

/// Appends a text as a double-quoted, escaped literal.
fn append_quoted(out: &mut String, s: &String)
    ensures
        final(out)@ == old(out)@ + quoted(s@),
{
    out.append("\"");
    append_escaped(out, s);
    out.append("\"");
    proof {
        assert(out@ =~= old(out)@ + quoted(s@));
    }
}

/// Appends a value as JSON text.
#[verifier::loop_isolation(false)]
fn append_json(out: &mut String, v: &RawValue)
    ensures
        final(out)@ == old(out)@ + json_text(v@),
    decreases *v,
{
    match v {
        RawValue::Null => {
            out.append("null");
        },
        RawValue::Bool(b) => {
            if *b {
                out.append("true");
            } else {
                out.append("false");
            }
        },
        RawValue::Number(s) => {
            out.append(s.as_str());
        },
        RawValue::Text(s) => {
            append_quoted(out, s);
        },
        RawValue::Array(items) => {
            proof {
                lemma_array_model_upto(items@, items@.len() as int);
            }
            let ghost im = array_model_upto(items@, items@.len() as int);
            out.append("[");
            let mut i: usize = 0;
            while i < items.len()
                invariant
                    i <= items.len(),
                    out@ == old(out)@ + "["@ + json_items_upto(im, i as int),
                decreases items.len() - i,
            {
                if i > 0 {
                    out.append(",");
                }
                append_json(out, &items[i]);
                proof {
                    assert(im[i as int] == value_view(items@[i as int]));
                    assert(out@ =~= old(out)@ + "["@ + json_items_upto(im, i + 1));
                }
                i = i + 1;
            }
            out.append("]");
            proof {
                assert(out@ =~= old(out)@ + json_text(v@));
            }
        },
        RawValue::Object(es) => {
            proof {
                lemma_object_model(es@);
            }
            let ghost em = object_model(es@);
            out.append("{");
            let mut i: usize = 0;
            while i < es.len()
                invariant
                    i <= es.len(),
                    out@ == old(out)@ + "{"@ + json_entries_upto(em, i as int),
                decreases es.len() - i,
            {
                if i > 0 {
                    out.append(",");
                }
                append_quoted(out, &es[i].0);
                out.append(":");
                append_json(out, &es[i].1);
                proof {
                    assert(em[i as int] == (es@[i as int].0@, value_view(es@[i as int].1)));
                    assert(out@ =~= old(out)@ + "{"@ + json_entries_upto(em, i + 1));
                }
                i = i + 1;
            }
            out.append("}");
            proof {
                assert(out@ =~= old(out)@ + json_text(v@));
            }
        },
    }
}

/// Appends the stylesheet literal of a value.
fn append_css_literal(out: &mut String, v: &RawValue)
    ensures
        final(out)@ == old(out)@ + css_literal(v@),
{
    match v {
        RawValue::Text(s) => {
            out.append(s.as_str());
        },
        _ => {
            append_json(out, v);
        },
    }
}

/// Appends the host-language literal of a value.
fn append_host_literal(out: &mut String, v: &RawValue)
    ensures
        final(out)@ == old(out)@ + host_literal(v@),
{
    match v {
        RawValue::Array(_) => {
            let mut tmp = String::new();
            append_json(&mut tmp, v);
            append_quoted(out, &tmp);
        },
        RawValue::Object(_) => {
            let mut tmp = String::new();
            append_json(&mut tmp, v);
            append_quoted(out, &tmp);
        },
        _ => {
            append_json(out, v);
        },
    }
}


/// Renders the stylesheet artifact, as [`css_text`] describes.
#[verifier::loop_isolation(false)]
pub fn render_css(tokens: &Vec<Token>) -> (r: String)
    ensures
        r@ == css_text(tokens_view(tokens@)),
{
    let ghost tv = tokens_view(tokens@);
    let mut out = String::from_str(":root {\n");
    proof {
        assert(out@ =~= ":root {\n"@ + css_decls_upto(tv, 0));
    }
    let mut i: usize = 0;
    while i < tokens.len()
        invariant
            i <= tokens.len(),
            out@ == ":root {\n"@ + css_decls_upto(tv, i as int),
        decreases tokens.len() - i,
    {
        out.append("  --");
        append_kebab(&mut out, &tokens[i].path);
        out.append(": ");
        append_css_literal(&mut out, &tokens[i].value);
        out.append(";\n");
        proof {
            assert(tv[i as int] == tokens@[i as int]@);
            assert(out@ =~= ":root {\n"@ + css_decls_upto(tv, i + 1));
        }
        i = i + 1;
    }
    out.append("}\n");
    proof {
        assert(out@ =~= css_text(tv));
    }
    out
}

/// Renders the typed-module artifact, as [`module_text`] describes.
#[verifier::loop_isolation(false)]
pub fn render_module(tokens: &Vec<Token>) -> (r: String)
    ensures
        r@ == module_text(tokens_view(tokens@)),
{
    let ghost tv = tokens_view(tokens@);
    let mut out = String::from_str("export const tokens = {\n");
    proof {
        assert(out@ =~= "export const tokens = {\n"@ + module_decls_upto(tv, 0));
    }
    let mut i: usize = 0;
    while i < tokens.len()
        invariant
            i <= tokens.len(),
            out@ == "export const tokens = {\n"@ + module_decls_upto(tv, i as int),
        decreases tokens.len() - i,
    {
        out.append("  ");
        let dp = dotted_path(&tokens[i].path);
        append_quoted(&mut out, &dp);
        out.append(": ");
        append_json(&mut out, &tokens[i].value);
        out.append(",\n");
        proof {
            assert(tv[i as int] == tokens@[i as int]@);
            assert(out@ =~= "export const tokens = {\n"@ + module_decls_upto(tv, i + 1));
        }
        i = i + 1;
    }
    out.append("};\n");
    proof {
        assert(out@ =~= module_text(tv));
    }
    out
}

/// Renders the first class-object artifact, as [`compose_text`] describes.
#[verifier::loop_isolation(false)]
pub fn render_compose(tokens: &Vec<Token>) -> (r: String)
    ensures
        r@ == compose_text(tokens_view(tokens@)),
{
    let ghost tv = tokens_view(tokens@);
    let mut out = String::from_str("object Tokens {\n");
    proof {
        assert(out@ =~= "object Tokens {\n"@ + compose_decls_upto(tv, 0));
    }
    let mut i: usize = 0;
    while i < tokens.len()
        invariant
            i <= tokens.len(),
            out@ == "object Tokens {\n"@ + compose_decls_upto(tv, i as int),
        decreases tokens.len() - i,
    {
        out.append("  val ");
        append_pascal_ident(&mut out, &tokens[i].path);
        out.append(" = ");
        append_host_literal(&mut out, &tokens[i].value);
        out.append("\n");
        proof {
            assert(tv[i as int] == tokens@[i as int]@);
            assert(out@ =~= "object Tokens {\n"@ + compose_decls_upto(tv, i + 1));
        }
        i = i + 1;
    }
    out.append("}\n");
    proof {
        assert(out@ =~= compose_text(tv));
    }
    out
}

/// Renders the second class-object artifact, as [`dart_text`] describes.
#[verifier::loop_isolation(false)]
pub fn render_dart(tokens: &Vec<Token>) -> (r: String)
    ensures
        r@ == dart_text(tokens_view(tokens@)),
{
    let ghost tv = tokens_view(tokens@);
    let mut out = String::from_str("class Tokens {\n");
    proof {
        assert(out@ =~= "class Tokens {\n"@ + dart_decls_upto(tv, 0));
    }
    let mut i: usize = 0;
    while i < tokens.len()
        invariant
            i <= tokens.len(),
            out@ == "class Tokens {\n"@ + dart_decls_upto(tv, i as int),
        decreases tokens.len() - i,
    {
        out.append("  static const ");
        append_camel_ident(&mut out, &tokens[i].path);
        out.append(" = ");
        append_host_literal(&mut out, &tokens[i].value);
        out.append(";\n");
        proof {
            assert(tv[i as int] == tokens@[i as int]@);
            assert(out@ =~= "class Tokens {\n"@ + dart_decls_upto(tv, i + 1));
        }
        i = i + 1;
    }
    out.append("}\n");
    proof {
        assert(out@ =~= dart_text(tv));
    }
    out
}

/// The in-memory set of all rendered target outputs, prior to any write.
#[derive(Debug)]
pub struct ArtifactBundle {
    pub css: String,
    pub module: String,
    pub compose: String,
    pub dart: String,
}

/// The bundle holds exactly the four renderings of the token list.
pub open spec fn bundle_matches(b: ArtifactBundle, ts: Seq<TokenModel>) -> bool {
    &&& b.css@ == css_text(ts)
    &&& b.module@ == module_text(ts)
    &&& b.compose@ == compose_text(ts)
    &&& b.dart@ == dart_text(ts)
}

/// Invokes all four emitters on the validated token list; pure, no
/// dependency on any filesystem.
pub fn build_artifacts(tokens: &Vec<Token>) -> (r: ArtifactBundle)
    ensures
        bundle_matches(r, tokens_view(tokens@)),
{
    ArtifactBundle {
        css: render_css(tokens),
        module: render_module(tokens),
        compose: render_compose(tokens),
        dart: render_dart(tokens),
    }
}

/// The destination path of each target below an output directory.
#[derive(Debug)]
pub struct EmitPaths {
    pub css: String,
    pub module: String,
    pub compose: String,
    pub dart: String,
}

/// The relative location of each target file below the output directory.
pub open spec fn paths_match(p: EmitPaths, dir: Seq<char>) -> bool {
    &&& p.css@ == dir + "/css/tokens.css"@
    &&& p.module@ == dir + "/ts/tokens.ts"@
    &&& p.compose@ == dir + "/compose/Tokens.kt"@
    &&& p.dart@ == dir + "/dart/tokens.dart"@
}

/// Names the destination path of every target below `output_dir`.
pub fn emit_paths(output_dir: &String) -> (r: EmitPaths)
    ensures
        paths_match(r, output_dir@),
{
    let mut css = output_dir.clone();
    css.append("/css/tokens.css");
    let mut module = output_dir.clone();
    module.append("/ts/tokens.ts");
    let mut compose = output_dir.clone();
    compose.append("/compose/Tokens.kt");
    let mut dart = output_dir.clone();
    dart.append("/dart/tokens.dart");
    EmitPaths { css, module, compose, dart }
}


/// Whether a character is a lower-case hexadecimal digit.
pub open spec fn is_hex_char(c: char) -> bool {
    c == '0' || c == '1' || c == '2' || c == '3' || c == '4' || c == '5' || c == '6' || c == '7'
        || c == '8' || c == '9' || c == 'a' || c == 'b' || c == 'c' || c == 'd' || c == 'e' || c
        == 'f'
}

/// The value of a lower-case hexadecimal digit.
pub open spec fn hex_val(c: char) -> int {
    if c == '0' {
        0
    } else if c == '1' {
        1
    } else if c == '2' {
        2
    } else if c == '3' {
        3
    } else if c == '4' {
        4
    } else if c == '5' {
        5
    } else if c == '6' {
        6
    } else if c == '7' {
        7
    } else if c == '8' {
        8
    } else if c == '9' {
        9
    } else if c == 'a' {
        10
    } else if c == 'b' {
        11
    } else if c == 'c' {
        12
    } else if c == 'd' {
        13
    } else if c == 'e' {
        14
    } else if c == 'f' {
        15
    } else {
        15
    }
}

/// Prepends a decoded character to a decode result.
pub open spec fn opt_cons(c: char, r: Option<Seq<char>>) -> Option<Seq<char>> {
    match r {
        Option::Some(t) => Option::Some(seq![c] + t),
        Option::None => Option::None,
    }
}

/// How a target language reads the body of a double-quoted literal back:
/// each escape sequence decodes to its character, anything else stands for
/// itself, and a malformed escape fails the parse.
pub open spec fn unescape(s: Seq<char>) -> Option<Seq<char>>
    decreases s.len(),
{
    if s.len() == 0 {
        Option::Some(Seq::empty())
    } else if s[0] == '\\' {
        if s.len() < 2 {
            Option::None
        } else if s[1] == '"' {
            opt_cons('"', unescape(s.subrange(2, s.len() as int)))
        } else if s[1] == '\\' {
            opt_cons('\\', unescape(s.subrange(2, s.len() as int)))
        } else if s[1] == 'n' {
            opt_cons('\n', unescape(s.subrange(2, s.len() as int)))
        } else if s[1] == 'r' {
            opt_cons('\r', unescape(s.subrange(2, s.len() as int)))
        } else if s[1] == 't' {
            opt_cons('\t', unescape(s.subrange(2, s.len() as int)))
        } else if s[1] == 'u' {
            if s.len() < 6 {
                Option::None
            } else if s[2] == '0' && s[3] == '0' && is_hex_char(s[4]) && is_hex_char(s[5]) {
                opt_cons(
                    ((hex_val(s[4]) * 16 + hex_val(s[5])) as char),
                    unescape(s.subrange(6, s.len() as int)),
                )
            } else {
                Option::None
            }
        } else {
            Option::None
        }
    } else {
        opt_cons(s[0], unescape(s.subrange(1, s.len() as int)))
    }
}

/// A hexadecimal digit decodes back to its value.
proof fn lemma_hex_inverse(d: int)
    requires
        0 <= d < 16,
    ensures
        is_hex_char(hex_digit(d)),
        hex_val(hex_digit(d)) == d,
{
    if d == 0 {
    } else if d == 1 {
    
    } else if d == 2 {
    
    } else if d == 3 {
    
    } else if d == 4 {
    
    } else if d == 5 {
    
    } else if d == 6 {
    
    } else if d == 7 {
    
    } else if d == 8 {
    
    } else if d == 9 {
    
    } else if d == 10 {
    
    } else if d == 11 {
    
    } else if d == 12 {
    
    } else if d == 13 {
    
    } else if d == 14 {
    
    } else if d == 15 {
    
    }
}

/// A control character is recovered from its two hexadecimal digits.
proof fn lemma_char_code_round(c: char)
    requires
        (c as u32) < 32,
    ensures
        is_hex_char(hex_digit(((c as u32) as int) / 16)),
        is_hex_char(hex_digit(((c as u32) as int) % 16)),
        ((hex_val(hex_digit(((c as u32) as int) / 16)) * 16 + hex_val(
            hex_digit(((c as u32) as int) % 16),
        )) as char) == c,
{
    let code = (c as u32) as int;
    assert((c as int) >= 0);
    assert((c as int) < 0x110000);
    assert((c as u32) as int == c as int);
    assert(code < 32);
    assert((code as char) as int == code);
    lemma_hex_inverse(code / 16);
    lemma_hex_inverse(code % 16);
    assert((code / 16) * 16 + code % 16 == code);
    assert((code as char) == c);
}

/// The escaped text decomposes at the front.
proof fn lemma_esc_front(s: Seq<char>, i: int)
    requires
        1 <= i <= s.len(),
    ensures
        esc_upto(s, i) =~= esc_char(s[0]) + esc_upto(s.subrange(1, s.len() as int), i - 1),
    decreases i,
{
    if i == 1 {
        assert(esc_upto(s, 0) =~= Seq::<char>::empty());
        assert(esc_upto(s.subrange(1, s.len() as int), 0) =~= Seq::<char>::empty());
        assert(esc_upto(s, 1) =~= esc_char(s[0]) + esc_upto(s.subrange(1, s.len() as int), 0));
    } else {
        lemma_esc_front(s, i - 1);
        assert(s.subrange(1, s.len() as int)[i - 2] == s[i - 1]);
        assert(esc_upto(s, i) =~= esc_char(s[0]) + esc_upto(s.subrange(1, s.len() as int), i - 1));
    }
}

/// Round trip of the escape: the body of a rendered string literal, decoded
/// exactly as the target language's own literal syntax decodes it, yields
/// the original text again.
pub proof fn lemma_escape_round_trip(s: Seq<char>)
    ensures
        unescape(escape_text(s)) == Option::Some(s),
    decreases s.len(),
{
    reveal_strlit("\\\"");
    reveal_strlit("\\\\");
    reveal_strlit("\\n");
    reveal_strlit("\\r");
    reveal_strlit("\\t");
    reveal_strlit("\\u00");
    if s.len() == 0 {
    } else {
        let rest = s.subrange(1, s.len() as int);
        lemma_esc_front(s, s.len() as int);
        lemma_escape_round_trip(rest);
        let c = s[0];
        let e = escape_text(s);
        assert(e =~= esc_char(c) + escape_text(rest));
        if c == '"' || c == '\\' || c == '\n' || c == '\r' || c == '\t' {
            assert(e.subrange(2, e.len() as int) =~= escape_text(rest));
            assert(seq![c] + rest =~= s);
        } else if (c as u32) < 32 {
            let code = (c as u32) as int;
            let hi = code / 16;
            let lo = code % 16;
            lemma_char_code_round(c);
            assert(e[4] == hex_digit(hi));
            assert(e[5] == hex_digit(lo));
            assert(e.subrange(6, e.len() as int) =~= escape_text(rest));
            assert(seq![c] + rest =~= s);
        } else {
            assert(e[0] == c);
            assert(e.subrange(1, e.len() as int) =~= escape_text(rest));
            assert(seq![c] + rest =~= s);
        }
    }
}

/// Round trip of a whole quoted literal: it opens and closes with the quote
/// character, and its body decodes back to the original text. Numbers and
/// booleans are rendered verbatim, so their round trip is the rendering
/// itself.
pub proof fn lemma_quoted_round_trip(s: Seq<char>)
    ensures
        quoted(s).len() >= 2,
        quoted(s)[0] == '"',
        quoted(s)[quoted(s).len() - 1] == '"',
        unescape(quoted(s).subrange(1, quoted(s).len() - 1)) == Option::Some(s),
{
    reveal_strlit("\"");
    assert(quoted(s).subrange(1, quoted(s).len() - 1) =~= escape_text(s));
    lemma_escape_round_trip(s);
}


/// Emission plans the same files twice: contents and paths are functions of
/// the token list and the output directory alone, so a second run over the
/// same input writes byte-identical artifacts.
pub proof fn lemma_emit_idempotent(
    ts: Seq<TokenModel>,
    dir: Seq<char>,
    b1: ArtifactBundle,
    b2: ArtifactBundle,
    p1: EmitPaths,
    p2: EmitPaths,
)
    requires
        bundle_matches(b1, ts),
        bundle_matches(b2, ts),
        paths_match(p1, dir),
        paths_match(p2, dir),
    ensures
        b1.css@ == b2.css@,
        b1.module@ == b2.module@,
        b1.compose@ == b2.compose@,
        b1.dart@ == b2.dart@,
        p1.css@ == p2.css@,
        p1.module@ == p2.module@,
        p1.compose@ == p2.compose@,
        p1.dart@ == p2.dart@,
{
}

/// An export with zero tokens renders only the fixed wrapper of each target,
/// with no declaration between.
pub proof fn lemma_empty_bundle(b: ArtifactBundle)
    requires
        bundle_matches(b, Seq::empty()),
    ensures
        b.css@ == ":root {\n}\n"@,
        b.module@ == "export const tokens = {\n};\n"@,
        b.compose@ == "object Tokens {\n}\n"@,
        b.dart@ == "class Tokens {\n}\n"@,
{
    reveal_strlit(":root {\n");
    reveal_strlit("}\n");
    reveal_strlit(":root {\n}\n");
    reveal_strlit("export const tokens = {\n");
    reveal_strlit("};\n");
    reveal_strlit("export const tokens = {\n};\n");
    reveal_strlit("object Tokens {\n");
    reveal_strlit("object Tokens {\n}\n");
    reveal_strlit("class Tokens {\n");
    reveal_strlit("class Tokens {\n}\n");
    assert(css_text(Seq::empty()) =~= ":root {\n}\n"@);
    assert(module_text(Seq::empty()) =~= "export const tokens = {\n};\n"@);
    assert(compose_text(Seq::empty()) =~= "object Tokens {\n}\n"@);
    assert(dart_text(Seq::empty()) =~= "class Tokens {\n}\n"@);
}


/// Whether a number's literal text can stand bare in a literal position: it
/// is non-empty and opens as a number does, with a digit or a minus sign.
pub open spec fn number_text_wf(s: Seq<char>) -> bool {
    s.len() > 0 && (s[0] == '-' || ('0' <= s[0] && s[0] <= '9'))
}

/// How a target language reads one scalar literal back: the keyword
/// literals, a double-quoted string decoded by [`unescape`], and otherwise a
/// bare number kept as its text.
pub open spec fn parse_scalar_literal(s: Seq<char>) -> Option<ValueModel> {
    if s == "null"@ {
        Option::Some(ValueModel::Null)
    } else if s == "true"@ {
        Option::Some(ValueModel::Bool(true))
    } else if s == "false"@ {
        Option::Some(ValueModel::Bool(false))
    } else if s.len() >= 2 && s[0] == '"' && s[s.len() - 1] == '"' {
        match unescape(s.subrange(1, s.len() - 1)) {
            Option::Some(t) => Option::Some(ValueModel::Text(t)),
            Option::None => Option::None,
        }
    } else if number_text_wf(s) {
        Option::Some(ValueModel::Number(s))
    } else {
        Option::None
    }
}

/// Round trip of every scalar literal: null, booleans, well-formed numbers
/// and strings, rendered and then read back as the target languages read
/// them, yield the original value. The premise on numbers is needed: a
/// number whose text were `true` would read back as a boolean.
pub proof fn lemma_scalar_literal_round_trip(v: ValueModel)
    requires
        !(v is Array),
        !(v is Object),
        v matches ValueModel::Number(s) ==> number_text_wf(s),
    ensures
        parse_scalar_literal(json_text(v)) == Option::Some(v),
{
    reveal_strlit("null");
    reveal_strlit("true");
    reveal_strlit("false");
    reveal_strlit("\"");
    match v {
        ValueModel::Null => {},
        ValueModel::Bool(b) => {
            if b {
                assert("true"@ != "null"@) by {
                    assert("true"@[0] == 't');
                    assert("null"@[0] == 'n');
                }
            } else {
                assert("false"@ != "null"@) by {
                    assert("false"@.len() == 5);
                    assert("null"@.len() == 4);
                }
                assert("false"@ != "true"@) by {
                    assert("false"@[0] == 'f');
                    assert("true"@[0] == 't');
                }
            }
        },
        ValueModel::Number(s) => {
            assert(s[0] != 'n' && s[0] != 't' && s[0] != 'f' && s[0] != '"');
            assert(s != "null"@) by {
                assert("null"@[0] == 'n');
            }
            assert(s != "true"@) by {
                assert("true"@[0] == 't');
            }
            assert(s != "false"@) by {
                assert("false"@[0] == 'f');
            }
        },
        ValueModel::Text(t) => {
            let q = quoted(t);
            assert(q[0] == '"');
            assert(q[q.len() - 1] == '"');
            assert(q != "null"@) by {
                assert("null"@[0] == 'n');
            }
            assert(q != "true"@) by {
                assert("true"@[0] == 't');
            }
            assert(q != "false"@) by {
                assert("false"@[0] == 'f');
            }
            assert(q.subrange(1, q.len() - 1) =~= escape_text(t));
            lemma_escape_round_trip(t);
        },
        ValueModel::Array(_) => {},
        ValueModel::Object(_) => {},
    }
}

} // verus!
