//! The patterns by which the interpreter recognises script text: imports, the `Main`
//! function, classes, functions, and the definitions of variables, lists and dictionaries.
//!
//! Each pattern is a spec function that says, for a position, whether the pattern matches
//! there and which spans it captures; a search takes the leftmost such position. Runs are
//! taken whole (word characters hold no whitespace, quotes or `=`), lazy bodies end at the
//! first `}` and a greedy `.*\]` ends at the last `]` before a line feed.
use vstd::prelude::*;
use crate::text::{to_chars, string_of, slice_chars};
use crate::runtime::scan::{
    CharClass, run_end, scan_run, lit_at, text_at, leftmost, last_of, last_not, find_last,
    find_last_not, };

verus! {

broadcast use vstd::string::group_string_axioms;

/// `Import\s+"([^"]+)"` at `p`: the span of the file name.
pub open spec fn import_at(s: Seq<char>, p: int) -> Option<(int, int)> {
    let kw = "Import"@;
    let b = run_end(s, p + kw.len(), CharClass::Space);
    let c = run_end(s, b + 1, CharClass::NotQuote);
    if lit_at(s, p, kw) && b > p + kw.len() && b < s.len() && s[b] == '"' && c > b + 1 && c < s.len()
        && s[c] == '"' {
        Some((b + 1, c))
    } else {
        None
    }
}

/// The file that an `Import` line names: the name in the leftmost import pattern.
pub open spec fn import_target_spec(line: Seq<char>) -> Option<Seq<char>> {
    match leftmost(line, 0, |p: int| import_at(line, p)) {
        Some((_, (a, b))) => Some(line.subrange(a, b)),
        None => None,
    }
}

/// Matches the import pattern at `p` (see `import_at`).
fn import_match_at(s: &[char], p: usize) -> (r: Option<(usize, usize)>)
    requires
        p <= s@.len(),
    ensures
        r matches Some((a, b)) ==> import_at(s@, p as int) == Some((a as int, b as int)) && a <= b <= s@.len(),
        r is None ==> import_at(s@, p as int) is None,
{
    let kw = to_chars("Import");
    let n = s.len();
    if !text_at(s, p, kw.as_slice()) {
        return None;
    }
    let a = p + kw.len();
    let b = scan_run(s, a, CharClass::Space);
    if b == a || b >= n || s[b] != '"' {
        return None;
    }
    let c = scan_run(s, b + 1, CharClass::NotQuote);
    if c == b + 1 || c >= n || s[c] != '"' {
        return None;
    }
    Some((b + 1, c))
}

/// The file that an `Import` line names, if it is one (see `import_target_spec`).
pub fn import_target(line: &str) -> (r: Option<String>)
    ensures
        r.deep_view() == import_target_spec(line@),
{
    let s = to_chars(line);
    let ghost m = |p: int| import_at(s@, p);
    let mut p: usize = 0;
    while p < s.len()
        invariant
            p <= s@.len(),
            s@ == line@,
            m == (|p: int| import_at(s@, p)),
            leftmost(s@, 0, m) == leftmost(s@, p as int, m),
        decreases s@.len() - p,
    {
        match import_match_at(s.as_slice(), p) {
            Some((a, b)) => {
                let t = slice_chars(s.as_slice(), a, b);
                return Some(string_of(t.as_slice()));
            },
            None => {},
        }
        p = p + 1;
    }
    None
}

/// `Function\s+"Main"\s*\(([^)]*)\)\s*\{([\s\S]*?)\}` at `p`: the spans of the parameter
/// list and of the body.
pub open spec fn main_at(s: Seq<char>, p: int) -> Option<(int, int, int, int)> {
    let kw = "Function"@;
    let name = "\"Main\""@;
    let b = run_end(s, p + kw.len(), CharClass::Space);
    let d = run_end(s, b + name.len(), CharClass::Space);
    let e = run_end(s, d + 1, CharClass::NotCloseParen);
    let f = run_end(s, e + 1, CharClass::Space);
    let g = run_end(s, f + 1, CharClass::NotCloseBrace);
    if lit_at(s, p, kw) && b > p + kw.len() && lit_at(s, b, name) && d < s.len() && s[d] == '('
        && e < s.len() && s[e] == ')' && f < s.len() && s[f] == '{' && g < s.len() && s[g] == '}' {
        Some((d + 1, e, f + 1, g))
    } else {
        None
    }
}

/// Matches the `Main` pattern at `p` (see `main_at`).
fn main_match_at(s: &[char], p: usize) -> (r: Option<(usize, usize, usize, usize)>)
    requires
        p <= s@.len(),
    ensures
        r matches Some((a, b, c, d)) ==> main_at(s@, p as int) == Some((a as int, b as int, c as int, d as int))
            && a <= b <= s@.len() && c <= d <= s@.len(),
        r is None ==> main_at(s@, p as int) is None,
{
    let kw = to_chars("Function");
    let name = to_chars("\"Main\"");
    let n = s.len();
    if !text_at(s, p, kw.as_slice()) {
        return None;
    }
    let a = p + kw.len();
    let b = scan_run(s, a, CharClass::Space);
    if b == a || !text_at(s, b, name.as_slice()) {
        return None;
    }
    let d = scan_run(s, b + name.len(), CharClass::Space);
    if d >= n || s[d] != '(' {
        return None;
    }
    let e = scan_run(s, d + 1, CharClass::NotCloseParen);
    if e >= n || s[e] != ')' {
        return None;
    }
    let f = scan_run(s, e + 1, CharClass::Space);
    if f >= n || s[f] != '{' {
        return None;
    }
    let g = scan_run(s, f + 1, CharClass::NotCloseBrace);
    if g >= n || s[g] != '}' {
        return None;
    }
    Some((d + 1, e, f + 1, g))
}

/// The leftmost `Main` function in `s`: the spans of its parameter list and of its body.
pub open spec fn main_spec(s: Seq<char>) -> Option<(int, int, int, int)> {
    match leftmost(s, 0, |p: int| main_at(s, p)) {
        Some((_, x)) => Some(x),
        None => None,
    }
}

/// Finds the leftmost `Main` function (see `main_spec`).
pub fn find_main(s: &[char]) -> (r: Option<(usize, usize, usize, usize)>)
    ensures
        r matches Some((a, b, c, d)) ==> main_spec(s@) == Some((a as int, b as int, c as int, d as int))
            && a <= b <= s@.len() && c <= d <= s@.len(),
        r is None ==> main_spec(s@) is None,
{
    let ghost m = |p: int| main_at(s@, p);
    let mut p: usize = 0;
    while p < s.len()
        invariant
            p <= s@.len(),
            m == (|p: int| main_at(s@, p)),
            leftmost(s@, 0, m) == leftmost(s@, p as int, m),
        decreases s@.len() - p,
    {
        match main_match_at(s, p) {
            Some(x) => {
                return Some(x);
            },
            None => {},
        }
        p = p + 1;
    }
    None
}

/// `Class\s+"([^"]+)"\s*\{([\s\S]*?)\}` at `p`: the spans of the name and of the body.
pub open spec fn class_at(s: Seq<char>, p: int) -> Option<(int, int, int, int)> {
    let kw = "Class"@;
    let b = run_end(s, p + kw.len(), CharClass::Space);
    let c = run_end(s, b + 1, CharClass::NotQuote);
    let d = run_end(s, c + 1, CharClass::Space);
    let g = run_end(s, d + 1, CharClass::NotCloseBrace);
    if lit_at(s, p, kw) && b > p + kw.len() && b < s.len() && s[b] == '"' && c > b + 1 && c < s.len()
        && s[c] == '"' && d < s.len() && s[d] == '{' && g < s.len() && s[g] == '}' {
        Some((b + 1, c, d + 1, g))
    } else {
        None
    }
}

/// Matches the class pattern at `p` (see `class_at`).
fn class_match_at(s: &[char], p: usize) -> (r: Option<(usize, usize, usize, usize)>)
    requires
        p <= s@.len(),
    ensures
        r matches Some((a, b, c, d)) ==> class_at(s@, p as int) == Some((a as int, b as int, c as int, d as int))
            && a <= b < c <= d < s@.len(),
        r is None ==> class_at(s@, p as int) is None,
{
    let kw = to_chars("Class");
    let n = s.len();
    if !text_at(s, p, kw.as_slice()) {
        return None;
    }
    let a = p + kw.len();
    let b = scan_run(s, a, CharClass::Space);
    if b == a || b >= n || s[b] != '"' {
        return None;
    }
    let c = scan_run(s, b + 1, CharClass::NotQuote);
    if c == b + 1 || c >= n || s[c] != '"' {
        return None;
    }
    let d = scan_run(s, c + 1, CharClass::Space);
    if d >= n || s[d] != '{' {
        return None;
    }
    let g = scan_run(s, d + 1, CharClass::NotCloseBrace);
    if g >= n || s[g] != '}' {
        return None;
    }
    Some((b + 1, c, d + 1, g))
}

/// The leftmost class of `s` from `from` on (see `class_at`).
pub fn next_class(s: &[char], from: usize) -> (r: Option<(usize, usize, usize, usize)>)
    requires
        from <= s@.len(),
    ensures
        r matches Some((a, b, c, d)) ==> leftmost(s@, from as int, |p: int| class_at(s@, p)) matches Some((
            _,
            x,
        )) && x == (a as int, b as int, c as int, d as int) && from <= a <= b < c <= d < s@.len(),
        r is None ==> leftmost(s@, from as int, |p: int| class_at(s@, p)) is None,
{
    let ghost m = |p: int| class_at(s@, p);
    let mut p: usize = from;
    while p < s.len()
        invariant
            from <= p <= s@.len(),
            m == (|p: int| class_at(s@, p)),
            leftmost(s@, from as int, m) == leftmost(s@, p as int, m),
        decreases s@.len() - p,
    {
        match class_match_at(s, p) {
            Some(x) => {
                return Some(x);
            },
            None => {},
        }
        p = p + 1;
    }
    None
}

/// `Function\s+"([^"]+)"\s*(?:\(([^)]*)\))?\s*(\{[\s\S]*?\})` at `p`: the spans of the
/// name, of the parameter list (empty when there is none) and of the block with its braces.
pub open spec fn function_at(s: Seq<char>, p: int) -> Option<(int, int, int, int, int, int)> {
    let kw = "Function"@;
    let b = run_end(s, p + kw.len(), CharClass::Space);
    let c = run_end(s, b + 1, CharClass::NotQuote);
    let d = run_end(s, c + 1, CharClass::Space);
    if !(lit_at(s, p, kw) && b > p + kw.len() && b < s.len() && s[b] == '"' && c > b + 1 && c < s.len()
        && s[c] == '"' && d < s.len()) {
        None
    } else if s[d] == '(' {
        let e = run_end(s, d + 1, CharClass::NotCloseParen);
        let f = run_end(s, e + 1, CharClass::Space);
        let g = run_end(s, f + 1, CharClass::NotCloseBrace);
        if e < s.len() && s[e] == ')' && f < s.len() && s[f] == '{' && g < s.len() && s[g] == '}' {
            Some((b + 1, c, d + 1, e, f, g + 1))
        } else {
            None
        }
    } else if s[d] == '{' {
        let g = run_end(s, d + 1, CharClass::NotCloseBrace);
        if g < s.len() && s[g] == '}' {
            Some((b + 1, c, d, d, d, g + 1))
        } else {
            None
        }
    } else {
        None
    }
}

/// Matches the function pattern at `p` (see `function_at`).
fn function_match_at(s: &[char], p: usize) -> (r: Option<(usize, usize, usize, usize, usize, usize)>)
    requires
        p <= s@.len(),
    ensures
        r matches Some((a, b, c, d, e, f)) ==> function_at(s@, p as int) == Some(
            (a as int, b as int, c as int, d as int, e as int, f as int),
        ) && a <= b < c <= d <= e < f <= s@.len() && e + 2 <= f,
        r is None ==> function_at(s@, p as int) is None,
{
    let kw = to_chars("Function");
    let n = s.len();
    if !text_at(s, p, kw.as_slice()) {
        return None;
    }
    let a = p + kw.len();
    let b = scan_run(s, a, CharClass::Space);
    if b == a || b >= n || s[b] != '"' {
        return None;
    }
    let c = scan_run(s, b + 1, CharClass::NotQuote);
    if c == b + 1 || c >= n || s[c] != '"' {
        return None;
    }
    let d = scan_run(s, c + 1, CharClass::Space);
    if d >= n {
        return None;
    }
    if s[d] == '(' {
        let e = scan_run(s, d + 1, CharClass::NotCloseParen);
        if e >= n || s[e] != ')' {
            return None;
        }
        let f = scan_run(s, e + 1, CharClass::Space);
        if f >= n || s[f] != '{' {
            return None;
        }
        let g = scan_run(s, f + 1, CharClass::NotCloseBrace);
        if g >= n || s[g] != '}' {
            return None;
        }
        Some((b + 1, c, d + 1, e, f, g + 1))
    } else if s[d] == '{' {
        let g = scan_run(s, d + 1, CharClass::NotCloseBrace);
        if g >= n || s[g] != '}' {
            return None;
        }
        Some((b + 1, c, d, d, d, g + 1))
    } else {
        None
    }
}

/// The leftmost function of `s` from `from` on (see `function_at`).
pub fn next_function(s: &[char], from: usize) -> (r: Option<(usize, usize, usize, usize, usize, usize)>)
    requires
        from <= s@.len(),
    ensures
        r matches Some((a, b, c, d, e, f)) ==> leftmost(s@, from as int, |p: int| function_at(s@, p)) matches Some((
            _,
            x,
        )) && x == (a as int, b as int, c as int, d as int, e as int, f as int) && from <= a <= b < c <= d
            <= e < f <= s@.len() && e + 2 <= f,
        r is None ==> leftmost(s@, from as int, |p: int| function_at(s@, p)) is None,
{
    let ghost m = |p: int| function_at(s@, p);
    let mut p: usize = from;
    while p < s.len()
        invariant
            from <= p <= s@.len(),
            m == (|p: int| function_at(s@, p)),
            leftmost(s@, from as int, m) == leftmost(s@, p as int, m),
        decreases s@.len() - p,
    {
        match function_match_at(s, p) {
            Some(x) => {
                return Some(x);
            },
            None => {},
        }
        p = p + 1;
    }
    None
}

/// `\s*=\s*(.+)` at `e`: the span of the value. The value runs to the line's end; when
/// nothing but whitespace follows the `=`, the last whitespace character is the value.
pub open spec fn value_tail(s: Seq<char>, e: int) -> Option<(int, int)> {
    let f = run_end(s, e, CharClass::Space);
    let g = run_end(s, f + 1, CharClass::Space);
    let h = run_end(s, g, CharClass::NotNewline);
    if !(f < s.len() && s[f] == '=') {
        None
    } else if h > g {
        Some((g, h))
    } else {
        match last_not(s, f + 1, g, '\n') {
            Some(k) => Some((k, k + 1)),
            None => None,
        }
    }
}

/// Matches `\s*=\s*(.+)` at `e` (see `value_tail`).
fn value_tail_at(s: &[char], e: usize) -> (r: Option<(usize, usize)>)
    requires
        e <= s@.len(),
    ensures
        r matches Some((a, b)) ==> value_tail(s@, e as int) == Some((a as int, b as int)) && e < a < b <= s@.len(),
        r is None ==> value_tail(s@, e as int) is None,
{
    let n = s.len();
    let f = scan_run(s, e, CharClass::Space);
    if f >= n || s[f] != '=' {
        return None;
    }
    let g = scan_run(s, f + 1, CharClass::Space);
    let h = scan_run(s, g, CharClass::NotNewline);
    if h > g {
        return Some((g, h));
    }
    match find_last_not(s, f + 1, g, '\n') {
        Some(k) => Some((k, k + 1)),
        None => None,
    }
}

/// `Data\.Var\s+(?:(\w+)\s+)?(\w+)\s*=\s*(.+)` at `p`: the spans of the name and of the
/// value. The type word is optional: with two words before the `=`, the second is the name.
pub open spec fn var_at(s: Seq<char>, p: int) -> Option<((int, int), (int, int))> {
    let kw = "Data.Var"@;
    let b = run_end(s, p + kw.len(), CharClass::Space);
    let c = run_end(s, b, CharClass::Word);
    let d = run_end(s, c, CharClass::Space);
    let e = run_end(s, d, CharClass::Word);
    if !(lit_at(s, p, kw) && b > p + kw.len() && c > b) {
        None
    } else if d > c && e > d && value_tail(s, e) is Some {
        Some(((d, e), value_tail(s, e)->0))
    } else if value_tail(s, c) is Some {
        Some(((b, c), value_tail(s, c)->0))
    } else {
        None
    }
}

/// Matches the variable pattern at `p` (see `var_at`).
fn var_match_at(s: &[char], p: usize) -> (r: Option<(usize, usize, usize, usize)>)
    requires
        p <= s@.len(),
    ensures
        r matches Some((a, b, c, d)) ==> var_at(s@, p as int) == Some(((a as int, b as int), (c as int, d as int)))
            && a < b < c < d <= s@.len(),
        r is None ==> var_at(s@, p as int) is None,
{
    let kw = to_chars("Data.Var");
    let n = s.len();
    if !text_at(s, p, kw.as_slice()) {
        return None;
    }
    let a = p + kw.len();
    let b = scan_run(s, a, CharClass::Space);
    if b == a {
        return None;
    }
    let c = scan_run(s, b, CharClass::Word);
    if c == b {
        return None;
    }
    let d = scan_run(s, c, CharClass::Space);
    let e = scan_run(s, d, CharClass::Word);
    if d > c && e > d {
        match value_tail_at(s, e) {
            Some((v0, v1)) => {
                return Some((d, e, v0, v1));
            },
            None => {},
        }
    }
    match value_tail_at(s, c) {
        Some((v0, v1)) => Some((b, c, v0, v1)),
        None => None,
    }
}

/// The leftmost variable definition in `s`: the spans of the name and of the value.
pub open spec fn var_spec(s: Seq<char>) -> Option<((int, int), (int, int))> {
    match leftmost(s, 0, |p: int| var_at(s, p)) {
        Some((_, x)) => Some(x),
        None => None,
    }
}

/// Finds the leftmost variable definition (see `var_spec`).
pub fn find_var(s: &[char]) -> (r: Option<(usize, usize, usize, usize)>)
    ensures
        r matches Some((a, b, c, d)) ==> var_spec(s@) == Some(((a as int, b as int), (c as int, d as int)))
            && a < b < c < d <= s@.len(),
        r is None ==> var_spec(s@) is None,
{
    let ghost m = |p: int| var_at(s@, p);
    let mut p: usize = 0;
    while p < s.len()
        invariant
            p <= s@.len(),
            m == (|p: int| var_at(s@, p)),
            leftmost(s@, 0, m) == leftmost(s@, p as int, m),
        decreases s@.len() - p,
    {
        match var_match_at(s, p) {
            Some(x) => {
                return Some(x);
            },
            None => {},
        }
        p = p + 1;
    }
    None
}

/// `<kw>\s+"(\w+)"\s*=\s*\[(.*)\]` at `p`, where `kw` is `DataStruct.List` or
/// `DataStruct.Dict`: the spans of the name and of the items, which end at the last `]`.
pub open spec fn struct_at(s: Seq<char>, p: int, kw: Seq<char>) -> Option<((int, int), (int, int))> {
    let b = run_end(s, p + kw.len(), CharClass::Space);
    let c = run_end(s, b + 1, CharClass::Word);
    let d = run_end(s, c + 1, CharClass::Space);
    let e = run_end(s, d + 1, CharClass::Space);
    let r = run_end(s, e + 1, CharClass::NotNewline);
    if lit_at(s, p, kw) && b > p + kw.len() && b < s.len() && s[b] == '"' && c > b + 1 && c < s.len()
        && s[c] == '"' && d < s.len() && s[d] == '=' && e < s.len() && s[e] == '[' && last_of(
        s,
        e + 1,
        r,
        ']',
    ) is Some {
        Some(((b + 1, c), (e + 1, last_of(s, e + 1, r, ']')->0)))
    } else {
        None
    }
}

/// Matches the list or dictionary pattern at `p` (see `struct_at`).
fn struct_match_at(s: &[char], p: usize, kw: &[char]) -> (r: Option<(usize, usize, usize, usize)>)
    requires
        p <= s@.len(),
    ensures
        r matches Some((a, b, c, d)) ==> struct_at(s@, p as int, kw@) == Some(((a as int, b as int), (c as int, d as int)))
            && a < b < c <= d < s@.len(),
        r is None ==> struct_at(s@, p as int, kw@) is None,
{
    let n = s.len();
    if !text_at(s, p, kw) {
        return None;
    }
    let a = p + kw.len();
    let b = scan_run(s, a, CharClass::Space);
    if b == a || b >= n || s[b] != '"' {
        return None;
    }
    let c = scan_run(s, b + 1, CharClass::Word);
    if c == b + 1 || c >= n || s[c] != '"' {
        return None;
    }
    let d = scan_run(s, c + 1, CharClass::Space);
    if d >= n || s[d] != '=' {
        return None;
    }
    let e = scan_run(s, d + 1, CharClass::Space);
    if e >= n || s[e] != '[' {
        return None;
    }
    let r = scan_run(s, e + 1, CharClass::NotNewline);
    match find_last(s, e + 1, r, ']') {
        Some(k) => Some((b + 1, c, e + 1, k)),
        None => None,
    }
}

/// The leftmost list or dictionary definition in `s` (see `struct_at`).
pub open spec fn struct_spec(s: Seq<char>, kw: Seq<char>) -> Option<((int, int), (int, int))> {
    match leftmost(s, 0, |p: int| struct_at(s, p, kw)) {
        Some((_, x)) => Some(x),
        None => None,
    }
}

/// Finds the leftmost list or dictionary definition (see `struct_spec`).
pub fn find_struct(s: &[char], kw: &[char]) -> (r: Option<(usize, usize, usize, usize)>)
    ensures
        r matches Some((a, b, c, d)) ==> struct_spec(s@, kw@) == Some(((a as int, b as int), (c as int, d as int)))
            && a < b < c <= d < s@.len(),
        r is None ==> struct_spec(s@, kw@) is None,
{
    let ghost m = |p: int| struct_at(s@, p, kw@);
    let mut p: usize = 0;
    while p < s.len()
        invariant
            p <= s@.len(),
            m == (|p: int| struct_at(s@, p, kw@)),
            leftmost(s@, 0, m) == leftmost(s@, p as int, m),
        decreases s@.len() - p,
    {
        match struct_match_at(s, p, kw) {
            Some(x) => {
                return Some(x);
            },
            None => {},
        }
        p = p + 1;
    }
    None
}

} // verus!
