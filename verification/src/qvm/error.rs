//! Syntax errors of QVM programs and how they are reported.
use vstd::prelude::*;
use crate::text::{to_chars, chars_eq, slice_chars, decimal, decimal_chars, trim, trim_chars, utf8_len, utf8_prefix_len, lemma_utf8_len_prefix_mono, chars_to_string};

verus! {

broadcast use vstd::string::group_string_axioms;

/// A syntax error: what went wrong, its code, and where.
pub struct SyntaxError {
    pub error_name: String,
    pub error_code: u32,
    pub line_number: usize,
    pub source_line: String,
    /// The token that caused the error.
    pub token_content: String,
}

/// Whether `t` occurs in `s` starting at character `i`.
pub open spec fn occurs_at(s: Seq<char>, t: Seq<char>, i: int) -> bool {
    0 <= i && i + t.len() <= s.len() && s.subrange(i, i + t.len()) == t
}

/// The first character position at or after `i` where `t` occurs in `s`.
pub open spec fn first_occurrence_from(s: Seq<char>, t: Seq<char>, i: int) -> Option<int>
    decreases s.len() + 1 - i,
{
    if i < 0 || i + t.len() > s.len() {
        None
    } else if occurs_at(s, t, i) {
        Some(i)
    } else {
        first_occurrence_from(s, t, i + 1)
    }
}

/// The byte offset of the first occurrence of `t` in `s`, as `str::find` gives it.
pub open spec fn find_bytes(s: Seq<char>, t: Seq<char>) -> Option<nat> {
    match first_occurrence_from(s, t, 0) {
        Some(i) => Some(utf8_len(s.subrange(0, i))),
        None => None,
    }
}

/// `n` copies of `c`.
pub open spec fn repeat_char(c: char, n: nat) -> Seq<char> {
    Seq::new(n, |_i: int| c)
}

/// The one-line report: `[Error!]In <file> Detected <name>,Code <code> at line <line>.Source:<trimmed source><-[HERE!]<token>`.
pub open spec fn normal_report(
    filename: Seq<char>,
    name: Seq<char>,
    code: nat,
    line: nat,
    source: Seq<char>,
    token: Seq<char>,
) -> Seq<char> {
    "[Error!]In "@ + filename + " Detected "@ + name + ",Code "@ + decimal(code) + " at line "@
        + decimal(line) + ".Source:"@ + trim(source) + "<-[HERE!]"@ + token
}

/// The multi-line report: a header, the line number, a row of `~` four longer than the
/// source line's bytes, the trimmed source line, and a caret under the token's byte offset
/// (indented by three spaces).
pub open spec fn verbose_report(
    filename: Seq<char>,
    name: Seq<char>,
    code: nat,
    line: nat,
    source: Seq<char>,
    arrow: nat,
) -> Seq<char> {
    "[Error!]In "@ + filename + " Detected "@ + name + ", Code "@ + decimal(code) + "\nAt "@
        + decimal(line) + ", Source:\n"@ + repeat_char('~', utf8_len(source) + 4) + "\n"@ + trim(
        source,
    ) + "\n"@ + "   "@ + repeat_char(' ', arrow) + "^"@
}

/// The position of `t` in `s`: the position of its first occurrence, found by scanning.
fn first_occurrence(s: &[char], t: &[char]) -> (r: Option<usize>)
    ensures
        r matches Some(i) ==> first_occurrence_from(s@, t@, 0) == Some(i as int) && i + t@.len()
            <= s@.len(),
        r is None ==> first_occurrence_from(s@, t@, 0) is None,
{
    if t.len() == 0 {
        assert(s@.subrange(0, 0) =~= t@);
        return Some(0);
    }
    let mut i: usize = 0;
    while t.len() <= s.len() - i
        invariant
            t@.len() > 0,
            i <= s@.len(),
            first_occurrence_from(s@, t@, 0) == first_occurrence_from(s@, t@, i as int),
        decreases s@.len() + 1 - i,
    {
        let piece = slice_chars(s, i, i + t.len());
        if chars_eq(piece.as_slice(), t) {
            return Some(i);
        }
        i = i + 1;
    }
    None
}

/// Appends `n` copies of `c` to `v`.
fn push_repeat(v: &mut Vec<char>, c: char, n: usize)
    ensures
        final(v)@ == old(v)@ + repeat_char(c, n as nat),
{
    let ghost start = v@;
    let mut i: usize = 0;
    while i < n
        invariant
            i <= n,
            v@ == start + repeat_char(c, i as nat),
        decreases n - i,
    {
        v.push(c);
        i = i + 1;
        assert(v@ =~= start + repeat_char(c, i as nat));
    }
}

/// Appends the characters of `s` to `v`.
fn push_str(v: &mut Vec<char>, s: &str)
    ensures
        final(v)@ == old(v)@ + s@,
{
    let cs = to_chars(s);
    push_chars(v, cs.as_slice());
}

/// Appends the characters `s` to `v`.
fn push_chars(v: &mut Vec<char>, s: &[char])
    ensures
        final(v)@ == old(v)@ + s@,
{
    let ghost start = v@;
    let mut i: usize = 0;
    while i < s.len()
        invariant
            i <= s@.len(),
            v@ == start + s@.subrange(0, i as int),
        decreases s@.len() - i,
    {
        v.push(s[i]);
        i = i + 1;
        assert(v@ =~= start + s@.subrange(0, i as int));
    }
    assert(s@.subrange(0, s@.len() as int) =~= s@);
}

impl SyntaxError {
    /// The byte offset of the offending token in the source line, or 0 when it does not
    /// occur there.
    pub fn find_token_position_in_line(&self) -> (r: usize)
        requires
            utf8_len(self.source_line@) <= usize::MAX,
        ensures
            r == match find_bytes(self.source_line@, self.token_content@) {
                Some(p) => p,
                None => 0,
            },
    {
        let s = to_chars(self.source_line.as_str());
        let t = to_chars(self.token_content.as_str());
        match first_occurrence(s.as_slice(), t.as_slice()) {
            Some(i) => {
                proof {
                    lemma_utf8_len_prefix_mono(s@, i as nat, s@.len());
                    assert(s@.subrange(0, s@.len() as int) =~= s@);
                }
                utf8_prefix_len(s.as_slice(), i)
            },
            None => 0,
        }
    }

    /// The one-line report for `filename` (see `normal_report`).
    pub fn format_normal(&self, filename: &str) -> (r: String)
        ensures
            r@ == normal_report(
                filename@,
                self.error_name@,
                self.error_code as nat,
                self.line_number as nat,
                self.source_line@,
                self.token_content@,
            ),
    {
        let mut v: Vec<char> = Vec::new();
        push_str(&mut v, "[Error!]In ");
        push_str(&mut v, filename);
        push_str(&mut v, " Detected ");
        push_str(&mut v, self.error_name.as_str());
        push_str(&mut v, ",Code ");
        let code = decimal_chars(self.error_code as u64);
        push_chars(&mut v, code.as_slice());
        push_str(&mut v, " at line ");
        let line = decimal_chars(self.line_number as u64);
        push_chars(&mut v, line.as_slice());
        push_str(&mut v, ".Source:");
        let src = to_chars(self.source_line.as_str());
        let trimmed = trim_chars(src.as_slice());
        push_chars(&mut v, trimmed.as_slice());
        push_str(&mut v, "<-[HERE!]");
        push_str(&mut v, self.token_content.as_str());
        chars_to_string(&v)
    }

    /// The multi-line report for `filename` (see `verbose_report`), with the caret under
    /// the token's byte offset as `find_token_position_in_line` gives it.
    pub fn format_verbose(&self, filename: &str) -> (r: String)
        requires
            utf8_len(self.source_line@) + 4 <= usize::MAX,
        ensures
            r@ == verbose_report(
                filename@,
                self.error_name@,
                self.error_code as nat,
                self.line_number as nat,
                self.source_line@,
                match find_bytes(self.source_line@, self.token_content@) {
                    Some(p) => p,
                    None => 0,
                },
            ),
    {
        let arrow_pos = self.find_token_position_in_line();
        let src = to_chars(self.source_line.as_str());
        proof {
            assert(src@.subrange(0, src@.len() as int) =~= src@);
        }
        let src_bytes = utf8_prefix_len(src.as_slice(), src.len());
        let mut v: Vec<char> = Vec::new();
        push_str(&mut v, "[Error!]In ");
        push_str(&mut v, filename);
        push_str(&mut v, " Detected ");
        push_str(&mut v, self.error_name.as_str());
        push_str(&mut v, ", Code ");
        let code = decimal_chars(self.error_code as u64);
        push_chars(&mut v, code.as_slice());
        push_str(&mut v, "\nAt ");
        let line = decimal_chars(self.line_number as u64);
        push_chars(&mut v, line.as_slice());
        push_str(&mut v, ", Source:\n");
        push_repeat(&mut v, '~', src_bytes + 4);
        push_str(&mut v, "\n");
        let trimmed = trim_chars(src.as_slice());
        push_chars(&mut v, trimmed.as_slice());
        push_str(&mut v, "\n");
        push_str(&mut v, "   ");
        push_repeat(&mut v, ' ', arrow_pos);
        push_str(&mut v, "^");
        chars_to_string(&v)
    }

    /// The one-line description the `V5` toolchain prints for an error:
    /// `SyntaxError [<name>]: code=<code>, line=<line>, token='<token>', source='<source>'`.
    pub fn describe(&self) -> (r: String)
        ensures
            r@ == "SyntaxError ["@ + self.error_name@ + "]: code="@ + decimal(
                self.error_code as nat,
            ) + ", line="@ + decimal(self.line_number as nat) + ", token='"@ + self.token_content@
                + "', source='"@ + self.source_line@ + "'"@,
    {
        let mut v: Vec<char> = Vec::new();
        push_str(&mut v, "SyntaxError [");
        push_str(&mut v, self.error_name.as_str());
        push_str(&mut v, "]: code=");
        let code = decimal_chars(self.error_code as u64);
        push_chars(&mut v, code.as_slice());
        push_str(&mut v, ", line=");
        let line = decimal_chars(self.line_number as u64);
        push_chars(&mut v, line.as_slice());
        push_str(&mut v, ", token='");
        push_str(&mut v, self.token_content.as_str());
        push_str(&mut v, "', source='");
        push_str(&mut v, self.source_line.as_str());
        push_str(&mut v, "'");
        chars_to_string(&v)
    }
}

} // verus!
