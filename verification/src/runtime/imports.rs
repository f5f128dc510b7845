//! Imports in a script: which lines name a file to put in their place, what an import
//! answers once its path is checked and its file read, and the script put back together.
use vstd::prelude::*;
use crate::text::{spec_lines, split_lines, to_chars, chars_to_string};
use crate::runtime::grammar::{import_target, import_target_spec};

verus! {

/// One line of a script as imports see it: text that stays, or the file that an
/// `Import` line names.
pub enum ImportLine {
    Text(String),
    Import(String),
}

/// A line of a script seen as values.
pub enum ImportLineV {
    Text(Seq<char>),
    Import(Seq<char>),
}

impl DeepView for ImportLine {
    type V = ImportLineV;

    open spec fn deep_view(&self) -> ImportLineV {
        match self {
            ImportLine::Text(t) => ImportLineV::Text(t@),
            ImportLine::Import(f) => ImportLineV::Import(f@),
        }
    }
}

/// How imports see one line.
pub open spec fn import_line_spec(line: Seq<char>) -> ImportLineV {
    match import_target_spec(line) {
        Some(f) => ImportLineV::Import(f),
        None => ImportLineV::Text(line),
    }
}

/// The lines of `content` (as `str::lines` gives them), each seen as imports see it.
pub open spec fn import_plan_spec(content: Seq<char>) -> Seq<ImportLineV> {
    spec_lines(content).map_values(|l: Seq<char>| import_line_spec(l))
}

/// The lines of `content`, each either kept as text or naming the file to import in its
/// place (see `import_plan_spec`).
pub fn import_plan(content: &str) -> (r: Vec<ImportLine>)
    ensures
        r.deep_view() == import_plan_spec(content@),
{
    let chars = to_chars(content);
    let lines = split_lines(chars.as_slice());
    let ghost ls = spec_lines(content@);
    let mut r: Vec<ImportLine> = Vec::new();
    let mut i: usize = 0;
    while i < lines.len()
        invariant
            lines@.len() == ls.len(),
            forall|k: int| 0 <= k < lines@.len() ==> #[trigger] lines@[k]@ == ls[k],
            i <= lines@.len(),
            r@.len() == i,
            forall|k: int| 0 <= k < i ==> #[trigger] r@[k].deep_view() == import_line_spec(ls[k]),
        decreases lines@.len() - i,
    {
        let line = chars_to_string(&lines[i]);
        let piece = match import_target(line.as_str()) {
            Some(f) => ImportLine::Import(f),
            None => ImportLine::Text(line),
        };
        r.push(piece);
        i = i + 1;
    }
    assert(r.deep_view() =~= import_plan_spec(content@));
    r
}

/// The pieces of a script put back together, each followed by a line break.
pub open spec fn joined_spec(parts: Seq<Seq<char>>) -> Seq<char>
    decreases parts.len(),
{
    if parts.len() == 0 {
        Seq::empty()
    } else {
        joined_spec(parts.drop_last()) + parts.last() + seq!['\n']
    }
}

/// The pieces of a script (its lines, with each imported file in place of its `Import`
/// line) put back together, each followed by a line break.
pub fn join_lines(parts: &Vec<String>) -> (r: String)
    ensures
        r@ == joined_spec(parts@.map_values(|p: String| p@)),
{
    let ghost ps = parts@.map_values(|p: String| p@);
    let mut r = String::new();
    let mut i: usize = 0;
    while i < parts.len()
        invariant
            i <= parts@.len(),
            ps == parts@.map_values(|p: String| p@),
            r@ == joined_spec(ps.take(i as int)),
        decreases parts@.len() - i,
    {
        r.append(parts[i].as_str());
        r.append("\n");
        proof {
            reveal_strlit("\n");
            assert(ps.take(i + 1).drop_last() =~= ps.take(i as int));
            assert(ps.take(i + 1).last() == parts@[i as int]@);
        }
        i = i + 1;
    }
    assert(ps.take(parts@.len() as int) =~= ps);
    r
}

/// The answer to an `Import` whose path, joined to the script's directory, does or does
/// not stay inside that directory (`inside`, as the caller's path check found): going
/// on, or the refusal of a directory traversal.
pub fn check_import_path(inside: bool) -> (r: Result<(), String>)
    ensures
        inside ==> r is Ok,
        !inside ==> (r matches Err(e) && e@ == "Directory traversal attempt detected in Import"@),
{
    if inside {
        Ok(())
    } else {
        Err("Directory traversal attempt detected in Import".to_string())
    }
}

/// The text that an `Import` puts in place of its line, given how reading the file went
/// (`Err` holds the reader's message): the file's text, or the import's failure.
pub fn imported_text(read: Result<String, String>) -> (r: Result<String, String>)
    ensures
        read matches Ok(t) ==> (r matches Ok(u) && u@ == t@),
        read matches Err(e) ==> (r matches Err(m) && m@ == "Import failed: "@ + e@),
{
    match read {
        Ok(t) => Ok(t),
        Err(e) => {
            let mut m = "Import failed: ".to_string();
            m.append(e.as_str());
            Err(m)
        },
    }
}

} // verus!
