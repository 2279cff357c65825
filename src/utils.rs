use crate::todo_syntax::{first_line, single_line, terminated_line, todo_body};
use vstd::prelude::*;

verus! {

/// The source languages whose files are scanned, by file extension.
#[derive(Debug, PartialEq, Eq, Structural)]
pub enum FileExtension {
    Rust,
    Python,
    Java,
    TypeScript,
    JavaScript,
}

/// The language that an extension names, if it is one of the recognized ones.
pub open spec fn extension_language(ext: Seq<char>) -> Option<FileExtension> {
    if ext == "rs"@ {
        Some(FileExtension::Rust)
    } else if ext == "py"@ {
        Some(FileExtension::Python)
    } else if ext == "java"@ {
        Some(FileExtension::Java)
    } else if ext == "ts"@ {
        Some(FileExtension::TypeScript)
    } else if ext == "js"@ {
        Some(FileExtension::JavaScript)
    } else {
        None
    }
}

/// Whether two strings hold the same characters.
fn str_equal(a: &str, b: &str) -> (r: bool)
    ensures
        r == (a@ == b@),
{
    let n = a.unicode_len();
    if n != b.unicode_len() {
        return false;
    }
    let mut i: usize = 0;
    while i < n
        invariant
            n == a@.len(),
            n == b@.len(),
            i <= n,
            forall|k: int| 0 <= k < i ==> a@[k] == b@[k],
        decreases n - i,
    {
        if a.get_char(i) != b.get_char(i) {
            return false;
        }
        i += 1;
    }
    assert(a@ =~= b@);
    true
}

impl FileExtension {
    /// Recognizes an extension, case-sensitively.
    pub fn from_str(ext: &str) -> (r: Option<FileExtension>)
        ensures
            r == extension_language(ext@),
    {
        if str_equal(ext, "rs") {
            Some(FileExtension::Rust)
        } else if str_equal(ext, "py") {
            Some(FileExtension::Python)
        } else if str_equal(ext, "java") {
            Some(FileExtension::Java)
        } else if str_equal(ext, "ts") {
            Some(FileExtension::TypeScript)
        } else if str_equal(ext, "js") {
            Some(FileExtension::JavaScript)
        } else {
            None
        }
    }
}

#[verifier::external_type_specification]
#[verifier::external_body]
pub struct ExRegex(regex::Regex);

#[verifier::external_type_specification]
#[verifier::external_body]
pub struct ExRegexError(regex::Error);

/// Relies on regex::Regex::new, which compiles a pattern or reports why it cannot:
/// the TODO comment pattern is valid syntax and far below the default size limit,
/// so it compiles.
pub assume_specification[ regex::Regex::new ](re: &str) -> (r: Result<regex::Regex, regex::Error>)
    ensures
        re@ == r"(?m)^(?:\s*//|\s*#)\s*TODO:\s*(.*\S)\s*$"@ ==> r is Ok,
;

/// The compiled pattern of a TODO comment line, built once and shared by
/// every call that scans a line.
pub struct TodoPattern {
    re: regex::Regex,
}

impl TodoPattern {
    /// Compiles the TODO comment pattern, which always succeeds.
    pub fn new() -> (r: Option<TodoPattern>)
        ensures
            r is Some,
    {
        match regex::Regex::new(r"(?m)^(?:\s*//|\s*#)\s*TODO:\s*(.*\S)\s*$") {
            Ok(re) => Some(TodoPattern { re }),
            Err(_) => None,
        }
    }
}

/// The characters of an optional string.
pub open spec fn text_view(o: Option<String>) -> Option<Seq<char>> {
    match o {
        Some(s) => Some(s@),
        None => None,
    }
}

/// Relies on regex::Regex::captures, regex::Captures::get and regex::Match::as_str.
/// The field of a `TodoPattern` is set by `TodoPattern::new` alone, from the pattern
/// `(?m)^(?:\s*//|\s*#)\s*TODO:\s*(.*\S)\s*$`. On a line without a line break that
/// pattern can only match from the start of the line; `\s` is Unicode whitespace,
/// `.` any character but a line break, and the leftmost-first, greedy semantics
/// that the crate documents make the first group run from the first to the last
/// non-whitespace character after `TODO:`. In multi-line mode `$` also matches
/// before a line break, so a single line break at the end changes nothing; and
/// where the first line of a longer text matches, the leftmost match starts at
/// the start of the text and its group ends within that first line.
#[verifier::external_body]
fn capture_todo_body(pattern: &TodoPattern, line: &str) -> (r: Option<String>)
    ensures
        single_line(line@) ==> text_view(r) == todo_body(line@),
        terminated_line(line@) ==> text_view(r) == todo_body(line@.drop_last()),
        todo_body(first_line(line@)) is Some ==> text_view(r) == todo_body(first_line(line@)),
{
    match pattern.re.captures(line) {
        Some(caps) => Some(caps.get(1).map_or(String::new(), |m| m.as_str().to_string())),
        None => None,
    }
}

/// Extracts the body of the single-line TODO comment that `line` holds, if any.
/// A line break that ends the line is not part of it; where a longer text is
/// given and its first line holds a TODO comment, that comment's body is returned.
pub fn extract_todo_comment(line: &str, todo_pattern: &TodoPattern) -> (r: Option<String>)
    ensures
        single_line(line@) ==> text_view(r) == todo_body(line@),
        terminated_line(line@) ==> text_view(r) == todo_body(line@.drop_last()),
        todo_body(first_line(line@)) is Some ==> text_view(r) == todo_body(first_line(line@)),
{
    capture_todo_body(todo_pattern, line)
}

/// The last position before `j` that holds `c`, or -1.
pub open spec fn last_index_of(s: Seq<char>, c: char, j: int) -> int
    decreases j,
{
    if j <= 0 {
        -1
    } else if s[j - 1] == c {
        j - 1
    } else {
        last_index_of(s, c, j - 1)
    }
}

/// The last component of a `/`-separated path.
pub open spec fn file_name(path: Seq<char>) -> Seq<char> {
    path.subrange(last_index_of(path, '/', path.len() as int) + 1, path.len() as int)
}

/// What follows the last `.` of the file name, if it holds one.
pub open spec fn file_extension(path: Seq<char>) -> Option<Seq<char>> {
    let name = file_name(path);
    let k = last_index_of(name, '.', name.len() as int);
    if k >= 0 {
        Some(name.subrange(k + 1, name.len() as int))
    } else {
        None
    }
}

/// A regular file whose extension names one of the recognized languages.
pub open spec fn supported_file(path: Seq<char>, is_file: bool) -> bool {
    is_file && match file_extension(path) {
        Some(ext) => extension_language(ext) is Some,
        None => false,
    }
}

proof fn lemma_last_index_of(s: Seq<char>, c: char, j: int)
    requires
        0 <= j <= s.len(),
    ensures
        -1 <= last_index_of(s, c, j) < j,
        last_index_of(s, c, j) >= 0 ==> s[last_index_of(s, c, j)] == c,
        forall|k: int| last_index_of(s, c, j) < k < j ==> s[k] != c,
    decreases j,
{
    if j > 0 && s[j - 1] != c {
        lemma_last_index_of(s, c, j - 1);
    }
}

/// The position of the last `c` in `s`, if any.
fn find_last(s: &str, c: char) -> (r: Option<usize>)
    ensures
        match r {
            Some(k) => k < s@.len() && k == last_index_of(s@, c, s@.len() as int),
            None => last_index_of(s@, c, s@.len() as int) == -1,
        },
{
    let mut j = s.unicode_len();
    proof {
        lemma_last_index_of(s@, c, j as int);
    }
    while j > 0
        invariant
            j <= s@.len(),
            last_index_of(s@, c, s@.len() as int) == last_index_of(s@, c, j as int),
        decreases j,
    {
        if s.get_char(j - 1) == c {
            return Some(j - 1);
        }
        j -= 1;
    }
    None
}

/// The extension of the file that `path` names, as `file_extension` states it.
fn extension_of(path: &str) -> (r: Option<&str>)
    ensures
        match r {
            Some(e) => file_extension(path@) == Some(e@),
            None => file_extension(path@) is None,
        },
{
    let n = path.unicode_len();
    let start = match find_last(path, '/') {
        Some(k) => k + 1,
        None => 0,
    };
    proof {
        lemma_last_index_of(path@, '/', n as int);
    }
    let name = path.substring_char(start, n);
    assert(name@ == file_name(path@));
    match find_last(name, '.') {
        Some(k) => Some(name.substring_char(k + 1, name.unicode_len())),
        _ => None,
    }
}

/// Whether an entry is a regular file of one of the recognized languages.
pub fn is_supported_file(path: &str, is_file: bool) -> (r: bool)
    ensures
        r == supported_file(path@, is_file),
{
    if !is_file {
        return false;
    }
    match extension_of(path) {
        Some(ext) => FileExtension::from_str(ext).is_some(),
        None => false,
    }
}

/// One TODO comment found in a file: where it stands and what it says.
pub struct TodoRecord {
    pub file_path: String,
    /// The 1-based number of the line.
    pub line_number: usize,
    pub comment_text: String,
}

impl View for TodoRecord {
    type V = (Seq<char>, nat, Seq<char>);

    open spec fn view(&self) -> (Seq<char>, nat, Seq<char>) {
        (self.file_path@, self.line_number as nat, self.comment_text@)
    }
}

/// The characters of each line.
pub open spec fn lines_view(lines: Seq<String>) -> Seq<Seq<char>> {
    lines.map_values(|l: String| l@)
}

/// The records of the TODO comments among `lines`, numbered from 1, in order.
pub open spec fn todo_records(path: Seq<char>, lines: Seq<Seq<char>>) -> Seq<(Seq<char>, nat, Seq<char>)>
    decreases lines.len(),
{
    if lines.len() == 0 {
        seq![]
    } else {
        let earlier = todo_records(path, lines.drop_last());
        match todo_body(lines.last()) {
            Some(body) => earlier.push((path, lines.len(), body)),
            None => earlier,
        }
    }
}

/// Each record names the file, stands for a line (counted from 1) that holds a
/// TODO comment and carries that comment's body; line numbers increase from one
/// record to the next; and no line that holds a TODO comment is left without a record.
pub proof fn todo_records_follow_lines(path: Seq<char>, lines: Seq<Seq<char>>)
    ensures
        forall|i: int|
            0 <= i < todo_records(path, lines).len() ==> {
                let rec = #[trigger] todo_records(path, lines)[i];
                &&& rec.0 == path
                &&& 1 <= rec.1 <= lines.len()
                &&& todo_body(lines[rec.1 - 1]) == Some(rec.2)
            },
        forall|i: int, j: int|
            0 <= i < j < todo_records(path, lines).len() ==> #[trigger] todo_records(
                path,
                lines,
            )[i].1 < #[trigger] todo_records(path, lines)[j].1,
        forall|k: int|
            0 <= k < lines.len() && #[trigger] todo_body(lines[k]) is Some ==> exists|i: int|
                0 <= i < todo_records(path, lines).len() && #[trigger] todo_records(
                    path,
                    lines,
                )[i].1 == k + 1,
    decreases lines.len(),
{
    if lines.len() > 0 {
        let earlier_lines = lines.drop_last();
        let earlier = todo_records(path, earlier_lines);
        let all = todo_records(path, lines);
        todo_records_follow_lines(path, earlier_lines);
        assert forall|k: int| 0 <= k < earlier_lines.len() implies earlier_lines[k] == lines[k] by {}
        assert forall|k: int|
            0 <= k < lines.len() && #[trigger] todo_body(lines[k]) is Some implies exists|i: int|
                0 <= i < all.len() && #[trigger] all[i].1 == k + 1 by {
            if k < earlier_lines.len() {
                assert(todo_body(earlier_lines[k]) is Some);
                let i = choose|i: int| 0 <= i < earlier.len() && #[trigger] earlier[i].1 == k + 1;
                assert(all[i] == earlier[i]);
            } else {
                assert(all[earlier.len() as int].1 == k + 1);
            }
        }
    }
}

/// Every line is free of line breaks.
pub open spec fn all_single_line(lines: Seq<Seq<char>>) -> bool {
    forall|k: int| 0 <= k < lines.len() ==> single_line(#[trigger] lines[k])
}

/// The records of a sequence of records.
pub open spec fn records_view(records: Seq<TodoRecord>) -> Seq<(Seq<char>, nat, Seq<char>)> {
    records.map_values(|t: TodoRecord| t@)
}

/// Scans the lines of the file at `path`, in order, and returns a record for each
/// line that holds a TODO comment.
pub fn process_file(path: &str, lines: &Vec<String>, todo_pattern: &TodoPattern) -> (r: Vec<
    TodoRecord,
>)
    ensures
        all_single_line(lines_view(lines@)) ==> records_view(r@) == todo_records(
            path@,
            lines_view(lines@),
        ),
{
    let ghost all = lines_view(lines@);
    let mut out: Vec<TodoRecord> = Vec::new();
    let mut i: usize = 0;
    while i < lines.len()
        invariant
            i <= lines@.len(),
            all == lines_view(lines@),
            all_single_line(all) ==> records_view(out@) == todo_records(path@, all.take(i as int)),
        decreases lines@.len() - i,
    {
        let found = extract_todo_comment(lines[i].as_str(), todo_pattern);
        let ghost before = out@;
        proof {
            assert(all.take(i as int + 1).drop_last() =~= all.take(i as int));
            assert(all.take(i as int + 1).last() == lines@[i as int]@);
        }
        match found {
            Some(text) => {
                out.push(
                    TodoRecord {
                        file_path: String::from_str(path),
                        line_number: i + 1,
                        comment_text: text,
                    },
                );
                assert(records_view(out@) =~= records_view(before).push(out@.last()@));
            },
            None => {},
        }
        i += 1;
    }
    assert(all.take(lines@.len() as int) =~= all);
    out
}

} // verus!
