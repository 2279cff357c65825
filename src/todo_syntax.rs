//! What a single-line TODO comment is, stated over the characters of a line.
use vstd::prelude::*;

verus! {

/// Whitespace as the regex engine's `\s` class knows it: the Unicode
/// `White_Space` property.
pub open spec fn is_space(c: char) -> bool {
    ('\t' <= c && c <= '\r') || c == ' ' || c == '\u{85}' || c == '\u{a0}' || c == '\u{1680}'
        || ('\u{2000}' <= c && c <= '\u{200a}') || c == '\u{2028}' || c == '\u{2029}'
        || c == '\u{202f}' || c == '\u{205f}' || c == '\u{3000}'
}

/// Every character of `s` is whitespace.
pub open spec fn all_space(s: Seq<char>) -> bool {
    forall|k: int| 0 <= k < s.len() ==> is_space(#[trigger] s[k])
}

/// `s` holds no line break.
pub open spec fn single_line(s: Seq<char>) -> bool {
    !s.contains('\n')
}

/// `s` is one line ended by a single line break.
pub open spec fn terminated_line(s: Seq<char>) -> bool {
    s.len() > 0 && s.last() == '\n' && single_line(s.drop_last())
}

/// The first line break at or after `i`, or the end of `s`.
pub open spec fn line_end(s: Seq<char>, i: int) -> int
    decreases s.len() - i,
{
    if 0 <= i < s.len() && s[i] != '\n' {
        line_end(s, i + 1)
    } else {
        i
    }
}

/// The characters of `s` before its first line break.
pub open spec fn first_line(s: Seq<char>) -> Seq<char> {
    s.take(line_end(s, 0))
}

/// The first position at or after `i` that holds no whitespace (or the end).
pub open spec fn skip_space(s: Seq<char>, i: int) -> int
    decreases s.len() - i,
{
    if 0 <= i < s.len() && is_space(s[i]) {
        skip_space(s, i + 1)
    } else {
        i
    }
}

/// The end of `s[i..j]` once its trailing whitespace is cut off.
pub open spec fn trim_end(s: Seq<char>, i: int, j: int) -> int
    decreases j - i,
{
    if i < j && is_space(s[j - 1]) {
        trim_end(s, i, j - 1)
    } else {
        j
    }
}

/// The marker that a TODO comment carries after its introducer.
pub open spec fn todo_marker() -> Seq<char> {
    seq!['T', 'O', 'D', 'O', ':']
}

/// Where the text after the comment introducer starts, if the first
/// non-whitespace content of `line` is `//` or `#`.
pub open spec fn after_introducer(line: Seq<char>) -> Option<int> {
    let a = skip_space(line, 0);
    if a + 2 <= line.len() && line[a] == '/' && line[a + 1] == '/' {
        Some(a + 2)
    } else if a < line.len() && line[a] == '#' {
        Some(a + 1)
    } else {
        None
    }
}

/// The body of the TODO comment that `line` holds: the line is, after optional
/// whitespace, `//` or `#`, optional whitespace, `TODO:`, and a body with at
/// least one non-whitespace character; the body is returned without its
/// surrounding whitespace. `None` for every other line.
pub open spec fn todo_body(line: Seq<char>) -> Option<Seq<char>> {
    match after_introducer(line) {
        None => None,
        Some(b) => {
            let c = skip_space(line, b);
            if c + 5 <= line.len() && line.subrange(c, c + 5) == todo_marker() {
                let d = skip_space(line, c + 5);
                let e = trim_end(line, d, line.len() as int);
                if d < e {
                    Some(line.subrange(d, e))
                } else {
                    None
                }
            } else {
                None
            }
        },
    }
}

/// `skip_space` stops at the first non-whitespace position, passing only whitespace.
pub proof fn lemma_skip_space(s: Seq<char>, i: int)
    requires
        0 <= i <= s.len(),
    ensures
        i <= skip_space(s, i) <= s.len(),
        forall|k: int| i <= k < skip_space(s, i) ==> is_space(#[trigger] s[k]),
        skip_space(s, i) < s.len() ==> !is_space(s[skip_space(s, i)]),
    decreases s.len() - i,
{
    if i < s.len() && is_space(s[i]) {
        lemma_skip_space(s, i + 1);
    }
}

/// A position reached from `i` over whitespace alone, and holding none, is where
/// `skip_space` stops.
pub proof fn lemma_skip_space_at(s: Seq<char>, i: int, j: int)
    requires
        0 <= i <= j <= s.len(),
        forall|k: int| i <= k < j ==> is_space(#[trigger] s[k]),
        j < s.len() ==> !is_space(s[j]),
    ensures
        skip_space(s, i) == j,
    decreases j - i,
{
    if i < j {
        lemma_skip_space_at(s, i + 1, j);
    }
}

/// `trim_end` cuts whitespace alone, and stops after a non-whitespace character.
pub proof fn lemma_trim_end(s: Seq<char>, i: int, j: int)
    requires
        0 <= i <= j <= s.len(),
    ensures
        i <= trim_end(s, i, j) <= j,
        forall|k: int| trim_end(s, i, j) <= k < j ==> is_space(#[trigger] s[k]),
        i < trim_end(s, i, j) ==> !is_space(s[trim_end(s, i, j) - 1]),
    decreases j - i,
{
    if i < j && is_space(s[j - 1]) {
        lemma_trim_end(s, i, j - 1);
    }
}

/// A position after a non-whitespace character, followed by whitespace alone up
/// to `j`, is where `trim_end` stops.
pub proof fn lemma_trim_end_at(s: Seq<char>, i: int, e: int, j: int)
    requires
        0 <= i < e <= j <= s.len(),
        !is_space(s[e - 1]),
        forall|k: int| e <= k < j ==> is_space(#[trigger] s[k]),
    ensures
        trim_end(s, i, j) == e,
    decreases j - e,
{
    if e < j {
        lemma_trim_end_at(s, i, e, j - 1);
    }
}

/// `s` is one of the two comment introducers, `//` and `#`.
pub open spec fn is_introducer(s: Seq<char>) -> bool {
    s == seq!['/', '/'] || s == seq!['#']
}

/// `line` is `w1`, an introducer, `w2`, `TODO:`, `w3`, `body` and `w4`, where the
/// `w`s are whitespace and `body` starts and ends with a non-whitespace character.
pub open spec fn todo_shaped(
    line: Seq<char>,
    w1: Seq<char>,
    intro: Seq<char>,
    w2: Seq<char>,
    w3: Seq<char>,
    body: Seq<char>,
    w4: Seq<char>,
) -> bool {
    &&& line == w1 + intro + w2 + todo_marker() + w3 + body + w4
    &&& all_space(w1) && all_space(w2) && all_space(w3) && all_space(w4)
    &&& is_introducer(intro)
    &&& body.len() > 0
    &&& !is_space(body[0])
    &&& !is_space(body.last())
}

/// A line of TODO shape yields its body, with the whitespace around it cut off.
pub proof fn todo_line_yields_body(
    line: Seq<char>,
    w1: Seq<char>,
    intro: Seq<char>,
    w2: Seq<char>,
    w3: Seq<char>,
    body: Seq<char>,
    w4: Seq<char>,
)
    requires
        todo_shaped(line, w1, intro, w2, w3, body, w4),
    ensures
        todo_body(line) == Some(body),
{
    let a = w1.len() as int;
    let b = a + intro.len();
    let c = b + w2.len();
    let d = c + 5 + w3.len();
    let e = d + body.len();
    let n = line.len() as int;
    assert(n == e + w4.len());
    assert forall|k: int| 0 <= k < a implies is_space(#[trigger] line[k]) by {
        assert(line[k] == w1[k]);
    }
    assert(line[a] == intro[0]);
    lemma_skip_space_at(line, 0, a);
    if intro == seq!['/', '/'] {
        assert(line[a + 1] == intro[1]);
    }
    assert(after_introducer(line) == Some(b));
    assert forall|k: int| b <= k < c implies is_space(#[trigger] line[k]) by {
        assert(line[k] == w2[k - b]);
    }
    assert(line.subrange(c, c + 5) =~= todo_marker());
    assert(line[c] == 'T');
    lemma_skip_space_at(line, b, c);
    assert forall|k: int| c + 5 <= k < d implies is_space(#[trigger] line[k]) by {
        assert(line[k] == w3[k - c - 5]);
    }
    assert(line[d] == body[0]);
    lemma_skip_space_at(line, c + 5, d);
    assert forall|k: int| e <= k < n implies is_space(#[trigger] line[k]) by {
        assert(line[k] == w4[k - e]);
    }
    assert(line[e - 1] == body.last());
    lemma_trim_end_at(line, d, e, n);
    assert(line.subrange(d, e) =~= body);
}

/// A line that yields a body is of TODO shape around that body.
pub proof fn todo_body_has_todo_shape(line: Seq<char>)
    requires
        todo_body(line) is Some,
    ensures
        exists|w1: Seq<char>, intro: Seq<char>, w2: Seq<char>, w3: Seq<char>, w4: Seq<char>|
            #[trigger] todo_shaped(line, w1, intro, w2, w3, todo_body(line)->0, w4),
{
    let n = line.len() as int;
    let a = skip_space(line, 0);
    lemma_skip_space(line, 0);
    let b = after_introducer(line)->0;
    lemma_skip_space(line, b);
    let c = skip_space(line, b);
    lemma_skip_space(line, c + 5);
    let d = skip_space(line, c + 5);
    lemma_trim_end(line, d, n);
    let e = trim_end(line, d, n);
    let w1 = line.subrange(0, a);
    let intro = line.subrange(a, b);
    let w2 = line.subrange(b, c);
    let w3 = line.subrange(c + 5, d);
    let body = line.subrange(d, e);
    let w4 = line.subrange(e, n);
    assert(body == todo_body(line)->0);
    if b == a + 2 {
        assert(intro =~= seq!['/', '/']);
    } else {
        assert(intro =~= seq!['#']);
    }
    assert(line.subrange(c, c + 5) == todo_marker());
    assert(line =~= w1 + intro + w2 + line.subrange(c, c + 5) + w3 + body + w4);
    assert(all_space(w1));
    assert(all_space(w2));
    assert(all_space(w3));
    assert(all_space(w4));
    assert(todo_shaped(line, w1, intro, w2, w3, body, w4));
}

/// An introducer and `TODO:` with nothing but whitespace after it yield nothing.
pub proof fn marker_without_body_yields_nothing(
    line: Seq<char>,
    w1: Seq<char>,
    intro: Seq<char>,
    w2: Seq<char>,
    w3: Seq<char>,
)
    requires
        line == w1 + intro + w2 + todo_marker() + w3,
        all_space(w1),
        all_space(w2),
        all_space(w3),
        is_introducer(intro),
    ensures
        todo_body(line) is None,
{
    let a = w1.len() as int;
    let b = a + intro.len();
    let c = b + w2.len();
    let n = line.len() as int;
    assert(n == c + 5 + w3.len());
    assert forall|k: int| 0 <= k < a implies is_space(#[trigger] line[k]) by {
        assert(line[k] == w1[k]);
    }
    assert(line[a] == intro[0]);
    lemma_skip_space_at(line, 0, a);
    if intro == seq!['/', '/'] {
        assert(line[a + 1] == intro[1]);
    }
    assert(after_introducer(line) == Some(b));
    assert forall|k: int| b <= k < c implies is_space(#[trigger] line[k]) by {
        assert(line[k] == w2[k - b]);
    }
    assert(line.subrange(c, c + 5) =~= todo_marker());
    assert(line[c] == 'T');
    lemma_skip_space_at(line, b, c);
    assert forall|k: int| c + 5 <= k < n implies is_space(#[trigger] line[k]) by {
        assert(line[k] == w3[k - c - 5]);
    }
    lemma_skip_space_at(line, c + 5, n);
}

/// A line whose first non-whitespace character starts no comment (code, with a
/// TODO comment after it or not) yields nothing.
pub proof fn code_first_yields_nothing(line: Seq<char>, k: int)
    requires
        0 <= k < line.len(),
        all_space(line.take(k)),
        !is_space(line[k]),
        line[k] != '/',
        line[k] != '#',
    ensures
        todo_body(line) is None,
{
    assert forall|j: int| 0 <= j < k implies is_space(#[trigger] line[j]) by {
        assert(line[j] == line.take(k)[j]);
    }
    lemma_skip_space_at(line, 0, k);
}

} // verus!
