//! Pattern detection in source files: repeated code blocks (refactoring
//! opportunities) and piles of debug statements.
use vstd::prelude::*;
use crate::text::{
    contains_str, cut_comment, join_strings, lines_of, spec_contains, spec_cut_comment, spec_join, spec_lines,
    spec_strings, spec_strs, spec_take_at_most, spec_trim, trim_str, truncate_chars, word_in_list,
};

verus! {

/// Smallest repeated block worth reporting, in lines.
pub const MIN_DUPLICATE_LINES: usize = 3;

/// Largest block size tried, in lines.
pub const MAX_DUPLICATE_LINES: usize = 10;

/// Number of characters of a snippet.
pub const SNIPPET_CHARS: usize = 200;

/// A line without surrounding whitespace and without its `//` comment.
pub open spec fn spec_normalize_line(l: Seq<char>) -> Seq<char> {
    spec_cut_comment(spec_trim(l))
}

/// The normalised lines of a block that are not empty, in order.
pub open spec fn spec_kept_lines(ls: Seq<Seq<char>>) -> Seq<Seq<char>>
    decreases ls.len(),
{
    if ls.len() == 0 {
        Seq::empty()
    } else {
        let prev = spec_kept_lines(ls.drop_last());
        let n = spec_normalize_line(ls.last());
        if n.len() > 0 { prev.push(n) } else { prev }
    }
}

/// A block of lines normalised for comparison: trimmed, comments removed,
/// empty lines dropped, joined with newlines.
pub open spec fn spec_normalize_block(ls: Seq<Seq<char>>) -> Seq<char> {
    spec_join(spec_kept_lines(ls), "\n"@)
}

/// Normalises a block of lines for comparison.
pub fn normalize_code_block(lines: &[String]) -> (r: String)
    ensures
        r@ == spec_normalize_block(spec_strings(lines@)),
{
    let ghost ls = spec_strings(lines@);
    let mut kept: Vec<String> = Vec::new();
    let mut i: usize = 0;
    while i < lines.len()
        invariant
            0 <= i <= lines@.len(),
            ls == spec_strings(lines@),
            spec_strings(kept@) == spec_kept_lines(ls.take(i as int)),
        decreases lines@.len() - i,
    {
        proof {
            assert(ls.take(i + 1).drop_last() =~= ls.take(i as int));
            assert(ls.take(i + 1).last() == lines@[i as int]@);
        }
        let t = trim_str(lines[i].as_str());
        let c = cut_comment(t);
        if c.unicode_len() > 0 {
            let ghost before = spec_strings(kept@);
            kept.push(String::from_str(c));
            assert(spec_strings(kept@) =~= before.push(c@));
        }
        i = i + 1;
    }
    assert(ls.take(lines@.len() as int) =~= ls);
    join_strings(kept.as_slice(), "\n")
}

/// The normalised block of `w` lines starting at line `i`.
pub open spec fn spec_block(ls: Seq<Seq<char>>, w: int, i: int) -> Seq<char> {
    spec_normalize_block(ls.subrange(i, i + w))
}

/// The block of `w` lines at `i` is not blank and occurs again further down.
pub open spec fn spec_dup_at(ls: Seq<Seq<char>>, w: int, i: int) -> bool {
    &&& 0 <= i && i + w <= ls.len()
    &&& spec_trim(spec_block(ls, w, i)).len() > 0
    &&& exists|j: int| i < j && j + w <= ls.len() && #[trigger] spec_block(ls, w, j) == spec_block(ls, w, i)
}

/// Some block of `w` lines is repeated.
pub open spec fn spec_has_dup(ls: Seq<Seq<char>>, w: int) -> bool {
    exists|i: int| #[trigger] spec_dup_at(ls, w, i)
}

/// Block sizes tried on a file of `n` lines: 3 to 10, at most half the file.
pub open spec fn spec_eligible(n: int, w: int) -> bool {
    MIN_DUPLICATE_LINES <= w <= MAX_DUPLICATE_LINES && w <= n / 2
}

/// Start lines (0-based, ascending, below `m`) of the blocks of `w` lines
/// equal to `b`.
pub open spec fn spec_occurrences(ls: Seq<Seq<char>>, w: int, b: Seq<char>, m: int) -> Seq<usize>
    decreases m,
{
    if m <= 0 {
        Seq::empty()
    } else {
        let prev = spec_occurrences(ls, w, b, m - 1);
        if spec_block(ls, w, m - 1) == b { prev.push((m - 1) as usize) } else { prev }
    }
}

/// A repeated block found in a file.
#[derive(Debug, Clone)]
pub struct RefactoFinding {
    /// Size of the repeated block, in lines.
    pub window_size: usize,
    /// Start lines (0-based) of every occurrence of the block.
    pub positions: Vec<usize>,
    /// The first occurrence, raw lines joined, at most 200 characters.
    pub snippet: String,
}

/// The finding reported for the lines `ls`: the largest eligible block size
/// with a repeated block; at that size the first repeated block; all its
/// occurrences; its first occurrence as snippet.
pub open spec fn spec_refacto_finding(ls: Seq<Seq<char>>, f: RefactoFinding) -> bool {
    let n = ls.len() as int;
    let w = f.window_size as int;
    &&& n >= 2 * MIN_DUPLICATE_LINES
    &&& spec_eligible(n, w)
    &&& spec_has_dup(ls, w)
    &&& forall|w2: int| w < w2 && spec_eligible(n, w2) ==> !#[trigger] spec_has_dup(ls, w2)
    &&& f.positions@.len() >= 2
    &&& spec_dup_at(ls, w, f.positions@[0] as int)
    &&& forall|k: int| 0 <= k < f.positions@[0] ==> !#[trigger] spec_dup_at(ls, w, k)
    &&& f.positions@ == spec_occurrences(ls, w, spec_block(ls, w, f.positions@[0] as int), n - w + 1)
    &&& f.snippet@ == spec_take_at_most(
        spec_join(ls.subrange(f.positions@[0] as int, f.positions@[0] + w), "\n"@),
        SNIPPET_CHARS as nat,
    )
}

/// No eligible block size of the lines `ls` has a repeated block.
pub open spec fn spec_no_refacto(ls: Seq<Seq<char>>) -> bool {
    ls.len() < 2 * MIN_DUPLICATE_LINES || forall|w: int| spec_eligible(ls.len() as int, w) ==> !#[trigger] spec_has_dup(ls, w)
}

/// The normalised blocks of `w` lines at every start line.
fn blocks_of(lines: &Vec<String>, w: usize) -> (bs: Vec<String>)
    requires
        1 <= w <= lines@.len(),
    ensures
        bs@.len() == lines@.len() - w + 1,
        forall|k: int| 0 <= k < bs@.len() ==> (#[trigger] bs@[k])@ == spec_block(spec_strings(lines@), w as int, k),
{
    let ghost ls = spec_strings(lines@);
    let n = lines.len();
    let count = n - w + 1;
    let mut bs: Vec<String> = Vec::new();
    let mut i: usize = 0;
    while i < count
        invariant
            n == lines@.len(),
            count == n - w + 1,
            1 <= w <= lines@.len(),
            ls == spec_strings(lines@),
            0 <= i <= count,
            bs@.len() == i,
            forall|k: int| 0 <= k < i ==> (#[trigger] bs@[k])@ == spec_block(ls, w as int, k),
        decreases count - i,
    {
        let part = vstd::slice::slice_subrange(lines.as_slice(), i, i + w);
        let b = normalize_code_block(part);
        proof {
            assert(spec_strings(part@) =~= ls.subrange(i as int, i + w));
        }
        bs.push(b);
        i = i + 1;
    }
    bs
}

/// Looks for a repeated block of code in the lines of a file.
pub fn find_duplicate_block(lines: &Vec<String>) -> (r: Option<RefactoFinding>)
    ensures
        match r {
            Some(f) => spec_refacto_finding(spec_strings(lines@), f),
            None => spec_no_refacto(spec_strings(lines@)),
        },
{
    let ghost ls = spec_strings(lines@);
    let n = lines.len();
    if n < 2 * MIN_DUPLICATE_LINES {
        return None;
    }
    let mut w: usize = MAX_DUPLICATE_LINES;
    while w >= MIN_DUPLICATE_LINES
        invariant
            n == lines@.len(),
            ls == spec_strings(lines@),
            n >= 2 * MIN_DUPLICATE_LINES,
            MIN_DUPLICATE_LINES - 1 <= w <= MAX_DUPLICATE_LINES,
            forall|w2: int| w < w2 && spec_eligible(n as int, w2) ==> !#[trigger] spec_has_dup(ls, w2),
        decreases w,
    {
        if w <= n / 2 {
            let bs = blocks_of(lines, w);
            let count = bs.len();
            let mut i: usize = 0;
            while i < count
                invariant
                    n == lines@.len(),
                    ls == spec_strings(lines@),
                    count == n - w + 1,
                    bs@.len() == count,
                    1 <= w <= n,
                    MIN_DUPLICATE_LINES <= w <= MAX_DUPLICATE_LINES,
                    w <= n / 2,
                    n >= 2 * MIN_DUPLICATE_LINES,
                    forall|w2: int| w < w2 && spec_eligible(n as int, w2) ==> !#[trigger] spec_has_dup(ls, w2),
                    forall|k: int| 0 <= k < bs@.len() ==> (#[trigger] bs@[k])@ == spec_block(ls, w as int, k),
                    0 <= i <= count,
                    forall|k: int| 0 <= k < i ==> !#[trigger] spec_dup_at(ls, w as int, k),
                decreases count - i,
            {
                let t = trim_str(bs[i].as_str());
                if t.unicode_len() > 0 {
                    let later = find_equal_after(&bs, i);
                    let found = later.is_some();
                    if found {
                        let j = later.unwrap();
                        proof {
                            assert(spec_block(ls, w as int, j as int) == spec_block(ls, w as int, i as int));
                            assert(spec_dup_at(ls, w as int, i as int));
                            assert(spec_has_dup(ls, w as int));
                        }
                        // Every occurrence of the block.
                        let mut positions: Vec<usize> = Vec::new();
                        let mut m: usize = 0;
                        while m < count
                            invariant
                                count == n - w + 1,
                                bs@.len() == count,
                                i < count,
                                ls == spec_strings(lines@),
                                forall|k: int| 0 <= k < bs@.len() ==> (#[trigger] bs@[k])@ == spec_block(ls, w as int, k),
                                0 <= m <= count,
                                positions@ == spec_occurrences(ls, w as int, spec_block(ls, w as int, i as int), m as int),
                            decreases count - m,
                        {
                            if bs[m] == bs[i] {
                                positions.push(m);
                            }
                            m = m + 1;
                        }
                        proof {
                            lemma_occurrences_first(ls, w as int, i as int, count as int);
                        }
                        let part = vstd::slice::slice_subrange(lines.as_slice(), i, i + w);
                        let raw = join_strings(part, "\n");
                        proof {
                            assert(spec_strings(part@) =~= ls.subrange(i as int, i + w));
                        }
                        let snippet = String::from_str(truncate_chars(raw.as_str(), SNIPPET_CHARS));
                        let f = RefactoFinding { window_size: w, positions, snippet };
                        proof {
                            assert(f.positions@.len() >= 2);
                            assert(f.positions@[0] as int == i);
                            assert(spec_dup_at(ls, w as int, f.positions@[0] as int));
                            assert(f.positions@ == spec_occurrences(ls, w as int, spec_block(ls, w as int, f.positions@[0] as int), n - w + 1));
                            assert(forall|k: int| 0 <= k < f.positions@[0] ==> !#[trigger] spec_dup_at(ls, w as int, k));
                            assert(spec_eligible(n as int, w as int));
                        }
                        return Some(f);
                    }
                    proof {
                        assert(!spec_dup_at(ls, w as int, i as int)) by {
                            if spec_dup_at(ls, w as int, i as int) {
                                let j2 = choose|j2: int| i < j2 && j2 + w <= ls.len() && #[trigger] spec_block(ls, w as int, j2) == spec_block(ls, w as int, i as int);
                                assert(bs@[j2]@ == bs@[i as int]@);
                            }
                        }
                    }
                }
                i = i + 1;
            }
            proof {
                assert(!spec_has_dup(ls, w as int)) by {
                    if spec_has_dup(ls, w as int) {
                        let k = choose|k: int| #[trigger] spec_dup_at(ls, w as int, k);
                        assert(!spec_dup_at(ls, w as int, k));
                    }
                }
            }
        }
        w = w - 1;
    }
    None
}

/// The first position after `i` holding the same string as position `i`.
fn find_equal_after(bs: &Vec<String>, i: usize) -> (r: Option<usize>)
    requires
        i < bs@.len(),
    ensures
        match r {
            Some(j) => i < j < bs@.len() && bs@[j as int]@ == bs@[i as int]@,
            None => forall|k: int| i < k < bs@.len() ==> (#[trigger] bs@[k])@ != bs@[i as int]@,
        },
{
    let n = bs.len();
    let mut j: usize = i + 1;
    while j < bs.len()
        invariant
            i < bs@.len(),
            i + 1 <= j <= bs@.len(),
            forall|k: int| i < k < j ==> (#[trigger] bs@[k])@ != bs@[i as int]@,
        decreases bs@.len() - j,
    {
        if bs[j] == bs[i] {
            return Some(j);
        }
        j = j + 1;
    }
    None
}

/// Occurrences of the first repeated block start at that block and hold at
/// least two positions.
proof fn lemma_occurrences_first(ls: Seq<Seq<char>>, w: int, i: int, count: int)
    requires
        count == ls.len() - w + 1,
        count <= usize::MAX,
        w >= 1,
        spec_dup_at(ls, w, i),
        forall|k: int| 0 <= k < i ==> !#[trigger] spec_dup_at(ls, w, k),
    ensures
        spec_occurrences(ls, w, spec_block(ls, w, i), count).len() >= 2,
        spec_occurrences(ls, w, spec_block(ls, w, i), count)[0] == i,
{
    let b = spec_block(ls, w, i);
    let j = choose|j: int| i < j && j + w <= ls.len() && #[trigger] spec_block(ls, w, j) == spec_block(ls, w, i);
    // No block before i equals b.
    assert forall|k: int| 0 <= k < i implies spec_block(ls, w, k) != b by {
        if spec_block(ls, w, k) == b {
            assert(spec_block(ls, w, i) == spec_block(ls, w, k));
            assert(spec_dup_at(ls, w, k));
        }
    }
    lemma_occurrences_prefix_empty(ls, w, b, i);
    lemma_occurrences_grow(ls, w, b, i, count, j);
}

/// No block below `m` equals `b`: no occurrence below `m`.
proof fn lemma_occurrences_prefix_empty(ls: Seq<Seq<char>>, w: int, b: Seq<char>, m: int)
    requires
        forall|k: int| 0 <= k < m ==> spec_block(ls, w, k) != b,
    ensures
        spec_occurrences(ls, w, b, m).len() == 0,
    decreases m,
{
    if m > 0 {
        lemma_occurrences_prefix_empty(ls, w, b, m - 1);
    }
}

/// With no occurrence below `i`, blocks `i` and `j` equal to `b`: the
/// occurrences below `m > j` start with `i` and hold at least two entries.
proof fn lemma_occurrences_grow(ls: Seq<Seq<char>>, w: int, b: Seq<char>, i: int, m: int, j: int)
    requires
        0 <= i < j < m,
        m <= usize::MAX,
        spec_occurrences(ls, w, b, i).len() == 0,
        spec_block(ls, w, i) == b,
        spec_block(ls, w, j) == b,
    ensures
        spec_occurrences(ls, w, b, m).len() >= 2,
        spec_occurrences(ls, w, b, m)[0] == i,
    decreases m,
{
    if m == j + 1 {
        lemma_occurrences_start(ls, w, b, i, j);
    } else {
        lemma_occurrences_grow(ls, w, b, i, m - 1, j);
    }
}

/// Below `j` (with an occurrence at `i < j` and none before), the occurrences
/// start with `i`; at `j + 1` there are two at least.
proof fn lemma_occurrences_start(ls: Seq<Seq<char>>, w: int, b: Seq<char>, i: int, j: int)
    requires
        0 <= i < j,
        j < usize::MAX,
        spec_occurrences(ls, w, b, i).len() == 0,
        spec_block(ls, w, i) == b,
        spec_block(ls, w, j) == b,
    ensures
        spec_occurrences(ls, w, b, j + 1).len() >= 2,
        spec_occurrences(ls, w, b, j + 1)[0] == i,
    decreases j,
{
    lemma_occurrences_from(ls, w, b, i, j);
}

/// With none before `i` and one at `i`, the occurrences below any `m > i`
/// start with `i`, and below `j + 1` there is one more when `j > i` matches.
proof fn lemma_occurrences_from(ls: Seq<Seq<char>>, w: int, b: Seq<char>, i: int, m: int)
    requires
        0 <= i < m,
        m < usize::MAX,
        spec_occurrences(ls, w, b, i).len() == 0,
        spec_block(ls, w, i) == b,
    ensures
        spec_occurrences(ls, w, b, m).len() >= 1,
        spec_occurrences(ls, w, b, m)[0] == i,
        spec_block(ls, w, m) == b ==> spec_occurrences(ls, w, b, m + 1).len() >= 2 && spec_occurrences(ls, w, b, m + 1)[0] == i,
    decreases m,
{
    if m > i + 1 {
        lemma_occurrences_from(ls, w, b, i, m - 1);
        let p = spec_occurrences(ls, w, b, m - 1);
        assert(spec_occurrences(ls, w, b, m) == if spec_block(ls, w, m - 1) == b { p.push((m - 1) as usize) } else { p });
    } else {
        assert(spec_occurrences(ls, w, b, i + 1) == spec_occurrences(ls, w, b, i).push(i as usize));
    }
    let q = spec_occurrences(ls, w, b, m);
    assert(spec_occurrences(ls, w, b, m + 1) == if spec_block(ls, w, m) == b { q.push(m as usize) } else { q });
}

/// Looks for a repeated block of code in a file's content.
pub fn detect_refacto_pattern(content: &str) -> (r: Option<RefactoFinding>)
    ensures
        match r {
            Some(f) => spec_refacto_finding(spec_lines(content@), f),
            None => spec_no_refacto(spec_lines(content@)),
        },
{
    let lines = lines_of(content);
    find_duplicate_block(&lines)
}

/// Number of newline bytes.
pub open spec fn spec_newlines(bytes: Seq<u8>) -> nat
    decreases bytes.len(),
{
    if bytes.len() == 0 {
        0
    } else {
        spec_newlines(bytes.drop_last()) + if bytes.last() == 10u8 { 1nat } else { 0nat }
    }
}

/// Number of lines of a text given by its bytes, as `str::lines().count()`
/// counts them: one per newline, plus a last line without newline.
pub open spec fn spec_line_count(bytes: Seq<u8>) -> nat {
    spec_newlines(bytes) + if bytes.len() > 0 && bytes.last() != 10u8 { 1nat } else { 0nat }
}

/// Counts the lines of the first `end` bytes.
fn line_count(bytes: &[u8], end: usize) -> (n: usize)
    requires
        end <= bytes@.len(),
    ensures
        n == spec_line_count(bytes@.take(end as int)),
        n <= end,
{
    let mut count: usize = 0;
    let mut i: usize = 0;
    while i < end
        invariant
            end <= bytes@.len(),
            0 <= i <= end,
            count == spec_newlines(bytes@.take(i as int)),
            count <= i,
        decreases end - i,
    {
        assert(bytes@.take(i + 1).drop_last() =~= bytes@.take(i as int));
        if bytes[i] == 10u8 {
            count = count + 1;
        }
        i = i + 1;
    }
    if end > 0 && bytes[end - 1] != 10u8 {
        proof {
            assert(bytes@.take(end as int).drop_last() =~= bytes@.take(end - 1));
            lemma_newlines_bound(bytes@.take(end - 1));
        }
        count + 1
    } else {
        count
    }
}

/// A text has no more newlines than bytes.
proof fn lemma_newlines_bound(bytes: Seq<u8>)
    ensures
        spec_newlines(bytes) <= bytes.len(),
    decreases bytes.len(),
{
    if bytes.len() > 0 {
        lemma_newlines_bound(bytes.drop_last());
    }
}

/// Byte offsets at which the matches of a regular expression start, in
/// order (`None` when the pattern does not compile), as the `regex` crate
/// finds them.
pub uninterp spec fn spec_regex_match_starts(pattern: Seq<char>, text: Seq<char>) -> Option<Seq<usize>>;

/// Trusted: `regex::Regex::new` and `Regex::find_iter`, keeping each match's
/// start. Claims that the result is the named one for pattern and text, and
/// that every start is a byte offset within the text.
#[verifier::external_body]
fn regex_match_starts(pattern: &str, text: &str) -> (r: Option<Vec<usize>>)
    ensures
        match r {
            Some(v) => spec_regex_match_starts(pattern@, text@) == Some(v@)
                && forall|k: int| 0 <= k < v@.len() ==> v@[k] <= vstd::utf8::encode_utf8(text@).len(),
            None => spec_regex_match_starts(pattern@, text@) is None,
        },
{
    regex::Regex::new(pattern).ok().map(|re| re.find_iter(text).map(|m| m.start()).collect())
}

/// The debug-statement patterns, with their language, in the order tried.
pub open spec fn spec_debug_patterns() -> Seq<(Seq<char>, Seq<char>)> {
    seq![
        ("console\\.(log|debug|info|warn|error)"@, "JavaScript/TypeScript"@),
        ("println!\\s*\\("@, "Rust"@),
        ("print\\s*\\("@, "Python"@),
        ("System\\.out\\.println"@, "Java"@),
        ("fmt\\.Println"@, "Go"@),
        ("std::cout\\s*<<"@, "C++"@),
    ]
}

/// The debug-statement patterns.
fn debug_patterns() -> (a: [(&'static str, &'static str); 6])
    ensures
        a@.map_values(|p: (&str, &str)| (p.0@, p.1@)) == spec_debug_patterns(),
{
    let a: [(&'static str, &'static str); 6] = [
        ("console\\.(log|debug|info|warn|error)", "JavaScript/TypeScript"),
        ("println!\\s*\\(", "Rust"),
        ("print\\s*\\(", "Python"),
        ("System\\.out\\.println", "Java"),
        ("fmt\\.Println", "Go"),
        ("std::cout\\s*<<", "C++"),
    ];
    assert(a@.map_values(|p: (&str, &str)| (p.0@, p.1@)) =~= spec_debug_patterns());
    a
}

/// Number of debug statements from which a finding is reported.
pub const MIN_DEBUG_STATEMENTS: usize = 3;

/// A pile of debug statements found in a file.
#[derive(Debug, Clone)]
pub struct DebugFinding {
    /// Number of debug statements of the language.
    pub count: usize,
    /// The language whose debug statements were found.
    pub language: String,
    /// Line (1-based) of the first debug statement.
    pub line: usize,
    /// The lines around the first statement, joined, at most 200 characters.
    pub snippet: String,
}

/// Pattern `k` has at least three matches in the text.
pub open spec fn spec_pattern_hits(k: int, text: Seq<char>) -> bool {
    spec_regex_match_starts(spec_debug_patterns()[k].0, text) matches Some(v) && v.len() >= MIN_DEBUG_STATEMENTS
}

/// The finding for the debug statements of `language` that start at the
/// byte offsets `starts` of `content`: the number of statements, the
/// language, the line of the first statement, and as snippet the line
/// before it, its own line and the line after it (as far as they exist).
pub open spec fn spec_finding_of(content: &str, language: Seq<char>, starts: Seq<usize>, f: DebugFinding) -> bool {
    let line: int = (spec_line_count(vstd::utf8::encode_utf8(content@).take(starts[0] as int)) + 1) as int;
    let lines = spec_lines(content@);
    let start_line: int = if line >= 2 { line - 2 } else { 0 };
    let end_line: int = if line + 1 <= lines.len() { line + 1 } else { lines.len() as int };
    &&& f.count == starts.len()
    &&& f.language@ == language
    &&& f.line == line
    &&& start_line <= end_line ==> f.snippet@ == spec_take_at_most(
        spec_join(lines.subrange(start_line, end_line), "\n"@),
        SNIPPET_CHARS as nat,
    )
}

/// The finding for pattern `k` in `content` (see `spec_finding_of`).
pub open spec fn spec_debug_finding(k: int, content: &str, f: DebugFinding) -> bool {
    spec_finding_of(content, spec_debug_patterns()[k].1,
        spec_regex_match_starts(spec_debug_patterns()[k].0, content@)->Some_0, f)
}

/// The finding for the debug statements of `language` found at the byte
/// offsets `starts` of `content` (see `spec_finding_of`).
pub fn debug_finding(content: &str, language: &str, starts: &[usize]) -> (f: DebugFinding)
    requires
        starts@.len() > 0,
        starts@[0] <= vstd::utf8::encode_utf8(content@).len(),
        vstd::utf8::encode_utf8(content@).len() < usize::MAX,
    ensures
        spec_finding_of(content, language@, starts@, f),
{
    let bytes = content.as_bytes();
    let first = starts[0];
    let line = line_count(bytes, first) + 1;
    let lines = lines_of(content);
    let start_line: usize = if line >= 2 { line - 2 } else { 0 };
    let end_line: usize = if line < lines.len() { line + 1 } else { lines.len() };
    let snippet = if start_line <= end_line {
        let part = vstd::slice::slice_subrange(lines.as_slice(), start_line, end_line);
        let raw = join_strings(part, "\n");
        proof {
            assert(spec_strings(part@) =~= spec_lines(content@).subrange(start_line as int, end_line as int));
        }
        String::from_str(truncate_chars(raw.as_str(), SNIPPET_CHARS))
    } else {
        String::new()
    };
    DebugFinding { count: starts.len(), language: String::from_str(language), line, snippet }
}

/// Looks for three or more debug statements of one language (the first
/// pattern that has them, in the order of `spec_debug_patterns`).
pub fn detect_debug_pattern(content: &str) -> (r: Option<DebugFinding>)
    requires
        vstd::utf8::encode_utf8(content@).len() < usize::MAX,
    ensures
        match r {
            Some(f) => exists|k: int| 0 <= k < 6 && #[trigger] spec_pattern_hits(k, content@)
                && (forall|k2: int| 0 <= k2 < k ==> !#[trigger] spec_pattern_hits(k2, content@))
                && spec_debug_finding(k, content, f),
            None => forall|k: int| 0 <= k < 6 ==> !#[trigger] spec_pattern_hits(k, content@),
        },
{
    let patterns = debug_patterns();
    let ghost ps = spec_debug_patterns();
    let mut k: usize = 0;
    while k < 6
        invariant
            0 <= k <= 6,
            ps == spec_debug_patterns(),
            patterns@.map_values(|p: (&str, &str)| (p.0@, p.1@)) == ps,
            forall|k2: int| 0 <= k2 < k ==> !#[trigger] spec_pattern_hits(k2, content@),
            vstd::utf8::encode_utf8(content@).len() < usize::MAX,
        decreases 6 - k,
    {
        let (pattern, language) = patterns[k];
        assert(pattern@ == ps[k as int].0 && language@ == ps[k as int].1);
        let found = regex_match_starts(pattern, content);
        if let Some(starts) = found {
            if starts.len() >= MIN_DEBUG_STATEMENTS {
                let f = debug_finding(content, language, starts.as_slice());
                assert(spec_pattern_hits(k as int, content@));
                assert(spec_debug_finding(k as int, content, f));
                return Some(f);
            }
        }
        assert(!spec_pattern_hits(k as int, content@));
        k = k + 1;
    }
    None
}

/// The extension of a path as `Path::extension` gives it (the text after
/// the last dot of the file name, none for names without one or starting
/// with their only dot), when it is valid text.
pub uninterp spec fn spec_path_extension(path: Seq<char>) -> Option<Seq<char>>;

/// Trusted: `std::path::Path::extension` on the path, kept when it is valid
/// UTF-8. Claims only that the result is the named extension of the path.
#[verifier::external_body]
fn path_extension(path: &str) -> (ext: Option<String>)
    ensures
        match ext {
            Some(e) => spec_path_extension(path@) == Some(e@),
            None => spec_path_extension(path@) is None,
        },
{
    std::path::Path::new(path).extension().and_then(|e| e.to_str()).map(|e| e.to_string())
}

/// Extensions of the source files that are watched.
pub open spec fn spec_watched_extensions() -> Seq<Seq<char>> {
    seq!["rs"@, "ts"@, "tsx"@, "js"@, "jsx"@, "py"@, "go"@, "java"@, "cpp"@, "c"@, "h"@]
}

/// Parts of a path that mark it as not watched (dependencies, builds,
/// repository data).
pub open spec fn spec_ignored_path_parts() -> Seq<Seq<char>> {
    seq!["node_modules"@, "target"@, "dist"@, ".git"@]
}

/// A path is watched when its extension is a source extension and it does
/// not contain an ignored part.
pub open spec fn spec_is_watched_path(path: Seq<char>) -> bool {
    &&& spec_path_extension(path) matches Some(e) && spec_watched_extensions().contains(e)
    &&& forall|i: int| 0 <= i < spec_ignored_path_parts().len() ==> !spec_contains(path, #[trigger] spec_ignored_path_parts()[i])
}

/// Whether a changed file is a watched source file.
pub fn is_watched_path(path: &str) -> (b: bool)
    ensures
        b == spec_is_watched_path(path@),
{
    let exts: [&str; 11] = ["rs", "ts", "tsx", "js", "jsx", "py", "go", "java", "cpp", "c", "h"];
    assert(spec_strs(exts@) =~= spec_watched_extensions());
    let ext_ok = match path_extension(path) {
        Some(e) => word_in_list(e.as_str(), &exts),
        None => false,
    };
    if !ext_ok {
        return false;
    }
    let n1 = contains_str(path, "node_modules");
    let n2 = contains_str(path, "target");
    let n3 = contains_str(path, "dist");
    let n4 = contains_str(path, ".git");
    let r = !n1 && !n2 && !n3 && !n4;
    proof {
        let parts = spec_ignored_path_parts();
        if r {
            assert forall|i: int| 0 <= i < parts.len() implies !spec_contains(path@, #[trigger] parts[i]) by {
                if i == 0 { assert(parts[0] == "node_modules"@); }
                else if i == 1 { assert(parts[1] == "target"@); }
                else if i == 2 { assert(parts[2] == "dist"@); }
                else { assert(parts[3] == ".git"@); }
            }
        } else {
            if n1 { assert(parts[0] == "node_modules"@); }
            else if n2 { assert(parts[1] == "target"@); }
            else if n3 { assert(parts[2] == "dist"@); }
            else { assert(parts[3] == ".git"@); }
        }
    }
    r
}

/// Whether a file event is worth analysing: a modification of at least one
/// watched source file.
pub fn should_process_event(is_modify: bool, paths: &[String]) -> (b: bool)
    ensures
        b == (is_modify && exists|i: int| 0 <= i < paths@.len() && spec_is_watched_path(#[trigger] paths@[i]@)),
{
    if !is_modify {
        return false;
    }
    let mut i: usize = 0;
    while i < paths.len()
        invariant
            i <= paths@.len(),
            is_modify,
            forall|k: int| 0 <= k < i ==> !spec_is_watched_path(#[trigger] paths@[k]@),
        decreases paths@.len() - i,
    {
        if is_watched_path(paths[i].as_str()) {
            assert(spec_is_watched_path(paths@[i as int]@));
            return true;
        }
        i = i + 1;
    }
    false
}

} // verus!
