//! Locating a function's textual span inside a file's lines.
//!
//! A span is found by a brace-matching heuristic: the first line that
//! contains the pattern `fn <name>` opens the span, and the span ends on
//! the first line where the running brace balance, counted character by
//! character from the start of the opening line, returns to zero on a
//! closing brace.

use vstd::prelude::*;
use vstd::string::StrSliceExecFns;
use vstd::string::StringExecFns;

use crate::ast::{FnDef, SourceUnit};

verus! {

/// The lines of source text that make up one function.
pub struct FunctionSpan {
    pub name: String,
    pub lines: Vec<String>,
}

/// What a span holds, mathematically: the function's name and its lines,
/// each as a sequence of characters.
pub struct SpanView {
    pub name: Seq<char>,
    pub lines: Seq<Seq<char>>,
}

impl View for FunctionSpan {
    type V = SpanView;

    open spec fn view(&self) -> SpanView {
        SpanView { name: self.name@, lines: Seq::new(self.lines@.len(), |i: int| self.lines@[i]@) }
    }
}

/// The text that marks a function definition: `fn ` followed by its name.
pub open spec fn fn_pattern(name: Seq<char>) -> Seq<char> {
    seq!['f', 'n', ' '] + name
}

/// Whether `needle` occurs in `hay` starting at position `at`.
pub open spec fn matches_at(hay: Seq<char>, needle: Seq<char>, at: int) -> bool {
    0 <= at && at + needle.len() <= hay.len() && hay.subrange(at, at + needle.len()) == needle
}

/// Whether `needle` occurs anywhere in `hay`.
pub open spec fn contains_seq(hay: Seq<char>, needle: Seq<char>) -> bool {
    exists|at: int| matches_at(hay, needle, at)
}

/// What one character does to the brace balance.
pub open spec fn brace_delta(c: char) -> int {
    if c == '{' {
        1
    } else if c == '}' {
        -1
    } else {
        0
    }
}

/// The brace balance of a sequence of characters: opening braces minus
/// closing ones.
pub open spec fn brace_balance(s: Seq<char>) -> int
    decreases s.len(),
{
    if s.len() == 0 {
        0
    } else {
        brace_balance(s.drop_last()) + brace_delta(s.last())
    }
}

/// The brace balance of the lines `from..to`.
pub open spec fn balance_of_lines(lines: Seq<String>, from: int, to: int) -> int
    decreases to - from,
{
    if to <= from {
        0
    } else {
        balance_of_lines(lines, from, to - 1) + brace_balance(lines[to - 1]@)
    }
}

/// Whether scanning this line left to right, entering it at brace balance
/// `bal`, reaches balance zero on a closing brace.
pub open spec fn line_closes(line: Seq<char>, bal: int) -> bool {
    exists|j: int|
        0 <= j < line.len() && line[j] == '}' && bal + brace_balance(line.take(j + 1)) == 0
}

/// The first line at or after `i` that contains the pattern.
pub open spec fn first_line_with_pattern(lines: Seq<String>, pat: Seq<char>, i: int) -> Option<
    int,
>
    decreases lines.len() - i,
{
    if i < 0 || i >= lines.len() {
        None
    } else if contains_seq(lines[i]@, pat) {
        Some(i)
    } else {
        first_line_with_pattern(lines, pat, i + 1)
    }
}

/// The first line at or after `i` on which the running brace balance —
/// `bal` on entering line `i` — returns to zero on a closing brace.
pub open spec fn first_closing_line(lines: Seq<String>, bal: int, i: int) -> Option<int>
    decreases lines.len() - i,
{
    if i < 0 || i >= lines.len() {
        None
    } else if line_closes(lines[i]@, bal) {
        Some(i)
    } else {
        first_closing_line(lines, bal + brace_balance(lines[i]@), i + 1)
    }
}

/// Where the span of the function called `name` stands in `lines`: the
/// first line containing `fn <name>`, and from there the first line whose
/// scan brings the brace balance back to zero on a closing brace.
pub open spec fn spec_function_bounds(lines: Seq<String>, name: Seq<char>) -> Option<(int, int)> {
    match first_line_with_pattern(lines, fn_pattern(name), 0) {
        None => None,
        Some(s) => match first_closing_line(lines, 0, s) {
            None => None,
            Some(e) => Some((s, e)),
        },
    }
}

/// The span of one function, where its bounds are found: its name together
/// with the lines of text from the opening line through the closing one.
pub open spec fn spec_span_of(lines: Seq<String>, name: Seq<char>) -> Option<SpanView> {
    match spec_function_bounds(lines, name) {
        None => None,
        Some(b) => Some(
            SpanView {
                name: name,
                lines: Seq::new((b.1 + 1 - b.0) as nat, |k: int| lines[b.0 + k]@),
            },
        ),
    }
}

/// The spans of a list of functions, in order, skipping the functions
/// whose bounds are not found.
pub open spec fn spec_spans(lines: Seq<String>, fns: Seq<FnDef>) -> Seq<SpanView>
    decreases fns,
{
    if fns.len() == 0 {
        Seq::empty()
    } else {
        spec_spans(lines, fns.drop_last()) + (match spec_span_of(lines, fns.last().name@) {
            Some(sv) => seq![sv],
            None => Seq::empty(),
        })
    }
}

/// A found pattern line lies at or after the search start and inside the
/// line range.
proof fn lemma_flwp_range(lines: Seq<String>, pat: Seq<char>, i: int)
    ensures
        first_line_with_pattern(lines, pat, i) matches Some(s) ==> i <= s < lines.len(),
    decreases lines.len() - i,
{
    if 0 <= i < lines.len() && !contains_seq(lines[i]@, pat) {
        lemma_flwp_range(lines, pat, i + 1);
    }
}

/// A found closing line lies at or after the search start and inside the
/// line range.
proof fn lemma_fcl_range(lines: Seq<String>, bal: int, i: int)
    ensures
        first_closing_line(lines, bal, i) matches Some(e) ==> i <= e < lines.len(),
    decreases lines.len() - i,
{
    if 0 <= i < lines.len() && !line_closes(lines[i]@, bal) {
        lemma_fcl_range(lines, bal + brace_balance(lines[i]@), i + 1);
    }
}

/// Found bounds always describe a well-formed range of lines.
pub proof fn lemma_bounds_in_range(lines: Seq<String>, name: Seq<char>)
    ensures
        spec_function_bounds(lines, name) matches Some(b) ==> 0 <= b.0 <= b.1 < lines.len(),
{
    lemma_flwp_range(lines, fn_pattern(name), 0);
    if let Some(s) = first_line_with_pattern(lines, fn_pattern(name), 0) {
        lemma_fcl_range(lines, 0, s);
    }
}

/// Whether `needle` occurs in `hay` starting exactly at `at`.
fn str_matches_at(hay: &str, needle: &str, at: usize, hn: usize, nn: usize) -> (b: bool)
    requires
        hn == hay@.len(),
        nn == needle@.len(),
        at + nn <= hn,
    ensures
        b == matches_at(hay@, needle@, at as int),
{
    let mut j: usize = 0;
    while j < nn
        invariant
            j <= nn,
            hn == hay@.len(),
            nn == needle@.len(),
            at + nn <= hn,
            forall|jj: int| 0 <= jj < j ==> hay@[at + jj] == needle@[jj],
        decreases nn - j,
    {
        if hay.get_char(at + j) != needle.get_char(j) {
            proof {
                assert(hay@.subrange(at as int, at + nn) != needle@) by {
                    assert(hay@.subrange(at as int, at + nn)[j as int] == hay@[at + j]);
                }
            }
            return false;
        }
        j = j + 1;
    }
    proof {
        assert(hay@.subrange(at as int, at + nn) =~= needle@);
    }
    true
}

/// Whether `needle` occurs anywhere in `hay`.
fn str_contains(hay: &str, needle: &str) -> (b: bool)
    ensures
        b == contains_seq(hay@, needle@),
{
    let hn = hay.unicode_len();
    let nn = needle.unicode_len();
    if nn > hn {
        proof {
            assert(forall|at: int| !matches_at(hay@, needle@, at));
        }
        return false;
    }
    if nn == 0 {
        proof {
            assert(hay@.subrange(0, 0) =~= needle@);
            assert(matches_at(hay@, needle@, 0));
        }
        return true;
    }
    let mut at: usize = 0;
    while at <= hn - nn
        invariant
            hn == hay@.len(),
            nn == needle@.len(),
            1 <= nn <= hn,
            at <= hn - nn + 1,
            forall|a: int| 0 <= a < at ==> !matches_at(hay@, needle@, a),
        decreases hn - nn + 1 - at,
    {
        if str_matches_at(hay, needle, at, hn, nn) {
            return true;
        }
        at = at + 1;
    }
    proof {
        assert(forall|a: int| a > hn - nn ==> !matches_at(hay@, needle@, a));
    }
    false
}

/// Scans one line for a closing brace that brings the balance to zero.
///
/// `opens0` and `closes0` count the braces seen so far in earlier lines of
/// the span; their difference is the balance on entering this line. When no
/// closing position is found, the updated counters are returned.
fn scan_line_for_close(line: &str, opens0: u128, closes0: u128) -> (r: (u128, u128, bool))
    requires
        opens0 as int <= (usize::MAX as int) * (usize::MAX as int) - (usize::MAX as int),
        closes0 as int <= (usize::MAX as int) * (usize::MAX as int) - (usize::MAX as int),
    ensures
        r.2 == line_closes(line@, opens0 as int - closes0 as int),
        r.0 as int <= opens0 as int + usize::MAX as int,
        r.1 as int <= closes0 as int + usize::MAX as int,
        !r.2 ==> r.0 as int - r.1 as int == opens0 as int - closes0 as int + brace_balance(
            line@,
        ),
{
    let m = line.unicode_len();
    let ghost bal0 = opens0 as int - closes0 as int;
    proof {
        assert((usize::MAX as int) * (usize::MAX as int) < u128::MAX as int) by (nonlinear_arith)
            requires
                usize::MAX as int <= u64::MAX as int,
        ;
        assert(line@.take(0) =~= Seq::<char>::empty());
    }
    let mut opens = opens0;
    let mut closes = closes0;
    let mut j: usize = 0;
    while j < m
        invariant
            j <= m,
            m == line@.len(),
            opens0 as int <= (usize::MAX as int) * (usize::MAX as int) - (usize::MAX as int),
            closes0 as int <= (usize::MAX as int) * (usize::MAX as int) - (usize::MAX as int),
            (usize::MAX as int) * (usize::MAX as int) < u128::MAX as int,
            opens as int <= opens0 as int + j,
            closes as int <= closes0 as int + j,
            opens as int - closes as int == bal0 + brace_balance(line@.take(j as int)),
            bal0 == opens0 as int - closes0 as int,
            forall|jj: int|
                0 <= jj < j ==> !(line@[jj] == '}' && bal0 + brace_balance(
                    line@.take(jj + 1),
                ) == 0),
        decreases m - j,
    {
        let c = line.get_char(j);
        proof {
            assert(line@.take(j + 1).drop_last() =~= line@.take(j as int));
            assert(line@.take(j + 1).last() == line@[j as int]);
        }
        if c == '{' {
            opens = opens + 1;
        } else if c == '}' {
            closes = closes + 1;
            if opens == closes {
                proof {
                    assert(line_closes(line@, bal0)) by {
                        assert(line@[j as int] == '}' && bal0 + brace_balance(
                            line@.take(j as int + 1),
                        ) == 0);
                    }
                }
                return (opens, closes, true);
            }
        }
        j = j + 1;
    }
    proof {
        assert(line@.take(m as int) =~= line@);
        assert(!line_closes(line@, bal0));
    }
    (opens, closes, false)
}

/// From line `s`, finds the first line on which the brace balance, counted
/// from the start of line `s`, returns to zero on a closing brace.
fn find_closing_from(lines: &Vec<String>, s: usize) -> (r: Option<usize>)
    requires
        s < lines@.len(),
    ensures
        match r {
            Some(e) => first_closing_line(lines@, 0, s as int) == Some(e as int),
            None => first_closing_line(lines@, 0, s as int) is None,
        },
{
    let n = lines.len();
    let mut opens: u128 = 0;
    let mut closes: u128 = 0;
    let mut i: usize = s;
    while i < n
        invariant
            s <= i <= n,
            n == lines@.len(),
            opens as int <= (i - s) * (usize::MAX as int),
            closes as int <= (i - s) * (usize::MAX as int),
            opens as int - closes as int == balance_of_lines(lines@, s as int, i as int),
            first_closing_line(lines@, 0, s as int) == first_closing_line(
                lines@,
                opens as int - closes as int,
                i as int,
            ),
        decreases n - i,
    {
        proof {
            assert((i - s) * (usize::MAX as int) <= (usize::MAX as int) * (usize::MAX as int) - (
            usize::MAX as int)) by (nonlinear_arith)
                requires
                    0 <= i - s <= usize::MAX as int - 1,
            ;
        }
        let (o2, c2, found) = scan_line_for_close(lines[i].as_str(), opens, closes);
        if found {
            return Some(i);
        }
        proof {
            assert((i + 1 - s) * (usize::MAX as int) == (i - s) * (usize::MAX as int) + (
            usize::MAX as int)) by (nonlinear_arith);
            assert(balance_of_lines(lines@, s as int, i as int + 1) == balance_of_lines(
                lines@,
                s as int,
                i as int,
            ) + brace_balance(lines@[i as int]@));
        }
        opens = o2;
        closes = c2;
        i = i + 1;
    }
    None
}

/// Finds the start and end line indices of the function called `fn_name`:
/// the first line containing `fn <name>`, and the line where the brace
/// balance counted from there first returns to zero on a closing brace.
pub fn find_function_bounds(lines: &Vec<String>, fn_name: &str) -> (r: Option<(usize, usize)>)
    ensures
        match r {
            Some(b) => spec_function_bounds(lines@, fn_name@) == Some((b.0 as int, b.1 as int)),
            None => spec_function_bounds(lines@, fn_name@) is None,
        },
{
    let mut pattern = String::from_str("fn ");
    pattern.append(fn_name);
    proof {
        reveal_strlit("fn ");
        assert(pattern@ =~= fn_pattern(fn_name@));
    }
    let n = lines.len();
    let mut i: usize = 0;
    while i < n
        invariant
            i <= n,
            n == lines@.len(),
            pattern@ == fn_pattern(fn_name@),
            first_line_with_pattern(lines@, fn_pattern(fn_name@), 0) == first_line_with_pattern(
                lines@,
                fn_pattern(fn_name@),
                i as int,
            ),
        decreases n - i,
    {
        if str_contains(lines[i].as_str(), pattern.as_str()) {
            proof {
                assert(first_line_with_pattern(lines@, fn_pattern(fn_name@), i as int) == Some(
                    i as int,
                ));
            }
            return match find_closing_from(lines, i) {
                Some(e) => Some((i, e)),
                None => None,
            };
        }
        i = i + 1;
    }
    None
}

/// Copies the lines `s..=e` out of a file's lines.
fn copy_line_range(lines: &Vec<String>, s: usize, e: usize) -> (r: Vec<String>)
    requires
        s <= e < lines@.len(),
    ensures
        r@.len() == e + 1 - s,
        forall|t: int| 0 <= t < r@.len() ==> r@[t]@ == lines@[s + t]@,
{
    let mut out: Vec<String> = Vec::new();
    let n = lines.len();
    let mut k: usize = s;
    while k <= e
        invariant
            s <= k <= e + 1,
            e < n,
            n == lines@.len(),
            out@.len() == k - s,
            forall|t: int| 0 <= t < out@.len() ==> out@[t]@ == lines@[s + t]@,
        decreases e + 1 - k,
    {
        out.push(lines[k].clone());
        k = k + 1;
    }
    out
}

/// Extracts the textual span of every function of the unit from the
/// file's lines, in unit order, skipping functions whose span cannot be
/// located.
pub fn extract_function_spans(lines: &Vec<String>, unit: &SourceUnit) -> (spans: Vec<FunctionSpan>)
    ensures
        spans@.map_values(|sp: FunctionSpan| sp@) == spec_spans(lines@, unit.functions@),
{
    let mut spans: Vec<FunctionSpan> = Vec::new();
    let mut i: usize = 0;
    let n = unit.functions.len();
    while i < n
        invariant
            i <= n,
            n == unit.functions@.len(),
            spans@.map_values(|sp: FunctionSpan| sp@) == spec_spans(
                lines@,
                unit.functions@.take(i as int),
            ),
        decreases n - i,
    {
        let name = &unit.functions[i].name;
        proof {
            let fns = unit.functions@;
            assert(fns.take(i + 1).drop_last() =~= fns.take(i as int));
            assert(fns.take(i + 1).last() == fns[i as int]);
            lemma_bounds_in_range(lines@, name@);
        }
        match find_function_bounds(lines, name.as_str()) {
            Some(bounds) => {
                let (s, e) = bounds;
                let span = FunctionSpan { name: name.clone(), lines: copy_line_range(lines, s, e) };
                proof {
                    assert(span@.lines =~= Seq::new(
                        (e + 1 - s) as nat,
                        |k: int| lines@[s + k]@,
                    ));
                    assert(spec_span_of(lines@, name@) == Some(span@));
                    assert(spans@.push(span).map_values(|sp: FunctionSpan| sp@) =~= spans@
                        .map_values(|sp: FunctionSpan| sp@).push(span@));
                    assert(spans@.map_values(|sp: FunctionSpan| sp@).push(span@) =~= spec_spans(
                        lines@,
                        unit.functions@.take(i + 1),
                    ));
                }
                spans.push(span);
            },
            None => {
                proof {
                    assert(spans@.map_values(|sp: FunctionSpan| sp@) =~= spec_spans(
                        lines@,
                        unit.functions@.take(i + 1),
                    ));
                }
            },
        }
        i = i + 1;
    }
    proof {
        assert(unit.functions@.take(n as int) =~= unit.functions@);
    }
    spans
}

} // verus!
