//! Per-function aggregation: line composition counts combined with the two
//! structural metrics into one result record.

use vstd::prelude::*;
use vstd::string::StrSliceExecFns;

use crate::ast::{FnDef, SourceUnit};
use crate::counts::cap;
use crate::cyclomatic_complexity::{body_complexity, calculate_cyclomatic_complexity};
use crate::function_extractor::FunctionSpan;
use crate::nesting_depth::{body_nesting, calculate_nesting_depth};

verus! {

/// What one line of source text counts as.
pub enum LineKind {
    /// A line whose first non-blank characters are anything but a comment
    /// opener.
    Code,
    /// A line whose first non-blank characters open a line or block
    /// comment.
    Comment,
    /// A line that is empty or holds only blank characters.
    Blank,
}

/// Blank characters: what trimming a line strips, which is every character
/// with the Unicode White_Space property — the ASCII whitespace (space,
/// tab, line feed, vertical tab, form feed, carriage return) together with
/// the next line, no-break space, Ogham space mark, the typographic spaces,
/// the line and paragraph separators, the narrow and mathematical spaces,
/// and the ideographic space.
pub open spec fn is_blank_char(c: char) -> bool {
    c == ' ' || c == '\t' || c == '\n' || c == '\u{000B}' || c == '\u{000C}' || c == '\r' || c
        == '\u{0085}' || c == '\u{00A0}' || c == '\u{1680}' || c == '\u{2000}' || c == '\u{2001}'
        || c == '\u{2002}' || c == '\u{2003}' || c == '\u{2004}' || c == '\u{2005}' || c
        == '\u{2006}' || c == '\u{2007}' || c == '\u{2008}' || c == '\u{2009}' || c == '\u{200A}'
        || c == '\u{2028}' || c == '\u{2029}' || c == '\u{202F}' || c == '\u{205F}' || c
        == '\u{3000}'
}

/// Whether this character is blank.
fn is_blank(c: char) -> (r: bool)
    ensures
        r == is_blank_char(c),
{
    c == ' ' || c == '\t' || c == '\n' || c == '\u{000B}' || c == '\u{000C}' || c == '\r' || c
        == '\u{0085}' || c == '\u{00A0}' || c == '\u{1680}' || c == '\u{2000}' || c == '\u{2001}'
        || c == '\u{2002}' || c == '\u{2003}' || c == '\u{2004}' || c == '\u{2005}' || c
        == '\u{2006}' || c == '\u{2007}' || c == '\u{2008}' || c == '\u{2009}' || c == '\u{200A}'
        || c == '\u{2028}' || c == '\u{2029}' || c == '\u{202F}' || c == '\u{205F}' || c
        == '\u{3000}'
}

/// The kind of one line: blanks are skipped; a leading `//` or `/*` makes
/// the line a comment; anything else makes it code; all blank means blank.
pub open spec fn classify_line(s: Seq<char>) -> LineKind
    decreases s.len(),
{
    if s.len() == 0 {
        LineKind::Blank
    } else if is_blank_char(s[0]) {
        classify_line(s.drop_first())
    } else if s.len() >= 2 && s[0] == '/' && (s[1] == '/' || s[1] == '*') {
        LineKind::Comment
    } else {
        LineKind::Code
    }
}

/// How many lines of a sequence are of the given kind.
pub open spec fn count_lines_of_kind(lines: Seq<Seq<char>>, k: LineKind) -> nat
    decreases lines,
{
    if lines.len() == 0 {
        0
    } else {
        count_lines_of_kind(lines.drop_last(), k) + (if classify_line(lines.last()) == k {
            1nat
        } else {
            0nat
        })
    }
}

/// The three line kinds partition any sequence of lines: code, comment and
/// blank counts always sum to the number of lines.
pub proof fn lemma_line_kinds_partition(lines: Seq<Seq<char>>)
    ensures
        count_lines_of_kind(lines, LineKind::Code) + count_lines_of_kind(lines, LineKind::Comment)
            + count_lines_of_kind(lines, LineKind::Blank) == lines.len(),
    decreases lines,
{
    if lines.len() > 0 {
        lemma_line_kinds_partition(lines.drop_last());
    }
}

/// The kind of the line's suffix starting at character `i`.
fn classify_from(line: &str, i: usize, n: usize) -> (k: LineKind)
    requires
        n == line@.len(),
        i <= n,
    ensures
        k == classify_line(line@.skip(i as int)),
    decreases n - i,
{
    proof {
        assert(line@.skip(i as int).len() == n - i);
    }
    if i >= n {
        LineKind::Blank
    } else {
        let c = line.get_char(i);
        proof {
            assert(line@.skip(i as int)[0] == line@[i as int]);
        }
        if is_blank(c) {
            proof {
                assert(line@.skip(i as int).drop_first() =~= line@.skip(i as int + 1));
            }
            classify_from(line, i + 1, n)
        } else if c == '/' && i + 1 < n {
            let c2 = line.get_char(i + 1);
            proof {
                assert(line@.skip(i as int)[1] == line@[i as int + 1]);
            }
            if c2 == '/' || c2 == '*' {
                LineKind::Comment
            } else {
                LineKind::Code
            }
        } else {
            LineKind::Code
        }
    }
}

/// The kind of one whole line.
fn classify(line: &str) -> (k: LineKind)
    ensures
        k == classify_line(line@),
{
    let n = line.unicode_len();
    proof {
        assert(line@.skip(0) =~= line@);
    }
    classify_from(line, 0, n)
}

/// Counts a function span's lines by kind.
///
/// Returns `(total, code, comment, empty)`; the three kinds partition the
/// span, so `code + comment + empty == total` on every input.
pub fn count_function_lines(func: &FunctionSpan) -> (r: (usize, usize, usize, usize))
    ensures
        r.0 == func@.lines.len(),
        r.1 == count_lines_of_kind(func@.lines, LineKind::Code),
        r.2 == count_lines_of_kind(func@.lines, LineKind::Comment),
        r.3 == count_lines_of_kind(func@.lines, LineKind::Blank),
        r.0 == r.1 + r.2 + r.3,
{
    let mut code: usize = 0;
    let mut comment: usize = 0;
    let mut empty: usize = 0;
    let mut i: usize = 0;
    let n = func.lines.len();
    while i < n
        invariant
            i <= n,
            n == func.lines.len(),
            code == count_lines_of_kind(func@.lines.take(i as int), LineKind::Code),
            comment == count_lines_of_kind(func@.lines.take(i as int), LineKind::Comment),
            empty == count_lines_of_kind(func@.lines.take(i as int), LineKind::Blank),
            code + comment + empty == i,
        decreases n - i,
    {
        let k = classify(func.lines[i].as_str());
        proof {
            let ls = func@.lines;
            assert(ls.take(i + 1).drop_last() =~= ls.take(i as int));
            assert(ls.take(i + 1).last() == ls[i as int]);
        }
        match k {
            LineKind::Code => {
                code = code + 1;
            },
            LineKind::Comment => {
                comment = comment + 1;
            },
            LineKind::Blank => {
                empty = empty + 1;
            },
        }
        i = i + 1;
    }
    proof {
        assert(func@.lines.take(n as int) =~= func@.lines);
    }
    (n, code, comment, empty)
}

/// Whether two string slices hold the same characters.
fn str_eq(a: &str, b: &str) -> (r: bool)
    ensures
        r == (a@ == b@),
{
    let an = a.unicode_len();
    let bn = b.unicode_len();
    if an != bn {
        return false;
    }
    let mut j: usize = 0;
    while j < an
        invariant
            j <= an,
            an == a@.len(),
            an == b@.len(),
            forall|jj: int| 0 <= jj < j ==> a@[jj] == b@[jj],
        decreases an - j,
    {
        if a.get_char(j) != b.get_char(j) {
            return false;
        }
        j = j + 1;
    }
    proof {
        assert(a@ =~= b@);
    }
    true
}

/// The first function of the unit, in source order, that bears the given
/// name.
pub open spec fn find_function(fns: Seq<FnDef>, name: Seq<char>) -> Option<FnDef>
    decreases fns,
{
    if fns.len() == 0 {
        None
    } else if fns[0].name@ == name {
        Some(fns[0])
    } else {
        find_function(fns.drop_first(), name)
    }
}

/// Looks a function up by name.
fn find_function_in<'a>(unit: &'a SourceUnit, name: &str) -> (r: Option<&'a FnDef>)
    ensures
        match r {
            Some(f) => find_function(unit.functions@, name@) == Some(*f),
            None => find_function(unit.functions@, name@) is None,
        },
{
    let n = unit.functions.len();
    let mut i: usize = 0;
    proof {
        assert(unit.functions@.skip(0) =~= unit.functions@);
    }
    while i < n
        invariant
            i <= n,
            n == unit.functions@.len(),
            find_function(unit.functions@, name@) == find_function(
                unit.functions@.skip(i as int),
                name@,
            ),
        decreases n - i,
    {
        proof {
            let fns = unit.functions@;
            assert(fns.skip(i as int).drop_first() =~= fns.skip(i + 1));
            assert(fns.skip(i as int)[0] == fns[i as int]);
        }
        if str_eq(unit.functions[i].name.as_str(), name) {
            return Some(&unit.functions[i]);
        }
        i = i + 1;
    }
    proof {
        assert(unit.functions@.skip(n as int) =~= Seq::<FnDef>::empty());
    }
    None
}

/// The cyclomatic complexity reported for a name looked up in a unit:
/// the first function of that name measured (capped at `usize::MAX`), or
/// the lenient default of 1 when no such function exists.
pub open spec fn complexity_of_named(fns: Seq<FnDef>, name: Seq<char>) -> nat {
    match find_function(fns, name) {
        Some(f) => cap(body_complexity(f.body)),
        None => 1,
    }
}

/// The nesting depth reported for a name looked up in a unit: the first
/// function of that name measured (capped at `usize::MAX`), or the lenient
/// default of 0 when no such function exists.
pub open spec fn nesting_of_named(fns: Seq<FnDef>, name: Seq<char>) -> nat {
    match find_function(fns, name) {
        Some(f) => cap(body_nesting(f.body)),
        None => 0,
    }
}

/// Calculates the cyclomatic complexity of the named function of a parsed
/// source unit. A name that is not found yields the default complexity 1
/// rather than an error.
pub fn calculate_cyclomatic_complexity_from_source(unit: &SourceUnit, function_name: &str) -> (r:
    usize)
    ensures
        r as nat == complexity_of_named(unit.functions@, function_name@),
{
    match find_function_in(unit, function_name) {
        Some(f) => calculate_cyclomatic_complexity(f),
        None => 1,
    }
}

/// Calculates the nesting depth of the named function of a parsed source
/// unit. A name that is not found yields the default depth 0 rather than
/// an error.
pub fn calculate_nesting_depth_from_source(unit: &SourceUnit, function_name: &str) -> (r: usize)
    ensures
        r as nat == nesting_of_named(unit.functions@, function_name@),
{
    match find_function_in(unit, function_name) {
        Some(f) => calculate_nesting_depth(f),
        None => 0,
    }
}

/// Calculates both structural metrics of the named function of a parsed
/// source unit, with the lenient defaults `(1, 0)` when the name is not
/// found.
pub fn calculate_function_metrics(unit: &SourceUnit, function_name: &str) -> (r: (usize, usize))
    ensures
        r.0 as nat == complexity_of_named(unit.functions@, function_name@),
        r.1 as nat == nesting_of_named(unit.functions@, function_name@),
        find_function(unit.functions@, function_name@) is None ==> r == (1usize, 0usize),
{
    match find_function_in(unit, function_name) {
        Some(f) => (calculate_cyclomatic_complexity(f), calculate_nesting_depth(f)),
        None => (1, 0),
    }
}

/// Result of analyzing one function: its (possibly path-qualified) name,
/// its line composition, and the two structural metrics.
#[derive(Debug)]
pub struct FunctionAnalysisResult {
    pub name: String,
    pub total: usize,
    pub code: usize,
    pub comment: usize,
    pub empty: usize,
    pub cyclomatic_complexity: usize,
    pub nesting_depth: usize,
}

/// What one result record holds, mathematically.
#[verifier::ext_equal]
pub struct ResultView {
    pub name: Seq<char>,
    pub total: nat,
    pub code: nat,
    pub comment: nat,
    pub empty: nat,
    pub cyclomatic_complexity: nat,
    pub nesting_depth: nat,
}

impl View for FunctionAnalysisResult {
    type V = ResultView;

    open spec fn view(&self) -> ResultView {
        ResultView {
            name: self.name@,
            total: self.total as nat,
            code: self.code as nat,
            comment: self.comment as nat,
            empty: self.empty as nat,
            cyclomatic_complexity: self.cyclomatic_complexity as nat,
            nesting_depth: self.nesting_depth as nat,
        }
    }
}

impl Clone for FunctionAnalysisResult {
    /// A clone carries exactly the same values.
    fn clone(&self) -> (r: Self)
        ensures
            r@ == self@,
    {
        FunctionAnalysisResult {
            name: self.name.clone(),
            total: self.total,
            code: self.code,
            comment: self.comment,
            empty: self.empty,
            cyclomatic_complexity: self.cyclomatic_complexity,
            nesting_depth: self.nesting_depth,
        }
    }
}

/// The record produced for one span analyzed against a parsed unit: line
/// composition counts from the span's text, structural metrics from the
/// unit's function of the same name (with the lenient defaults when it is
/// absent).
pub open spec fn spec_analyze(span: crate::function_extractor::SpanView, fns: Seq<FnDef>)
    -> ResultView {
    ResultView {
        name: span.name,
        total: span.lines.len(),
        code: count_lines_of_kind(span.lines, LineKind::Code),
        comment: count_lines_of_kind(span.lines, LineKind::Comment),
        empty: count_lines_of_kind(span.lines, LineKind::Blank),
        cyclomatic_complexity: complexity_of_named(fns, span.name),
        nesting_depth: nesting_of_named(fns, span.name),
    }
}

/// Combines the line composition of a span with the structural metrics of
/// the function of the same name in the parsed unit.
pub fn analyze_function_complete(func: &FunctionSpan, unit: &SourceUnit) -> (r:
    FunctionAnalysisResult)
    ensures
        r@ == spec_analyze(func@, unit.functions@),
{
    let counts = count_function_lines(func);
    let metrics = calculate_function_metrics(unit, func.name.as_str());
    let r = FunctionAnalysisResult {
        name: func.name.clone(),
        total: counts.0,
        code: counts.1,
        comment: counts.2,
        empty: counts.3,
        cyclomatic_complexity: metrics.0,
        nesting_depth: metrics.1,
    };
    proof {
        assert(r@ =~= spec_analyze(func@, unit.functions@));
    }
    r
}

/// Analyzes the line composition, cyclomatic complexity, and nesting depth
/// of one function span.
pub fn analyze_function_lines(func: &FunctionSpan, unit: &SourceUnit) -> (r:
    FunctionAnalysisResult)
    ensures
        r@ == spec_analyze(func@, unit.functions@),
{
    analyze_function_complete(func, unit)
}

/// The records produced for one file: one per extracted span, in source
/// order.
pub open spec fn spec_file_results(lines: Seq<String>, fns: Seq<FnDef>) -> Seq<ResultView> {
    crate::function_extractor::spec_spans(lines, fns).map_values(
        |sv: crate::function_extractor::SpanView| spec_analyze(sv, fns),
    )
}

/// Analyzes every function of one file: extracts each function's span from
/// the file's lines and combines its line composition with its structural
/// metrics.
pub fn analyze_file_functions(lines: &Vec<String>, unit: &SourceUnit) -> (r: Vec<
    FunctionAnalysisResult,
>)
    ensures
        r@.map_values(|x: FunctionAnalysisResult| x@) == spec_file_results(
            lines@,
            unit.functions@,
        ),
{
    let spans = crate::function_extractor::extract_function_spans(lines, unit);
    let mut results: Vec<FunctionAnalysisResult> = Vec::new();
    let n = spans.len();
    let ghost target = spec_file_results(lines@, unit.functions@);
    let mut i: usize = 0;
    while i < n
        invariant
            i <= n,
            n == spans@.len(),
            spans@.map_values(|sp: FunctionSpan| sp@) == crate::function_extractor::spec_spans(
                lines@,
                unit.functions@,
            ),
            target == spec_file_results(lines@, unit.functions@),
            target.len() == n,
            results@.map_values(|x: FunctionAnalysisResult| x@) =~= target.take(i as int),
        decreases n - i,
    {
        let rec = analyze_function_complete(&spans[i], unit);
        proof {
            assert(spans@.map_values(|sp: FunctionSpan| sp@)[i as int] == spans@[i as int]@);
            assert(target[i as int] == rec@);
            assert(results@.push(rec).map_values(|x: FunctionAnalysisResult| x@) =~= results@
                .map_values(|x: FunctionAnalysisResult| x@).push(rec@));
            assert(results@.map_values(|x: FunctionAnalysisResult| x@).push(rec@) =~= target.take(
                i + 1,
            ));
        }
        results.push(rec);
        i = i + 1;
    }
    proof {
        assert(target.take(n as int) =~= target);
    }
    results
}

/// The end of the separator-free run that starts at position `i`: the
/// first position at or after `i` that holds a `/`, or the path's end.
pub open spec fn run_end(s: Seq<char>, i: int) -> int
    decreases s.len() - i,
{
    if i < 0 || i >= s.len() || s[i] == '/' {
        i
    } else {
        run_end(s, i + 1)
    }
}

/// A run's end lies between its start and the path's end.
proof fn lemma_run_end_range(s: Seq<char>, i: int)
    requires
        0 <= i <= s.len(),
    ensures
        i <= run_end(s, i) <= s.len(),
    decreases s.len() - i,
{
    if i < s.len() && s[i] != '/' {
        lemma_run_end_range(s, i + 1);
    }
}

/// The path's segments from position `i` on: its maximal separator-free
/// runs of characters, in order.
pub open spec fn segments_from(s: Seq<char>, i: int) -> Seq<Seq<char>>
    decreases s.len() - i,
    via segments_from_decreases
{
    if i < 0 || i >= s.len() {
        Seq::empty()
    } else if s[i] == '/' {
        segments_from(s, i + 1)
    } else {
        seq![s.subrange(i, run_end(s, i))] + segments_from(s, run_end(s, i))
    }
}

#[via_fn]
proof fn segments_from_decreases(s: Seq<char>, i: int) {
    if 0 <= i < s.len() && s[i] != '/' {
        lemma_run_end_range(s, i + 1);
    }
}

/// Whether the segment at index `k` survives normalization: a `.` segment
/// stands only as the first component of a rootless path; every other
/// segment is kept.
pub open spec fn keeps_segment(segs: Seq<Seq<char>>, k: int, root: bool) -> bool {
    segs[k] != seq!['.'] || (k == 0 && !root)
}

/// The segments that survive normalization, in order.
pub open spec fn kept_segments(segs: Seq<Seq<char>>, root: bool) -> Seq<Seq<char>>
    decreases segs,
{
    if segs.len() == 0 {
        Seq::empty()
    } else {
        kept_segments(segs.drop_last(), root) + (if keeps_segment(segs, segs.len() - 1, root) {
            seq![segs.last()]
        } else {
            Seq::<Seq<char>>::empty()
        })
    }
}

/// Components joined with a single separator between each two.
pub open spec fn join_components(comps: Seq<Seq<char>>) -> Seq<char>
    decreases comps.len(),
{
    if comps.len() == 0 {
        Seq::empty()
    } else if comps.len() == 1 {
        comps[0]
    } else {
        comps[0] + seq!['/'] + join_components(comps.drop_first())
    }
}

/// Appending one more component extends the join by one separator and the
/// component (no separator when it is the first).
proof fn lemma_join_push(comps: Seq<Seq<char>>, x: Seq<char>)
    ensures
        join_components(comps.push(x)) == if comps.len() == 0 {
            x
        } else {
            join_components(comps) + seq!['/'] + x
        },
    decreases comps.len(),
{
    if comps.len() == 0 {
        assert(comps.push(x).len() == 1);
        assert(comps.push(x)[0] == x);
    } else {
        assert(comps.push(x).drop_first() =~= comps.drop_first().push(x));
        lemma_join_push(comps.drop_first(), x);
        assert(comps.push(x)[0] == comps[0]);
        if comps.len() == 1 {
            assert(join_components(comps.push(x)) =~= comps[0] + seq!['/'] + x);
        } else {
            assert(join_components(comps.push(x)) =~= join_components(comps) + seq!['/'] + x);
        }
    }
}

/// The path's components: a root component for a leading separator, then
/// the surviving segments.
pub open spec fn path_components(s: Seq<char>) -> Seq<Seq<char>> {
    let root = s.len() > 0 && s[0] == '/';
    (if root {
        seq![seq!['/']]
    } else {
        Seq::<Seq<char>>::empty()
    }) + kept_segments(segments_from(s, 0), root)
}

/// A path normalized for consistent output: its components joined with
/// single forward slashes. Runs of separators collapse, a trailing
/// separator and interior `.` segments drop; a leading root or `.` and
/// every `..` stay. A backslash is an ordinary file-name character and is
/// kept as it is.
pub open spec fn normalized_path(s: Seq<char>) -> Seq<char> {
    join_components(path_components(s))
}

/// Normalizes a file path by joining its components with forward slashes.
pub fn normalize_path(path: &str) -> (r: String)
    ensures
        r@ == normalized_path(path@),
{
    let n = path.unicode_len();
    let ghost s = path@;
    let ghost segs = segments_from(s, 0);
    let root = n > 0 && path.get_char(0) == '/';
    let ghost root_comps: Seq<Seq<char>> = if root {
        seq![seq!['/']]
    } else {
        Seq::empty()
    };
    let mut out = String::new();
    let mut started = root;
    let mut first_seg = true;
    let ghost mut seg_idx: int = 0;
    if root {
        out.append("/");
    }
    proof {
        reveal_strlit("/");
        assert(segs.take(0) =~= Seq::<Seq<char>>::empty());
        assert(root_comps + kept_segments(segs.take(0), root) =~= root_comps);
        assert(out@ =~= join_components(root_comps + kept_segments(segs.take(0), root)));
        assert(segs.skip(0) =~= segs);
    }
    let mut i: usize = 0;
    while i < n
        invariant
            i <= n,
            n == s.len(),
            s == path@,
            segs == segments_from(s, 0),
            root == (s.len() > 0 && s[0] == '/'),
            root_comps == (if root {
                seq![seq!['/']]
            } else {
                Seq::<Seq<char>>::empty()
            }),
            0 <= seg_idx <= segs.len(),
            first_seg == (seg_idx == 0),
            segments_from(s, i as int) == segs.skip(seg_idx),
            out@ == join_components(root_comps + kept_segments(segs.take(seg_idx), root)),
            started == ((root_comps + kept_segments(segs.take(seg_idx), root)).len() > 0),
        decreases n - i,
    {
        let c = path.get_char(i);
        if c == '/' {
            i = i + 1;
        } else {
            let mut j: usize = i;
            while j < n && path.get_char(j) != '/'
                invariant
                    i <= j <= n,
                    n == s.len(),
                    s == path@,
                    run_end(s, i as int) == run_end(s, j as int),
                decreases n - j,
            {
                j = j + 1;
            }
            proof {
                assert(run_end(s, j as int) == j);
                assert(segments_from(s, i as int) == seq![s.subrange(i as int, j as int)]
                    + segments_from(s, j as int));
                assert(segs.skip(seg_idx)[0] == segs[seg_idx]);
                assert(segs[seg_idx] == s.subrange(i as int, j as int));
                assert(segs.skip(seg_idx).drop_first() =~= segs.skip(seg_idx + 1));
                assert(segments_from(s, j as int) =~= segs.skip(seg_idx).drop_first());
            }
            let is_dot = j == i + 1 && c == '.';
            proof {
                if j == i + 1 && s[i as int] == '.' {
                    assert(s.subrange(i as int, j as int) =~= seq!['.']);
                } else {
                    assert(s.subrange(i as int, j as int) != seq!['.']) by {
                        if s.subrange(i as int, j as int) == seq!['.'] {
                            assert(s.subrange(i as int, j as int).len() == 1);
                            assert(s.subrange(i as int, j as int)[0] == s[i as int]);
                        }
                    }
                }
                assert(segs.take(seg_idx + 1).drop_last() =~= segs.take(seg_idx));
                assert(segs.take(seg_idx + 1).last() == segs[seg_idx]);
            }
            let keep = !is_dot || (first_seg && !root);
            proof {
                assert(keep == keeps_segment(segs, seg_idx, root));
                assert(keeps_segment(segs.take(seg_idx + 1), seg_idx, root) == keeps_segment(
                    segs,
                    seg_idx,
                    root,
                ));
            }
            if keep {
                if started {
                    out.append("/");
                }
                let piece = path.substring_char(i, j);
                out.append(piece);
                proof {
                    reveal_strlit("/");
                    let prev = root_comps + kept_segments(segs.take(seg_idx), root);
                    lemma_join_push(prev, segs[seg_idx]);
                    assert(prev.push(segs[seg_idx]) =~= root_comps + kept_segments(
                        segs.take(seg_idx + 1),
                        root,
                    ));
                    assert(out@ == join_components(
                        root_comps + kept_segments(segs.take(seg_idx + 1), root),
                    ));
                }
                started = true;
            } else {
                proof {
                    assert(root_comps + kept_segments(segs.take(seg_idx + 1), root) =~= root_comps
                        + kept_segments(segs.take(seg_idx), root));
                }
            }
            proof {
                seg_idx = seg_idx + 1;
            }
            first_seg = false;
            i = j;
        }
    }
    proof {
        assert(segments_from(s, i as int) =~= Seq::<Seq<char>>::empty());
        assert(segs.skip(seg_idx).len() == 0);
        assert(segs.take(seg_idx) =~= segs);
    }
    out
}

/// A sequence of characters that holds no separator.
pub open spec fn slash_free(x: Seq<char>) -> bool {
    forall|t: int| 0 <= t < x.len() ==> #[trigger] x[t] != '/'
}

/// A well-formed segment list: every segment is nonempty and separator-free.
pub open spec fn wf_segments(segs: Seq<Seq<char>>) -> bool {
    forall|k: int|
        0 <= k < segs.len() ==> (#[trigger] segs[k]).len() > 0 && slash_free(segs[k])
}

/// The characters of a run, up to its end, are not separators.
proof fn lemma_run_chars(s: Seq<char>, i: int)
    requires
        0 <= i <= s.len(),
    ensures
        forall|t: int| i <= t < run_end(s, i) ==> #[trigger] s[t] != '/',
    decreases s.len() - i,
{
    if i < s.len() && s[i] != '/' {
        lemma_run_chars(s, i + 1);
        lemma_run_end_range(s, i + 1);
    }
}

/// A run ends exactly at the first separator (or the path's end) after a
/// separator-free stretch.
proof fn lemma_run_to(s: Seq<char>, i: int, m: int)
    requires
        0 <= i <= m <= s.len(),
        forall|t: int| i <= t < m ==> #[trigger] s[t] != '/',
        m == s.len() || s[m] == '/',
    ensures
        run_end(s, i) == m,
    decreases m - i,
{
    if i < m {
        lemma_run_to(s, i + 1, m);
    }
}

/// A run's end is invariant under shifting the sequence.
proof fn lemma_run_end_shift(s: Seq<char>, i: int, k: int)
    requires
        0 <= i,
        0 <= k,
        i + k <= s.len(),
    ensures
        run_end(s, i + k) == i + run_end(s.skip(i), k),
    decreases s.len() - i - k,
{
    if i + k < s.len() && s[i + k] != '/' {
        lemma_run_end_shift(s, i, k + 1);
    }
}

/// The segments of a shifted sequence are the segments read from the
/// shifted position.
proof fn lemma_segments_shift(s: Seq<char>, i: int, k: int)
    requires
        0 <= i,
        0 <= k,
        i + k <= s.len(),
    ensures
        segments_from(s, i + k) == segments_from(s.skip(i), k),
    decreases s.len() - i - k,
{
    if i + k >= s.len() {
    } else if s[i + k] == '/' {
        lemma_segments_shift(s, i, k + 1);
    } else {
        lemma_run_end_shift(s, i, k);
        lemma_run_end_range(s, i + k);
        lemma_run_end_range(s, i + k + 1);
        lemma_segments_shift(s, i, run_end(s, i + k) - i);
        assert(s.subrange(i + k, run_end(s, i + k)) =~= s.skip(i).subrange(
            k,
            run_end(s, i + k) - i,
        ));
        assert(segments_from(s, i + k) =~= segments_from(s.skip(i), k));
    }
}

/// Every segment a path splits into is nonempty and separator-free.
proof fn lemma_segments_wf(s: Seq<char>, i: int)
    requires
        0 <= i <= s.len(),
    ensures
        wf_segments(segments_from(s, i)),
    decreases s.len() - i,
{
    if i >= s.len() {
    } else if s[i] == '/' {
        lemma_segments_wf(s, i + 1);
    } else {
        lemma_run_end_range(s, i + 1);
        lemma_run_chars(s, i);
        lemma_segments_wf(s, run_end(s, i));
        let head = s.subrange(i, run_end(s, i));
        assert(slash_free(head)) by {
            assert(forall|u: int| 0 <= u < head.len() ==> #[trigger] head[u] == s[i + u]);
        }
        assert(wf_segments(seq![head] + segments_from(s, run_end(s, i)))) by {
            let whole = seq![head] + segments_from(s, run_end(s, i));
            assert(forall|k: int|
                1 <= k < whole.len() ==> #[trigger] whole[k] == segments_from(
                    s,
                    run_end(s, i),
                )[k - 1]);
        }
    }
}

/// Filtering keeps segments well-formed.
proof fn lemma_kept_wf(segs: Seq<Seq<char>>, root: bool)
    requires
        wf_segments(segs),
    ensures
        wf_segments(kept_segments(segs, root)),
    decreases segs,
{
    if segs.len() > 0 {
        assert(wf_segments(segs.drop_last())) by {
            assert(forall|k: int|
                0 <= k < segs.drop_last().len() ==> #[trigger] segs.drop_last()[k] == segs[k]);
        }
        lemma_kept_wf(segs.drop_last(), root);
        let kd = kept_segments(segs.drop_last(), root);
        let whole = kept_segments(segs, root);
        assert(wf_segments(whole)) by {
            assert(forall|k: int|
                0 <= k < kd.len() ==> #[trigger] whole[k] == kd[k]);
            if keeps_segment(segs, segs.len() - 1, root) {
                assert(whole[whole.len() - 1] == segs.last());
            }
        }
    }
}

/// A `.` survives filtering only as the first kept segment of a rootless
/// path.
proof fn lemma_kept_dots(segs: Seq<Seq<char>>, root: bool)
    ensures
        forall|k: int|
            0 <= k < kept_segments(segs, root).len() ==> (#[trigger] kept_segments(segs, root)[k]
                == seq!['.'] ==> k == 0 && !root),
    decreases segs,
{
    if segs.len() > 0 {
        lemma_kept_dots(segs.drop_last(), root);
        let kd = kept_segments(segs.drop_last(), root);
        let whole = kept_segments(segs, root);
        assert forall|k: int|
            0 <= k < whole.len() && #[trigger] whole[k] == seq!['.'] implies k == 0 && !root by {
            if k < kd.len() {
                assert(whole[k] == kd[k]);
            } else {
                assert(keeps_segment(segs, segs.len() - 1, root));
                assert(whole[k] == segs.last());
                assert(segs.len() == 1);
                assert(kept_segments(segs.drop_last(), root) =~= Seq::<Seq<char>>::empty());
            }
        }
    }
}

/// When every segment is kept, filtering changes nothing.
proof fn lemma_kept_all(segs: Seq<Seq<char>>, root: bool)
    requires
        forall|k: int| 0 <= k < segs.len() ==> keeps_segment(segs, k, root),
    ensures
        kept_segments(segs, root) == segs,
    decreases segs,
{
    if segs.len() > 0 {
        assert forall|k: int|
            0 <= k < segs.drop_last().len() implies keeps_segment(segs.drop_last(), k, root) by {
            assert(segs.drop_last()[k] == segs[k]);
            assert(keeps_segment(segs, k, root));
        }
        lemma_kept_all(segs.drop_last(), root);
        assert(keeps_segment(segs, segs.len() - 1, root));
        assert(kept_segments(segs, root) =~= segs);
    }
}

/// Splitting the join of a well-formed segment list recovers exactly that
/// list; the join is nonempty and opens with the first segment's first
/// character.
proof fn lemma_join_parse(comps: Seq<Seq<char>>)
    requires
        wf_segments(comps),
        comps.len() > 0,
    ensures
        join_components(comps).len() > 0,
        join_components(comps)[0] == comps[0][0],
        segments_from(join_components(comps), 0) == comps,
    decreases comps.len(),
{
    let out = join_components(comps);
    assert(comps[0].len() > 0 && slash_free(comps[0]));
    if comps.len() == 1 {
        assert(out == comps[0]);
        assert(out[0] == comps[0][0]);
        assert(out[0] != '/');
        lemma_run_to(out, 0, out.len() as int);
        assert(out.subrange(0, out.len() as int) =~= out);
        assert(segments_from(out, 0) == seq![out.subrange(0, run_end(out, 0))] + segments_from(
            out,
            run_end(out, 0),
        ));
        assert(segments_from(out, out.len() as int) =~= Seq::<Seq<char>>::empty());
        assert(segments_from(out, 0) =~= comps);
    } else {
        let tail = comps.drop_first();
        assert(wf_segments(tail)) by {
            assert(forall|k: int| 0 <= k < tail.len() ==> #[trigger] tail[k] == comps[k + 1]);
        }
        lemma_join_parse(tail);
        let rest = join_components(tail);
        let m = comps[0].len() as int;
        assert(out == comps[0] + seq!['/'] + rest);
        assert(forall|t: int| 0 <= t < m ==> #[trigger] out[t] == comps[0][t]);
        assert(out[m] == '/');
        assert(out.skip(m + 1) =~= rest);
        lemma_run_to(out, 0, m);
        assert(out.subrange(0, m) =~= comps[0]);
        assert(out[0] == comps[0][0]);
        assert(out[0] != '/');
        assert(segments_from(out, 0) == seq![out.subrange(0, run_end(out, 0))] + segments_from(
            out,
            run_end(out, 0),
        ));
        assert(segments_from(out, m) == segments_from(out, m + 1));
        lemma_segments_shift(out, m + 1, 0);
        assert(segments_from(out.skip(m + 1), 0) == segments_from(rest, 0));
        assert(segments_from(out, 0) =~= seq![comps[0]] + tail);
        assert(seq![comps[0]] + tail =~= comps);
    }
}

/// Normalizing is idempotent: normalizing an already-normalized path
/// changes nothing.
pub proof fn lemma_normalize_idempotent(s: Seq<char>)
    ensures
        normalized_path(normalized_path(s)) == normalized_path(s),
{
    let root = s.len() > 0 && s[0] == '/';
    let segs = segments_from(s, 0);
    let kept = kept_segments(segs, root);
    let rc: Seq<Seq<char>> = if root {
        seq![seq!['/']]
    } else {
        Seq::empty()
    };
    let comps = rc + kept;
    let out = join_components(comps);
    assert(path_components(s) == comps);
    lemma_segments_wf(s, 0);
    lemma_kept_wf(segs, root);
    lemma_kept_dots(segs, root);
    if comps.len() == 0 {
        assert(out =~= Seq::<char>::empty());
        assert(segments_from(out, 0) =~= Seq::<Seq<char>>::empty());
        assert(path_components(out) =~= comps);
        assert(normalized_path(out) == out);
    } else if root {
        if kept.len() == 0 {
            assert(comps =~= seq![seq!['/']]);
            assert(out == seq!['/']);
            assert(segments_from(out, 1) =~= Seq::<Seq<char>>::empty());
            assert(segments_from(out, 0) =~= Seq::<Seq<char>>::empty());
            assert(kept_segments(segments_from(out, 0), true) =~= Seq::<Seq<char>>::empty());
            assert(path_components(out) =~= comps);
            assert(normalized_path(out) == out);
        } else {
            let jk = join_components(kept);
            assert(wf_segments(kept));
            lemma_join_parse(kept);
            assert(comps[0] =~= seq!['/']);
            assert(comps.drop_first() =~= kept);
            assert(out == comps[0] + seq!['/'] + join_components(comps.drop_first()));
            assert(out =~= seq!['/'] + seq!['/'] + jk);
            assert(out[0] == '/');
            assert(out[1] == '/');
            assert(out.skip(2) =~= jk);
            lemma_segments_shift(out, 2, 0);
            assert(segments_from(out, 0) == segments_from(out, 1));
            assert(segments_from(out, 1) == segments_from(out, 2));
            assert(segments_from(out, 2) == segments_from(jk, 0));
            assert(segments_from(out, 0) == kept);
            assert(forall|k: int| 0 <= k < kept.len() ==> keeps_segment(kept, k, true)) by {
                assert(forall|k: int|
                    0 <= k < kept.len() ==> (#[trigger] kept[k] == seq!['.'] ==> !root));
            }
            lemma_kept_all(kept, true);
            assert(path_components(out) =~= comps);
            assert(normalized_path(out) == out);
        }
    } else {
        assert(comps =~= kept);
        assert(wf_segments(kept));
        lemma_join_parse(kept);
        assert(out == join_components(kept));
        assert(out.len() > 0);
        assert(out[0] == kept[0][0]);
        assert(out[0] != '/');
        assert(segments_from(out, 0) == kept);
        assert(forall|k: int| 0 <= k < kept.len() ==> keeps_segment(kept, k, false)) by {
            assert(forall|k: int|
                1 <= k < kept.len() ==> (#[trigger] kept[k] == seq!['.'] ==> k == 0));
        }
        lemma_kept_all(kept, false);
        assert(path_components(out) =~= kept);
        assert(normalized_path(out) == out);
    }
}

/// One source file handed to the aggregator: its path, its lines of text,
/// and its parsed unit.
pub struct SourceFile {
    pub path: String,
    pub lines: Vec<String>,
    pub unit: SourceUnit,
}

/// A function name qualified with its normalized source file path.
pub open spec fn qualified_name(path: Seq<char>, name: Seq<char>) -> Seq<char> {
    normalized_path(path) + seq![':', ':'] + name
}

/// The records of one file with each name qualified by the file's path.
pub open spec fn spec_qualified_results(f: SourceFile) -> Seq<ResultView> {
    spec_file_results(f.lines@, f.unit.functions@).map_values(
        |rv: ResultView|
            ResultView {
                name: qualified_name(f.path@, rv.name),
                total: rv.total,
                code: rv.code,
                comment: rv.comment,
                empty: rv.empty,
                cyclomatic_complexity: rv.cyclomatic_complexity,
                nesting_depth: rv.nesting_depth,
            },
    )
}

/// The records of many files, flattened in file order.
pub open spec fn spec_all_results(files: Seq<SourceFile>) -> Seq<ResultView>
    decreases files,
{
    if files.len() == 0 {
        Seq::empty()
    } else {
        spec_all_results(files.drop_last()) + spec_qualified_results(files.last())
    }
}

/// Analyzes one file and qualifies each record's name with the file's
/// normalized path.
fn qualified_file_results(file: &SourceFile) -> (r: Vec<FunctionAnalysisResult>)
    ensures
        r@.map_values(|x: FunctionAnalysisResult| x@) == spec_qualified_results(*file),
{
    let results = analyze_file_functions(&file.lines, &file.unit);
    let prefix = normalize_path(file.path.as_str());
    let mut out: Vec<FunctionAnalysisResult> = Vec::new();
    let n = results.len();
    let ghost target = spec_qualified_results(*file);
    let mut j: usize = 0;
    while j < n
        invariant
            j <= n,
            n == results@.len(),
            prefix@ == normalized_path(file.path@),
            results@.map_values(|x: FunctionAnalysisResult| x@) == spec_file_results(
                file.lines@,
                file.unit.functions@,
            ),
            target == spec_qualified_results(*file),
            target.len() == n,
            out@.map_values(|x: FunctionAnalysisResult| x@) =~= target.take(j as int),
        decreases n - j,
    {
        let mut qname = prefix.clone();
        qname.append("::");
        qname.append(results[j].name.as_str());
        let rec = FunctionAnalysisResult {
            name: qname,
            total: results[j].total,
            code: results[j].code,
            comment: results[j].comment,
            empty: results[j].empty,
            cyclomatic_complexity: results[j].cyclomatic_complexity,
            nesting_depth: results[j].nesting_depth,
        };
        proof {
            reveal_strlit("::");
            assert(("::")@ =~= seq![':', ':']);
            assert(results@.map_values(|x: FunctionAnalysisResult| x@)[j as int] == results@[
                j as int]@);
            assert(rec@ =~= target[j as int]);
            assert(out@.push(rec).map_values(|x: FunctionAnalysisResult| x@) =~= out@.map_values(
                |x: FunctionAnalysisResult| x@,
            ).push(rec@));
            assert(out@.map_values(|x: FunctionAnalysisResult| x@).push(rec@) =~= target.take(
                j + 1,
            ));
        }
        out.push(rec);
        j = j + 1;
    }
    proof {
        assert(target.take(n as int) =~= target);
    }
    out
}

/// Analyzes all functions across many files: one record per function, with
/// path-qualified names, flattened in file order with in-file order kept.
/// No sorting happens here.
pub fn analyze_all_files(files: &Vec<SourceFile>) -> (r: Vec<FunctionAnalysisResult>)
    ensures
        r@.map_values(|x: FunctionAnalysisResult| x@) == spec_all_results(files@),
{
    let mut all: Vec<FunctionAnalysisResult> = Vec::new();
    let n = files.len();
    let mut i: usize = 0;
    while i < n
        invariant
            i <= n,
            n == files@.len(),
            all@.map_values(|x: FunctionAnalysisResult| x@) =~= spec_all_results(
                files@.take(i as int),
            ),
        decreases n - i,
    {
        let file_results = qualified_file_results(&files[i]);
        let m = file_results.len();
        let ghost qtarget = spec_qualified_results(files@[i as int]);
        let mut j: usize = 0;
        while j < m
            invariant
                j <= m,
                i < n,
                n == files@.len(),
                m == file_results@.len(),
                file_results@.map_values(|x: FunctionAnalysisResult| x@) == qtarget,
                qtarget == spec_qualified_results(files@[i as int]),
                all@.map_values(|x: FunctionAnalysisResult| x@) =~= spec_all_results(
                    files@.take(i as int),
                ) + qtarget.take(j as int),
            decreases m - j,
        {
            let rec = file_results[j].clone();
            proof {
                assert(file_results@.map_values(|x: FunctionAnalysisResult| x@)[j as int]
                    == file_results@[j as int]@);
                assert(all@.push(rec).map_values(|x: FunctionAnalysisResult| x@) =~= all@
                    .map_values(|x: FunctionAnalysisResult| x@).push(rec@));
                assert(qtarget.take(j as int).push(qtarget[j as int]) =~= qtarget.take(j + 1));
            }
            all.push(rec);
            j = j + 1;
        }
        proof {
            assert(files@.take(i + 1).drop_last() =~= files@.take(i as int));
            assert(files@.take(i + 1).last() == files@[i as int]);
            assert(qtarget.take(m as int) =~= qtarget);
        }
        i = i + 1;
    }
    proof {
        assert(files@.take(n as int) =~= files@);
    }
    all
}

} // verus!
