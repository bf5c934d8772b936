//! Rendering configuration and the whitespace formatter.
//!
//! A [`Formatter`] fixes the field separator, line-break token, indentation
//! and space token of one render. [`normalize`] is the post-processing pass:
//! in one-line mode every whitespace run collapses to a single space; in
//! multi-line mode a run that crosses a line break becomes one line
//! terminator followed by whatever indentation closed the run, so nested
//! statements keep their indent.

use crate::text::is_ws;
use crate::text::is_ws_char;
use crate::text::trim;
use crate::text::trim_seq;
use vstd::prelude::*;

verus! {

/// Rendering configuration: pure values, fixed for the whole of one render.
pub struct Formatter {
    pub comma: String,
    pub lb: String,
    pub indent: String,
    pub space: String,
}

/// The mathematical image of a [`Formatter`].
#[verifier::ext_equal]
pub ghost struct FmtModel {
    pub comma: Seq<char>,
    pub lb: Seq<char>,
    pub indent: Seq<char>,
    pub space: Seq<char>,
}

impl View for Formatter {
    type V = FmtModel;

    open spec fn view(&self) -> FmtModel {
        FmtModel { comma: self.comma@, lb: self.lb@, indent: self.indent@, space: self.space@ }
    }
}

/// The one-line configuration: no line-break token, no indentation.
pub open spec fn one_line_fmt() -> FmtModel {
    FmtModel { comma: ", "@, lb: ""@, indent: ""@, space: " "@ }
}

/// The multi-line configuration: clauses end lines, nesting indents.
pub open spec fn multiline_fmt() -> FmtModel {
    FmtModel { comma: ", "@, lb: "\n"@, indent: "  "@, space: " "@ }
}

/// Builds the one-line configuration.
pub fn one_line() -> (r: Formatter)
    ensures
        r@ == one_line_fmt(),
{
    let r = Formatter {
        comma: String::from_str(", "),
        lb: String::from_str(""),
        indent: String::from_str(""),
        space: String::from_str(" "),
    };
    proof {
        assert(r@ =~= one_line_fmt());
    }
    r
}

/// Builds the multi-line configuration.
pub fn multiline() -> (r: Formatter)
    ensures
        r@ == multiline_fmt(),
{
    let r = Formatter {
        comma: String::from_str(", "),
        lb: String::from_str("\n"),
        indent: String::from_str("  "),
        space: String::from_str(" "),
    };
    proof {
        assert(r@ =~= multiline_fmt());
    }
    r
}

/// Length of the longest prefix of `s` whose characters all answer `w`
/// to the whitespace test.
pub open spec fn run_len(s: Seq<char>, w: bool) -> int
    decreases s.len(),
{
    if s.len() > 0 && is_ws(s[0]) == w {
        1 + run_len(s.drop_first(), w)
    } else {
        0
    }
}

pub proof fn lemma_run_len_props(s: Seq<char>, w: bool)
    ensures
        0 <= run_len(s, w) <= s.len(),
        forall|k: int| 0 <= k < run_len(s, w) ==> is_ws(s[k]) == w,
        run_len(s, w) < s.len() ==> is_ws(s[run_len(s, w)]) != w,
    decreases s.len(),
{
    if s.len() > 0 && is_ws(s[0]) == w {
        lemma_run_len_props(s.drop_first(), w);
        assert forall|k: int| 0 <= k < run_len(s, w) implies is_ws(s[k]) == w by {
            if k > 0 {
                assert(s.drop_first()[k - 1] == s[k]);
            }
        }
        if run_len(s, w) < s.len() {
            assert(s.drop_first()[run_len(s, w) - 1] == s[run_len(s, w)]);
        }
    }
}

pub proof fn lemma_run_len_is(s: Seq<char>, w: bool, n: int)
    requires
        0 <= n <= s.len(),
        forall|k: int| 0 <= k < n ==> is_ws(s[k]) == w,
        n < s.len() ==> is_ws(s[n]) != w,
    ensures
        run_len(s, w) == n,
    decreases n,
{
    if n == 0 {
        if s.len() > 0 {
            assert(is_ws(s[0]) != w);
        }
    } else {
        assert(is_ws(s[0]) == w);
        let t = s.drop_first();
        assert(forall|k: int| 0 <= k < t.len() ==> t[k] == s[k + 1]);
        lemma_run_len_is(t, w, n - 1);
    }
}

/// Whether `s` holds a line break.
pub open spec fn contains_lb(s: Seq<char>) -> bool {
    exists|i: int| 0 <= i < s.len() && s[i] == '\n'
}

/// What follows the last line break of `s`.
pub open spec fn after_last_lb(s: Seq<char>) -> Seq<char>
    decreases s.len(),
{
    if s.len() == 0 {
        Seq::empty()
    } else if s.last() == '\n' {
        Seq::empty()
    } else {
        after_last_lb(s.drop_last()).push(s.last())
    }
}

pub proof fn lemma_after_last_lb_at(s: Seq<char>, k: int)
    requires
        0 < k <= s.len(),
        s[k - 1] == '\n',
        forall|m: int| k <= m < s.len() ==> s[m] != '\n',
    ensures
        after_last_lb(s) == s.subrange(k, s.len() as int),
    decreases s.len(),
{
    if k == s.len() {
        assert(s.last() == '\n');
        assert(after_last_lb(s) =~= s.subrange(k, s.len() as int));
    } else {
        assert(s.last() != '\n');
        let t = s.drop_last();
        assert(forall|m: int| k <= m < t.len() ==> t[m] == s[m]);
        lemma_after_last_lb_at(t, k);
        assert(after_last_lb(s) == t.subrange(k, t.len() as int).push(s.last()));
        assert(t.subrange(k, t.len() as int).push(s.last()) =~= s.subrange(k, s.len() as int));
    }
}

/// What one whitespace run becomes: in multi-line mode a run with a line
/// break keeps the break and the indentation that closed the run; any
/// other run becomes one space.
pub open spec fn ws_sep(run: Seq<char>, ml: bool) -> Seq<char> {
    if ml && contains_lb(run) {
        seq!['\n'] + after_last_lb(run)
    } else {
        seq![' ']
    }
}

/// The body of the formatting pass: every whitespace run is replaced by
/// [`ws_sep`] of it, everything else is kept.
pub open spec fn norm(s: Seq<char>, ml: bool) -> Seq<char>
    decreases s.len(),
    via norm_dec
{
    if s.len() == 0 {
        Seq::empty()
    } else {
        let w = is_ws(s[0]);
        let n = run_len(s, w);
        let head = if w {
            ws_sep(s.take(n), ml)
        } else {
            s.take(n)
        };
        head + norm(s.skip(n), ml)
    }
}

#[via_fn]
proof fn norm_dec(s: Seq<char>, ml: bool) {
    if s.len() > 0 {
        lemma_run_len_props(s, is_ws(s[0]));
        assert(run_len(s, is_ws(s[0])) >= 1);
    }
}

/// The whole formatting pass: runs collapsed, then both ends trimmed.
pub open spec fn formatted(s: Seq<char>, ml: bool) -> Seq<char> {
    trim_seq(norm(s, ml))
}

/// Applies the formatting pass that `fmts` selects: multi-line when the
/// configuration has a line-break token, one-line otherwise.
pub fn normalize(query: &str, fmts: &Formatter) -> (r: String)
    ensures
        r@ == formatted(query@, fmts@.lb.len() > 0),
{
    let ml = fmts.lb.unicode_len() > 0;
    let n: usize = query.unicode_len();
    let mut out = String::new();
    let mut i: usize = 0;
    proof {
        assert(query@.skip(0) =~= query@);
    }
    while i < n
        invariant
            n == query@.len(),
            i <= n,
            ml == (fmts@.lb.len() > 0),
            norm(query@, ml) == out@ + norm(query@.skip(i as int), ml),
        decreases n - i,
    {
        let c = query.get_char(i);
        if is_ws_char(c) {
            let mut j: usize = i + 1;
            let mut has_nl: bool = c == '\n';
            let mut nl_end: usize = if has_nl {
                i + 1
            } else {
                0
            };
            proof {
                let first = query@.subrange(i as int, i + 1);
                assert(first.len() == 1 && first[0] == query@[i as int]);
                if c == '\n' {
                    assert(contains_lb(first));
                } else {
                    assert(forall|m: int| 0 <= m < first.len() ==> first[m] != '\n');
                }
            }
            while j < n && is_ws_char(query.get_char(j))
                invariant
                    n == query@.len(),
                    i < j <= n,
                    forall|k: int| i <= k < j ==> is_ws(query@[k]),
                    has_nl == contains_lb(query@.subrange(i as int, j as int)),
                    has_nl ==> i < nl_end <= j && query@[nl_end - 1] == '\n',
                    has_nl ==> forall|m: int| nl_end <= m < j ==> query@[m] != '\n',
                decreases n - j,
            {
                let cj = query.get_char(j);
                proof {
                    let oldr = query@.subrange(i as int, j as int);
                    let newr = query@.subrange(i as int, j + 1);
                    assert(newr =~= oldr.push(query@[j as int]));
                    if query@[j as int] == '\n' {
                        assert(newr[j - i] == '\n');
                        assert(contains_lb(newr));
                    } else {
                        if contains_lb(newr) {
                            let m = choose|m: int|
                                0 <= m < newr.len() && newr[m] == '\n';
                            assert(m < j - i);
                            assert(oldr[m] == '\n');
                            assert(contains_lb(oldr));
                        }
                        if contains_lb(oldr) {
                            let m = choose|m: int|
                                0 <= m < oldr.len() && oldr[m] == '\n';
                            assert(newr[m] == '\n');
                            assert(contains_lb(newr));
                        }
                    }
                }
                if cj == '\n' {
                    has_nl = true;
                    nl_end = j + 1;
                }
                j = j + 1;
            }
            proof {
                let rem = query@.skip(i as int);
                let run = query@.subrange(i as int, j as int);
                assert(forall|k: int| 0 <= k < j - i ==> rem[k] == query@[i + k]);
                assert(forall|k: int| 0 <= k < j - i ==> is_ws(rem[k]));
                if j < n {
                    assert(rem[j - i] == query@[j as int]);
                }
                lemma_run_len_is(rem, true, j - i);
                assert(rem.take(j - i) =~= run);
                assert(rem.skip(j - i) =~= query@.skip(j as int));
                assert(norm(rem, ml) == ws_sep(run, ml) + norm(query@.skip(j as int), ml));
            }
            let ghost out0 = out@;
            if ml && has_nl {
                out.append("\n");
                let piece = query.substring_char(nl_end, j);
                out.append(piece);
                proof {
                    reveal_strlit("\n");
                    let run = query@.subrange(i as int, j as int);
                    lemma_after_last_lb_at(run, nl_end - i);
                    assert(run.subrange(nl_end - i, run.len() as int) =~= query@.subrange(
                        nl_end as int,
                        j as int,
                    ));
                    assert("\n"@ =~= seq!['\n']);
                    assert(ws_sep(run, ml) =~= "\n"@ + piece@);
                    assert(out@ =~= out0 + ws_sep(run, ml));
                }
            } else {
                out.append(" ");
                proof {
                    reveal_strlit(" ");
                    let run = query@.subrange(i as int, j as int);
                    assert(" "@ =~= seq![' ']);
                    assert(ws_sep(run, ml) =~= " "@);
                    assert(out@ =~= out0 + ws_sep(run, ml));
                }
            }
            proof {
                let run = query@.subrange(i as int, j as int);
                let tail = norm(query@.skip(j as int), ml);
                assert(out@ + tail =~= out0 + (ws_sep(run, ml) + tail));
            }
            i = j;
        } else {
            let mut j: usize = i + 1;
            while j < n && !is_ws_char(query.get_char(j))
                invariant
                    n == query@.len(),
                    i < j <= n,
                    forall|k: int| i <= k < j ==> !is_ws(query@[k]),
                decreases n - j,
            {
                j = j + 1;
            }
            let ghost out0 = out@;
            let piece = query.substring_char(i, j);
            out.append(piece);
            proof {
                let rem = query@.skip(i as int);
                let run = query@.subrange(i as int, j as int);
                assert(forall|k: int| 0 <= k < j - i ==> rem[k] == query@[i + k]);
                if j < n {
                    assert(rem[j - i] == query@[j as int]);
                }
                lemma_run_len_is(rem, false, j - i);
                assert(rem.take(j - i) =~= run);
                assert(rem.skip(j - i) =~= query@.skip(j as int));
                assert(norm(rem, ml) == run + norm(query@.skip(j as int), ml));
                let tail = norm(query@.skip(j as int), ml);
                assert(out@ + tail =~= out0 + (run + tail));
            }
            i = j;
        }
    }
    proof {
        assert(query@.skip(n as int) =~= Seq::<char>::empty());
        assert(out@ + norm(query@.skip(n as int), ml) =~= out@);
    }
    trim(out.as_str())
}

/// `s` with `ind` inserted after every line break: one nesting level.
pub open spec fn indent_lb(s: Seq<char>, ind: Seq<char>) -> Seq<char>
    decreases s.len(),
{
    if s.len() == 0 {
        Seq::empty()
    } else if s[0] == '\n' {
        seq!['\n'] + ind + indent_lb(s.drop_first(), ind)
    } else {
        seq![s[0]] + indent_lb(s.drop_first(), ind)
    }
}

proof fn lemma_indent_lb_segment(s: Seq<char>, i: int, j: int, ind: Seq<char>)
    requires
        0 <= i <= j <= s.len(),
        forall|k: int| i <= k < j ==> s[k] != '\n',
    ensures
        indent_lb(s.skip(i), ind) == s.subrange(i, j) + indent_lb(s.skip(j), ind),
    decreases j - i,
{
    if i == j {
        assert(s.subrange(i, j) + indent_lb(s.skip(j), ind) =~= indent_lb(s.skip(i), ind));
    } else {
        let rem = s.skip(i);
        assert(rem[0] == s[i]);
        assert(rem.drop_first() =~= s.skip(i + 1));
        lemma_indent_lb_segment(s, i + 1, j, ind);
        assert(seq![s[i]] + (s.subrange(i + 1, j) + indent_lb(s.skip(j), ind)) =~= s.subrange(i, j)
            + indent_lb(s.skip(j), ind));
    }
}

/// Inserts `ind` after every line break of `s`: used to push a nested
/// statement one indentation level deeper.
pub fn indent_lines(s: &str, ind: &str) -> (r: String)
    ensures
        r@ == indent_lb(s@, ind@),
{
    let n: usize = s.unicode_len();
    let mut out = String::new();
    let mut i: usize = 0;
    proof {
        assert(s@.skip(0) =~= s@);
    }
    while i < n
        invariant
            n == s@.len(),
            i <= n,
            indent_lb(s@, ind@) == out@ + indent_lb(s@.skip(i as int), ind@),
        decreases n - i,
    {
        if s.get_char(i) == '\n' {
            let ghost out0 = out@;
            out.append("\n");
            out.append(ind);
            proof {
                reveal_strlit("\n");
                let rem = s@.skip(i as int);
                assert(rem[0] == '\n');
                assert(rem.drop_first() =~= s@.skip(i + 1));
                assert("\n"@ =~= seq!['\n']);
                let tail = indent_lb(s@.skip(i + 1), ind@);
                assert(out@ + tail =~= out0 + (seq!['\n'] + ind@ + tail));
            }
            i = i + 1;
        } else {
            let mut j: usize = i + 1;
            while j < n && s.get_char(j) != '\n'
                invariant
                    n == s@.len(),
                    i < j <= n,
                    forall|k: int| i <= k < j ==> s@[k] != '\n',
                decreases n - j,
            {
                j = j + 1;
            }
            let ghost out0 = out@;
            let piece = s.substring_char(i, j);
            out.append(piece);
            proof {
                lemma_indent_lb_segment(s@, i as int, j as int, ind@);
                let run = s@.subrange(i as int, j as int);
                let tail = indent_lb(s@.skip(j as int), ind@);
                assert(out@ + tail =~= out0 + (run + tail));
            }
            i = j;
        }
    }
    proof {
        assert(s@.skip(n as int) =~= Seq::<char>::empty());
        assert(out@ + indent_lb(s@.skip(n as int), ind@) =~= out@);
    }
    out
}

} // verus!
