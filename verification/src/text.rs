//! Character-level helpers: the whitespace predicate, trimming, and joining
//! a list of fragments with a separator.

use vstd::prelude::*;

verus! {

/// A whitespace character: the blanks this library trims and collapses.
pub open spec fn is_ws(c: char) -> bool {
    c == ' ' || c == '\t' || c == '\n' || c == '\r'
}

/// `s` without its longest whitespace prefix.
pub open spec fn trim_start_seq(s: Seq<char>) -> Seq<char>
    decreases s.len(),
{
    if s.len() > 0 && is_ws(s[0]) {
        trim_start_seq(s.drop_first())
    } else {
        s
    }
}

/// `s` without its longest whitespace suffix.
pub open spec fn trim_end_seq(s: Seq<char>) -> Seq<char>
    decreases s.len(),
{
    if s.len() > 0 && is_ws(s.last()) {
        trim_end_seq(s.drop_last())
    } else {
        s
    }
}

/// `s` without leading and trailing whitespace.
pub open spec fn trim_seq(s: Seq<char>) -> Seq<char> {
    trim_end_seq(trim_start_seq(s))
}

/// Whether `s` carries no leading or trailing whitespace.
pub open spec fn is_trimmed(s: Seq<char>) -> bool {
    trim_seq(s) == s
}

pub proof fn lemma_trim_start_no_leading(s: Seq<char>)
    ensures
        trim_start_seq(s).len() > 0 ==> !is_ws(trim_start_seq(s)[0]),
    decreases s.len(),
{
    if s.len() > 0 && is_ws(s[0]) {
        lemma_trim_start_no_leading(s.drop_first());
    }
}

pub proof fn lemma_trim_end_no_trailing(s: Seq<char>)
    ensures
        trim_end_seq(s).len() > 0 ==> !is_ws(trim_end_seq(s).last()),
    decreases s.len(),
{
    if s.len() > 0 && is_ws(s.last()) {
        lemma_trim_end_no_trailing(s.drop_last());
    }
}

pub proof fn lemma_trim_end_preserves_first(s: Seq<char>)
    ensures
        trim_end_seq(s).len() > 0 ==> s.len() > 0 && trim_end_seq(s)[0] == s[0],
    decreases s.len(),
{
    if s.len() > 0 && is_ws(s.last()) {
        lemma_trim_end_preserves_first(s.drop_last());
    }
}

/// Trimming is idempotent: a trimmed text trims to itself.
pub proof fn lemma_trim_idempotent(s: Seq<char>)
    ensures
        trim_seq(trim_seq(s)) == trim_seq(s),
{
    let a = trim_start_seq(s);
    let b = trim_end_seq(a);
    lemma_trim_start_no_leading(s);
    lemma_trim_end_preserves_first(a);
    lemma_trim_end_no_trailing(a);
    if b.len() > 0 {
        assert(!is_ws(b[0]));
        assert(trim_start_seq(b) == b);
        assert(!is_ws(b.last()));
        assert(trim_end_seq(b) == b);
    } else {
        assert(trim_start_seq(b) == b);
        assert(trim_end_seq(b) == b);
    }
}

/// A trimmed, non-empty text neither starts nor ends with whitespace.
pub proof fn lemma_trimmed_ends(s: Seq<char>)
    requires
        is_trimmed(s),
        s.len() > 0,
    ensures
        !is_ws(s[0]),
        !is_ws(s.last()),
{
    let a = trim_start_seq(s);
    lemma_trim_start_no_leading(s);
    lemma_trim_end_preserves_first(a);
    lemma_trim_end_no_trailing(a);
}

/// The whitespace test, executable.
pub fn is_ws_char(c: char) -> (r: bool)
    ensures
        r == is_ws(c),
{
    c == ' ' || c == '\t' || c == '\n' || c == '\r'
}

/// `s` without leading and trailing whitespace, executable.
pub fn trim(s: &str) -> (r: String)
    ensures
        r@ == trim_seq(s@),
{
    let n: usize = s.unicode_len();
    let mut i: usize = 0;
    proof {
        assert(s@.skip(0) =~= s@);
    }
    while i < n && is_ws_char(s.get_char(i))
        invariant
            n == s@.len(),
            i <= n,
            trim_start_seq(s@) == trim_start_seq(s@.skip(i as int)),
        decreases n - i,
    {
        proof {
            assert(s@.skip(i as int).len() > 0);
            assert(s@.skip(i as int)[0] == s@[i as int]);
            assert(s@.skip(i as int).drop_first() =~= s@.skip(i + 1));
        }
        i = i + 1;
    }
    proof {
        if i < n {
            assert(s@.skip(i as int)[0] == s@[i as int]);
        }
        assert(trim_start_seq(s@) == s@.skip(i as int));
    }
    let mut j: usize = n;
    proof {
        assert(s@.subrange(i as int, n as int) =~= s@.skip(i as int));
    }
    while j > i && is_ws_char(s.get_char(j - 1))
        invariant
            n == s@.len(),
            i <= j <= n,
            trim_start_seq(s@) == s@.skip(i as int),
            trim_end_seq(s@.skip(i as int)) == trim_end_seq(s@.subrange(i as int, j as int)),
        decreases j,
    {
        proof {
            let t = s@.subrange(i as int, j as int);
            assert(t.len() > 0);
            assert(t.last() == s@[j - 1]);
            assert(t.drop_last() =~= s@.subrange(i as int, j - 1));
        }
        j = j - 1;
    }
    proof {
        let t = s@.subrange(i as int, j as int);
        if j > i {
            assert(t.last() == s@[j - 1]);
            assert(!is_ws(t.last()));
        } else {
            assert(t.len() == 0);
        }
        assert(trim_end_seq(t) == t);
        assert(trim_seq(s@) == s@.subrange(i as int, j as int));
    }
    let piece = s.substring_char(i, j);
    String::from_str(piece)
}

/// `s` without trailing whitespace, executable.
pub fn trim_end(s: &str) -> (r: String)
    ensures
        r@ == trim_end_seq(s@),
{
    let n: usize = s.unicode_len();
    let mut j: usize = n;
    proof {
        assert(s@.subrange(0, n as int) =~= s@);
    }
    while j > 0 && is_ws_char(s.get_char(j - 1))
        invariant
            n == s@.len(),
            j <= n,
            trim_end_seq(s@) == trim_end_seq(s@.subrange(0, j as int)),
        decreases j,
    {
        proof {
            let t = s@.subrange(0, j as int);
            assert(t.len() > 0);
            assert(t.last() == s@[j - 1]);
            assert(t.drop_last() =~= s@.subrange(0, j - 1));
        }
        j = j - 1;
    }
    proof {
        let t = s@.subrange(0, j as int);
        if j > 0 {
            assert(t.last() == s@[j - 1]);
        }
        assert(trim_end_seq(t) == t);
        assert(trim_end_seq(s@) == s@.subrange(0, j as int));
    }
    let piece = s.substring_char(0, j);
    String::from_str(piece)
}

/// The fragments of `items` concatenated with `sep` between them.
pub open spec fn join_with(items: Seq<Seq<char>>, sep: Seq<char>) -> Seq<char>
    decreases items.len(),
{
    if items.len() == 0 {
        Seq::empty()
    } else if items.len() == 1 {
        items[0]
    } else {
        join_with(items.drop_last(), sep) + sep + items.last()
    }
}

/// Joins `items` with `sep` between them, executable.
pub fn join(items: &Vec<String>, sep: &str) -> (r: String)
    ensures
        r@ == join_with(items.deep_view(), sep@),
{
    let mut out = String::new();
    let mut i: usize = 0;
    while i < items.len()
        invariant
            i <= items.len(),
            items.deep_view().len() == items@.len(),
            out@ == join_with(items.deep_view().subrange(0, i as int), sep@),
        decreases items.len() - i,
    {
        if i > 0 {
            out.append(sep);
        }
        out.append(items[i].as_str());
        proof {
            let dv = items.deep_view();
            assert(dv[i as int] == items@[i as int]@);
            assert(dv.subrange(0, i + 1).drop_last() =~= dv.subrange(0, i as int));
            assert(dv.subrange(0, i + 1).last() == dv[i as int]);
            if i == 0 {
                assert(out@ =~= join_with(dv.subrange(0, i + 1), sep@));
            } else {
                assert(dv.subrange(0, i + 1).len() >= 2);
                assert(out@ == join_with(dv.subrange(0, i as int), sep@) + sep@ + dv[i as int]);
            }
        }
        i = i + 1;
    }
    proof {
        assert(items.deep_view().subrange(0, items@.len() as int) =~= items.deep_view());
    }
    out
}

} // verus!
