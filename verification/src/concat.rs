//! The clause concatenation engine: looking raw injections up in the
//! ledger, and splicing one clause's segment onto the statement text.

use crate::fmt::FmtModel;
use crate::fmt::Formatter;
use crate::structure::DropIndexParams;
use crate::structure::InsertClause;
use crate::text::join;
use crate::text::join_with;
use vstd::prelude::*;

verus! {

/// A raw-injection ledger as its mathematical image: clause tags kept,
/// texts read as character sequences.
pub open spec fn ledger_view<C>(l: Seq<(C, String)>) -> Seq<(C, Seq<char>)> {
    l.map_values(|p: (C, String)| (p.0, p.1@))
}

pub proof fn lemma_ledger_view_props<C>(l: Seq<(C, String)>)
    ensures
        ledger_view(l).len() == l.len(),
        forall|k: int| 0 <= k < l.len() ==> ledger_view(l)[k] == (l[k].0, l[k].1@),
{
}

pub proof fn lemma_ledger_view_push<C>(l: Seq<(C, String)>, x: (C, String))
    ensures
        ledger_view(l.push(x)) == ledger_view(l).push((x.0, x.1@)),
{
    assert(ledger_view(l.push(x)) =~= ledger_view(l).push((x.0, x.1@)));
}

/// The raw texts recorded for `clause`, in the order they were received.
pub open spec fn raws_for<C>(ledger: Seq<(C, Seq<char>)>, clause: C) -> Seq<Seq<char>> {
    ledger.filter(|p: (C, Seq<char>)| p.0 == clause).map_values(|p: (C, Seq<char>)| p.1)
}

pub proof fn lemma_raws_for_empty<C>(clause: C)
    ensures
        raws_for(Seq::<(C, Seq<char>)>::empty(), clause) == Seq::<Seq<char>>::empty(),
{
    reveal(Seq::filter);
    assert(raws_for(Seq::<(C, Seq<char>)>::empty(), clause) =~= Seq::<Seq<char>>::empty());
}

pub proof fn lemma_raws_for_push<C>(ledger: Seq<(C, Seq<char>)>, x: (C, Seq<char>), clause: C)
    ensures
        raws_for(ledger.push(x), clause) == if x.0 == clause {
            raws_for(ledger, clause).push(x.1)
        } else {
            raws_for(ledger, clause)
        },
{
    reveal(Seq::filter);
    let t = ledger.push(x);
    assert(t.drop_last() =~= ledger);
    assert(t.last() == x);
    if x.0 == clause {
        assert(raws_for(t, clause) =~= raws_for(ledger, clause).push(x.1));
    } else {
        assert(raws_for(t, clause) =~= raws_for(ledger, clause));
    }
}

/// `space` when `s` is non-empty, else nothing: a separator is owed only
/// to text that exists.
pub open spec fn sep_if(s: Seq<char>, space: Seq<char>) -> Seq<char> {
    if s.len() > 0 {
        space
    } else {
        Seq::empty()
    }
}

/// A clause body wrapped as one statement segment: followed by the space
/// and line-break tokens when non-empty, nothing otherwise.
pub open spec fn body_sql(body: Seq<char>, f: FmtModel) -> Seq<char> {
    if body.len() == 0 {
        Seq::empty()
    } else {
        body + f.space + f.lb
    }
}

/// One clause spliced onto `query`: space-joined "before" injections, the
/// clause segment itself, then space-joined "after" injections.
pub open spec fn clause_seg(
    query: Seq<char>,
    before: Seq<Seq<char>>,
    sql: Seq<char>,
    after: Seq<Seq<char>>,
    f: FmtModel,
) -> Seq<char> {
    let b = join_with(before, f.space);
    let a = join_with(after, f.space);
    query + b + sep_if(b, f.space) + sql + a + sep_if(a, f.space)
}

/// The synthetic leading clause: raw fragments that prepend the whole
/// statement, space-joined.
pub open spec fn raw_seg(query: Seq<char>, raw: Seq<Seq<char>>, f: FmtModel) -> Seq<char> {
    if raw.len() == 0 {
        query
    } else {
        query + join_with(raw, f.space) + f.space + f.lb
    }
}

/// A keyword clause whose body is an accumulated list: the keyword, a
/// space, then the `sep`-joined entries; nothing when the list is empty.
pub open spec fn list_body(items: Seq<Seq<char>>, kw: Seq<char>, sep: Seq<char>, f: FmtModel) -> Seq<
    char,
> {
    if items.len() == 0 {
        Seq::empty()
    } else {
        kw + f.space + join_with(items, sep)
    }
}

/// A keyword clause with one overwritable text: the keyword, a space,
/// then the text; nothing when the text is empty.
pub open spec fn kw_body(text: Seq<char>, kw: Seq<char>, f: FmtModel) -> Seq<char> {
    if text.len() == 0 {
        Seq::empty()
    } else {
        kw + f.space + text
    }
}

/// Builds a [`list_body`] clause.
pub fn build_list_body(items: &Vec<String>, kw: &str, sep: &str, fmts: &Formatter) -> (r: String)
    ensures
        r@ == list_body(items.deep_view(), kw@, sep@, fmts@),
{
    proof {
        assert(items.deep_view().len() == items@.len());
    }
    if items.len() == 0 {
        return String::new();
    }
    let mut out = String::from_str(kw);
    out.append(fmts.space.as_str());
    let joined = join(items, sep);
    out.append(joined.as_str());
    out
}

/// Builds a [`kw_body`] clause.
pub fn build_kw_body(text: &String, kw: &str, fmts: &Formatter) -> (r: String)
    ensures
        r@ == kw_body(text@, kw@, fmts@),
{
    if text.unicode_len() == 0 {
        return String::new();
    }
    let mut out = String::from_str(kw);
    out.append(fmts.space.as_str());
    out.append(text.as_str());
    out
}

/// Wraps a clause body as its statement segment, [`body_sql`].
pub fn wrap_body(body: String, fmts: &Formatter) -> (r: String)
    ensures
        r@ == body_sql(body@, fmts@),
{
    if body.unicode_len() == 0 {
        return body;
    }
    let mut b = body;
    b.append(fmts.space.as_str());
    b.append(fmts.lb.as_str());
    b
}

/// Renders the leading raw fragments onto `query`.
pub fn concat_raw(query: String, fmts: &Formatter, items: &Vec<String>) -> (r: String)
    ensures
        r@ == raw_seg(query@, items.deep_view(), fmts@),
{
    proof {
        assert(items.deep_view().len() == items@.len());
    }
    if items.len() == 0 {
        return query;
    }
    let joined = join(items, fmts.space.as_str());
    let mut q = query;
    q.append(joined.as_str());
    q.append(fmts.space.as_str());
    q.append(fmts.lb.as_str());
    q
}

/// The ledger entries recorded for `clause` of an insert statement,
/// chronological order kept.
pub fn raw_queries_insert(ledger: &Vec<(InsertClause, String)>, clause: InsertClause) -> (r: Vec<
    String,
>)
    ensures
        r.deep_view() == raws_for(ledger_view(ledger@), clause),
{
    let mut out: Vec<String> = Vec::new();
    let mut i: usize = 0;
    proof {
        lemma_ledger_view_props(ledger@.subrange(0, 0));
        assert(ledger@.subrange(0, 0) =~= Seq::<(InsertClause, String)>::empty());
        assert(ledger_view(Seq::<(InsertClause, String)>::empty()) =~= Seq::<(
            InsertClause,
            Seq<char>,
        )>::empty());
        lemma_raws_for_empty::<InsertClause>(clause);
        assert(out.deep_view() =~= Seq::<Seq<char>>::empty());
    }
    while i < ledger.len()
        invariant
            i <= ledger@.len(),
            out.deep_view() == raws_for(ledger_view(ledger@.subrange(0, i as int)), clause),
        decreases ledger@.len() - i,
    {
        proof {
            assert(ledger@.subrange(0, i + 1) =~= ledger@.subrange(0, i as int).push(
                ledger@[i as int],
            ));
            lemma_ledger_view_push(ledger@.subrange(0, i as int), ledger@[i as int]);
            lemma_raws_for_push(
                ledger_view(ledger@.subrange(0, i as int)),
                (ledger@[i as int].0, ledger@[i as int].1@),
                clause,
            );
        }
        let p = &ledger[i];
        if p.0 == clause {
            let ghost dv0 = out.deep_view();
            out.push(p.1.clone());
            proof {
                assert(out.deep_view() =~= dv0.push(ledger@[i as int].1@));
            }
        }
        i = i + 1;
    }
    proof {
        assert(ledger@.subrange(0, ledger@.len() as int) =~= ledger@);
    }
    out
}

/// The ledger entries recorded for `clause` of a drop-index statement,
/// chronological order kept.
pub fn raw_queries_drop(ledger: &Vec<(DropIndexParams, String)>, clause: DropIndexParams) -> (r:
    Vec<String>)
    ensures
        r.deep_view() == raws_for(ledger_view(ledger@), clause),
{
    let mut out: Vec<String> = Vec::new();
    let mut i: usize = 0;
    proof {
        assert(ledger@.subrange(0, 0) =~= Seq::<(DropIndexParams, String)>::empty());
        assert(ledger_view(Seq::<(DropIndexParams, String)>::empty()) =~= Seq::<(
            DropIndexParams,
            Seq<char>,
        )>::empty());
        lemma_raws_for_empty::<DropIndexParams>(clause);
        assert(out.deep_view() =~= Seq::<Seq<char>>::empty());
    }
    while i < ledger.len()
        invariant
            i <= ledger@.len(),
            out.deep_view() == raws_for(ledger_view(ledger@.subrange(0, i as int)), clause),
        decreases ledger@.len() - i,
    {
        proof {
            assert(ledger@.subrange(0, i + 1) =~= ledger@.subrange(0, i as int).push(
                ledger@[i as int],
            ));
            lemma_ledger_view_push(ledger@.subrange(0, i as int), ledger@[i as int]);
            lemma_raws_for_push(
                ledger_view(ledger@.subrange(0, i as int)),
                (ledger@[i as int].0, ledger@[i as int].1@),
                clause,
            );
        }
        let p = &ledger[i];
        if p.0 == clause {
            let ghost dv0 = out.deep_view();
            out.push(p.1.clone());
            proof {
                assert(out.deep_view() =~= dv0.push(ledger@[i as int].1@));
            }
        }
        i = i + 1;
    }
    proof {
        assert(ledger@.subrange(0, ledger@.len() as int) =~= ledger@);
    }
    out
}

/// Splices one insert clause, with its recorded raw text, onto `query`.
pub fn concat_raw_before_after_insert(
    before: &Vec<(InsertClause, String)>,
    after: &Vec<(InsertClause, String)>,
    query: String,
    fmts: &Formatter,
    clause: InsertClause,
    sql: String,
) -> (r: String)
    ensures
        r@ == clause_seg(
            query@,
            raws_for(ledger_view(before@), clause),
            sql@,
            raws_for(ledger_view(after@), clause),
            fmts@,
        ),
{
    let b_items = raw_queries_insert(before, clause);
    let a_items = raw_queries_insert(after, clause);
    let bj = join(&b_items, fmts.space.as_str());
    let aj = join(&a_items, fmts.space.as_str());
    let mut q = query;
    q.append(bj.as_str());
    if bj.unicode_len() > 0 {
        q.append(fmts.space.as_str());
    }
    q.append(sql.as_str());
    q.append(aj.as_str());
    if aj.unicode_len() > 0 {
        q.append(fmts.space.as_str());
    }
    proof {
        assert(q@ =~= clause_seg(
            query@,
            raws_for(ledger_view(before@), clause),
            sql@,
            raws_for(ledger_view(after@), clause),
            fmts@,
        ));
    }
    q
}

/// Splices one drop-index clause, with its recorded raw text, onto `query`.
pub fn concat_raw_before_after_drop(
    before: &Vec<(DropIndexParams, String)>,
    after: &Vec<(DropIndexParams, String)>,
    query: String,
    fmts: &Formatter,
    clause: DropIndexParams,
    sql: String,
) -> (r: String)
    ensures
        r@ == clause_seg(
            query@,
            raws_for(ledger_view(before@), clause),
            sql@,
            raws_for(ledger_view(after@), clause),
            fmts@,
        ),
{
    let b_items = raw_queries_drop(before, clause);
    let a_items = raw_queries_drop(after, clause);
    let bj = join(&b_items, fmts.space.as_str());
    let aj = join(&a_items, fmts.space.as_str());
    let mut q = query;
    q.append(bj.as_str());
    if bj.unicode_len() > 0 {
        q.append(fmts.space.as_str());
    }
    q.append(sql.as_str());
    q.append(aj.as_str());
    if aj.unicode_len() > 0 {
        q.append(fmts.space.as_str());
    }
    proof {
        assert(q@ =~= clause_seg(
            query@,
            raws_for(ledger_view(before@), clause),
            sql@,
            raws_for(ledger_view(after@), clause),
            fmts@,
        ));
    }
    q
}

} // verus!
