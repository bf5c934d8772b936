//! The engine's laws, each proved once and for all inputs: idempotent
//! accumulation, order preservation, call-order invariance of rendering,
//! the empty-statement identity, injection placement, the restricted
//! drop-index policy, and whitespace normalization.

use crate::behavior::push_unique_s;
use crate::concat::body_sql;
use crate::concat::clause_seg;
use crate::concat::lemma_raws_for_empty;
use crate::concat::lemma_raws_for_push;
use crate::concat::raws_for;
use crate::drop_index::drop_index_body;
use crate::drop_index::drop_index_concat_seq;
use crate::drop_index::drop_index_render;
use crate::drop_index::index_names;
use crate::fmt::FmtModel;
use crate::fmt::formatted;
use crate::fmt::multiline_fmt;
use crate::fmt::one_line_fmt;
use crate::insert::empty_insert_model;
use crate::insert::insert_body;
use crate::insert::insert_concat_seq;
use crate::insert::insert_into_m;
use crate::insert::insert_render;
use crate::insert::on_conflict_m;
use crate::insert::raw_before_m;
use crate::insert::raw_after_m;
use crate::insert::values_body;
use crate::insert::values_m;
use crate::insert::with_body;
use crate::structure::Dialect;
use crate::structure::DropIndexModel;
use crate::structure::InsertClause;
use crate::structure::InsertModel;
use crate::text::is_trimmed;
use crate::text::lemma_trim_idempotent;
use crate::text::lemma_trimmed_ends;
use crate::text::trim_end_seq;
use crate::text::trim_seq;
use vstd::prelude::*;

verus! {

/// A clause with no body and no recorded raw text adds nothing to the
/// statement: no text, no stray separators.
pub proof fn lemma_clause_seg_empty(query: Seq<char>, f: FmtModel)
    ensures
        clause_seg(
            query,
            Seq::<Seq<char>>::empty(),
            Seq::<char>::empty(),
            Seq::<Seq<char>>::empty(),
            f,
        ) == query,
{
    assert(clause_seg(
        query,
        Seq::<Seq<char>>::empty(),
        Seq::<char>::empty(),
        Seq::<Seq<char>>::empty(),
        f,
    ) =~= query);
}

/// Appending the same value to a multi-valued clause twice leaves exactly
/// the state — and so the rendering — that appending it once left.
pub proof fn lemma_values_idempotent(m: InsertModel, v: Seq<char>, f: FmtModel)
    ensures
        values_m(values_m(m, v), v) == values_m(m, v),
        insert_render(values_m(values_m(m, v), v), f) == insert_render(values_m(m, v), f),
{
    let t = trim_seq(v);
    let m1 = values_m(m, v);
    if t.len() > 0 && !m.values.contains(t) {
        assert(m1.values == m.values.push(t));
        assert(m1.values[m.values.len() as int] == t);
        assert(m1.values.contains(t));
    }
    assert(values_m(m1, v) =~= m1);
}

/// Two distinct, fresh values appended to a multi-valued clause both
/// survive, in call order.
pub proof fn lemma_values_order_preserved(m: InsertModel, v1: Seq<char>, v2: Seq<char>)
    requires
        trim_seq(v1).len() > 0,
        trim_seq(v2).len() > 0,
        trim_seq(v1) != trim_seq(v2),
        !m.values.contains(trim_seq(v1)),
        !m.values.contains(trim_seq(v2)),
    ensures
        values_m(values_m(m, v1), v2).values == m.values + seq![trim_seq(v1), trim_seq(v2)],
{
    let t1 = trim_seq(v1);
    let t2 = trim_seq(v2);
    let s1 = m.values.push(t1);
    assert(values_m(m, v1).values == s1);
    if s1.contains(t2) {
        let k = choose|k: int| 0 <= k < s1.len() && s1[k] == t2;
        if k < m.values.len() {
            assert(m.values[k] == t2);
        } else {
            assert(s1[k] == t1);
        }
    }
    assert(!s1.contains(t2));
    assert(s1.push(t2) =~= m.values + seq![t1, t2]);
}

/// The statement after appending every entry of `vs` to the values
/// clause, first to last.
pub open spec fn values_all_m(m: InsertModel, vs: Seq<Seq<char>>) -> InsertModel
    decreases vs.len(),
{
    if vs.len() == 0 {
        m
    } else {
        values_m(values_all_m(m, vs.drop_last()), vs.last())
    }
}

/// Every entry of `vs`, trimmed.
pub open spec fn trims(vs: Seq<Seq<char>>) -> Seq<Seq<char>> {
    vs.map_values(|v: Seq<char>| trim_seq(v))
}

/// Any sequence of distinct, fresh values appended to a multi-valued
/// clause survives whole, in call order.
pub proof fn lemma_values_sequence_order_preserved(m: InsertModel, vs: Seq<Seq<char>>)
    requires
        forall|i: int| 0 <= i < vs.len() ==> trim_seq(vs[i]).len() > 0,
        forall|i: int, j: int|
            0 <= i < j < vs.len() ==> trim_seq(vs[i]) != trim_seq(vs[j]),
        forall|i: int| 0 <= i < vs.len() ==> !m.values.contains(trim_seq(vs[i])),
    ensures
        values_all_m(m, vs).values == m.values + trims(vs),
    decreases vs.len(),
{
    if vs.len() == 0 {
        assert(m.values + trims(vs) =~= m.values);
    } else {
        let pre = vs.drop_last();
        assert(forall|i: int| 0 <= i < pre.len() ==> pre[i] == vs[i]);
        lemma_values_sequence_order_preserved(m, pre);
        let m1 = values_all_m(m, pre);
        let t = trim_seq(vs.last());
        if m1.values.contains(t) {
            let k = choose|k: int| 0 <= k < m1.values.len() && m1.values[k] == t;
            if k < m.values.len() {
                assert(m.values[k] == t);
            } else {
                assert(trims(pre)[k - m.values.len()] == t);
                assert(trim_seq(pre[k - m.values.len()]) == t);
            }
        }
        assert(!m1.values.contains(t));
        assert(m1.values.push(t) =~= m.values + trims(vs));
    }
}

/// Rendering does not depend on the order builder methods were called in:
/// updates to different clauses commute, so only the fixed grammar order
/// shows in the output.
pub proof fn lemma_call_order_invariance(m: InsertModel, t: Seq<char>, v: Seq<char>, f: FmtModel)
    ensures
        insert_into_m(values_m(m, v), t) == values_m(insert_into_m(m, t), v),
        on_conflict_m(values_m(m, v), t) == values_m(on_conflict_m(m, t), v),
        insert_render(insert_into_m(values_m(m, v), t), f) == insert_render(
            values_m(insert_into_m(m, t), v),
            f,
        ),
{
    assert(insert_into_m(values_m(m, v), t) =~= values_m(insert_into_m(m, t), v));
    assert(on_conflict_m(values_m(m, v), t) =~= values_m(on_conflict_m(m, t), v));
}

/// A raw injection and a value accumulation commute as well.
pub proof fn lemma_injection_order_invariance(
    m: InsertModel,
    c: InsertClause,
    x: Seq<char>,
    v: Seq<char>,
)
    ensures
        raw_before_m(values_m(m, v), c, x) == values_m(raw_before_m(m, c, x), v),
        raw_after_m(values_m(m, v), c, x) == values_m(raw_after_m(m, c, x), v),
{
    assert(raw_before_m(values_m(m, v), c, x) =~= values_m(raw_before_m(m, c, x), v));
    assert(raw_after_m(values_m(m, v), c, x) =~= values_m(raw_after_m(m, c, x), v));
}

/// A freshly constructed statement renders to the empty string, in any
/// dialect, under any configuration, formatted or not.
pub proof fn lemma_empty_statement_identity(d: Dialect, f: FmtModel)
    ensures
        insert_render(empty_insert_model(d), f) == Seq::<char>::empty(),
        formatted(insert_render(empty_insert_model(d), one_line_fmt()), false) == Seq::<
            char,
        >::empty(),
        formatted(insert_render(empty_insert_model(d), multiline_fmt()), true) == Seq::<
            char,
        >::empty(),
{
    lemma_raws_for_empty::<InsertClause>(InsertClause::With);
    lemma_raws_for_empty::<InsertClause>(InsertClause::InsertInto);
    lemma_raws_for_empty::<InsertClause>(InsertClause::Overriding);
    lemma_raws_for_empty::<InsertClause>(InsertClause::Values);
    lemma_raws_for_empty::<InsertClause>(InsertClause::Select);
    lemma_raws_for_empty::<InsertClause>(InsertClause::OnConflict);
    lemma_raws_for_empty::<InsertClause>(InsertClause::Returning);
    lemma_empty_render_chain(d, f);
    lemma_empty_render_chain(d, one_line_fmt());
    lemma_empty_render_chain(d, multiline_fmt());
    assert(formatted(Seq::<char>::empty(), false) == Seq::<char>::empty());
    assert(formatted(Seq::<char>::empty(), true) == Seq::<char>::empty());
}

proof fn lemma_empty_render_chain(d: Dialect, f: FmtModel)
    ensures
        insert_render(empty_insert_model(d), f) == Seq::<char>::empty(),
{
    let m = empty_insert_model(d);
    lemma_raws_for_empty::<InsertClause>(InsertClause::With);
    lemma_raws_for_empty::<InsertClause>(InsertClause::InsertInto);
    lemma_raws_for_empty::<InsertClause>(InsertClause::Overriding);
    lemma_raws_for_empty::<InsertClause>(InsertClause::Values);
    lemma_raws_for_empty::<InsertClause>(InsertClause::Select);
    lemma_raws_for_empty::<InsertClause>(InsertClause::OnConflict);
    lemma_raws_for_empty::<InsertClause>(InsertClause::Returning);
    assert(with_body(m, f) == Seq::<char>::empty());
    assert(insert_body(m, f) == Seq::<char>::empty());
    assert(values_body(m, f) == Seq::<char>::empty());
    lemma_clause_seg_empty(Seq::<char>::empty(), f);
    assert(insert_concat_seq(m, f) == Seq::<char>::empty());
    assert(trim_end_seq(Seq::<char>::empty()) == Seq::<char>::empty());
}

/// Text injected before a clause renders just before it, separated by one
/// space: with clause body `B` rendering and injection `A`, the statement
/// reads `A B`.
pub proof fn lemma_injection_before_placement(a: Seq<char>, b: Seq<char>)
    requires
        is_trimmed(a),
        a.len() > 0,
        is_trimmed(b),
        b.len() > 0,
    ensures
        ({
            let m = raw_before_m(
                insert_into_m(empty_insert_model(Dialect::Postgresql), b),
                InsertClause::InsertInto,
                a,
            );
            insert_render(m, one_line_fmt()) == a + " "@ + insert_body(m, one_line_fmt())
        }),
        insert_body(
            raw_before_m(
                insert_into_m(empty_insert_model(Dialect::Postgresql), b),
                InsertClause::InsertInto,
                a,
            ),
            one_line_fmt(),
        ) == "INSERT INTO"@ + " "@ + b,
{
    reveal_strlit(" ");
    reveal_strlit("");
    let f = one_line_fmt();
    assert(f.space =~= seq![' ']);
    assert(f.lb =~= Seq::<char>::empty());
    let m = raw_before_m(
        insert_into_m(empty_insert_model(Dialect::Postgresql), b),
        InsertClause::InsertInto,
        a,
    );
    let e = Seq::<(InsertClause, Seq<char>)>::empty();
    assert(m.raw_before =~= e.push((InsertClause::InsertInto, a)));
    assert(m.raw_after =~= e);
    lemma_raws_for_empty::<InsertClause>(InsertClause::With);
    lemma_raws_for_empty::<InsertClause>(InsertClause::InsertInto);
    lemma_raws_for_empty::<InsertClause>(InsertClause::Overriding);
    lemma_raws_for_empty::<InsertClause>(InsertClause::Values);
    lemma_raws_for_empty::<InsertClause>(InsertClause::Select);
    lemma_raws_for_empty::<InsertClause>(InsertClause::OnConflict);
    lemma_raws_for_empty::<InsertClause>(InsertClause::Returning);
    lemma_raws_for_push(e, (InsertClause::InsertInto, a), InsertClause::With);
    lemma_raws_for_push(e, (InsertClause::InsertInto, a), InsertClause::InsertInto);
    lemma_raws_for_push(e, (InsertClause::InsertInto, a), InsertClause::Overriding);
    lemma_raws_for_push(e, (InsertClause::InsertInto, a), InsertClause::Values);
    lemma_raws_for_push(e, (InsertClause::InsertInto, a), InsertClause::Select);
    lemma_raws_for_push(e, (InsertClause::InsertInto, a), InsertClause::OnConflict);
    lemma_raws_for_push(e, (InsertClause::InsertInto, a), InsertClause::Returning);
    lemma_clause_seg_empty(Seq::<char>::empty(), f);
    let ib = insert_body(m, f);
    assert(ib == "INSERT INTO"@ + seq![' '] + b);
    let q2 = clause_seg(
        Seq::<char>::empty(),
        raws_for(m.raw_before, InsertClause::InsertInto),
        body_sql(ib, f),
        raws_for(m.raw_after, InsertClause::InsertInto),
        f,
    );
    assert(raws_for(m.raw_before, InsertClause::InsertInto) =~= Seq::<Seq<char>>::empty().push(a));
    let core = a + seq![' '] + ib;
    assert(q2 =~= core + seq![' ']);
    lemma_clause_seg_empty(q2, f);
    assert(insert_concat_seq(m, f) == q2);
    assert((core + seq![' ']).last() == ' ');
    assert((core + seq![' ']).drop_last() =~= core);
    lemma_trimmed_ends(b);
    assert(core.last() == b.last());
    assert(trim_end_seq(core) == core);
    assert(insert_render(m, f) == core);
    assert(core =~= a + " "@ + ib);
    assert(ib =~= "INSERT INTO"@ + " "@ + b);
}

/// Text injected after a clause renders just after it, separated by one
/// space: with clause body `B` rendering and injection `A`, the statement
/// reads `B A`.
pub proof fn lemma_injection_after_placement(a: Seq<char>, b: Seq<char>)
    requires
        is_trimmed(a),
        a.len() > 0,
        is_trimmed(b),
        b.len() > 0,
    ensures
        ({
            let m = raw_after_m(
                insert_into_m(empty_insert_model(Dialect::Postgresql), b),
                InsertClause::InsertInto,
                a,
            );
            insert_render(m, one_line_fmt()) == insert_body(m, one_line_fmt()) + " "@ + a
        }),
{
    reveal_strlit(" ");
    reveal_strlit("");
    let f = one_line_fmt();
    assert(f.space =~= seq![' ']);
    assert(f.lb =~= Seq::<char>::empty());
    let m = raw_after_m(
        insert_into_m(empty_insert_model(Dialect::Postgresql), b),
        InsertClause::InsertInto,
        a,
    );
    let e = Seq::<(InsertClause, Seq<char>)>::empty();
    assert(m.raw_after =~= e.push((InsertClause::InsertInto, a)));
    assert(m.raw_before =~= e);
    lemma_raws_for_empty::<InsertClause>(InsertClause::With);
    lemma_raws_for_empty::<InsertClause>(InsertClause::InsertInto);
    lemma_raws_for_empty::<InsertClause>(InsertClause::Overriding);
    lemma_raws_for_empty::<InsertClause>(InsertClause::Values);
    lemma_raws_for_empty::<InsertClause>(InsertClause::Select);
    lemma_raws_for_empty::<InsertClause>(InsertClause::OnConflict);
    lemma_raws_for_empty::<InsertClause>(InsertClause::Returning);
    lemma_raws_for_push(e, (InsertClause::InsertInto, a), InsertClause::With);
    lemma_raws_for_push(e, (InsertClause::InsertInto, a), InsertClause::InsertInto);
    lemma_raws_for_push(e, (InsertClause::InsertInto, a), InsertClause::Overriding);
    lemma_raws_for_push(e, (InsertClause::InsertInto, a), InsertClause::Values);
    lemma_raws_for_push(e, (InsertClause::InsertInto, a), InsertClause::Select);
    lemma_raws_for_push(e, (InsertClause::InsertInto, a), InsertClause::OnConflict);
    lemma_raws_for_push(e, (InsertClause::InsertInto, a), InsertClause::Returning);
    lemma_clause_seg_empty(Seq::<char>::empty(), f);
    let ib = insert_body(m, f);
    assert(ib == "INSERT INTO"@ + seq![' '] + b);
    let q2 = clause_seg(
        Seq::<char>::empty(),
        raws_for(m.raw_before, InsertClause::InsertInto),
        body_sql(ib, f),
        raws_for(m.raw_after, InsertClause::InsertInto),
        f,
    );
    assert(raws_for(m.raw_after, InsertClause::InsertInto) =~= Seq::<Seq<char>>::empty().push(a));
    let core = ib + seq![' '] + a;
    assert(q2 =~= core + seq![' ']);
    lemma_clause_seg_empty(q2, f);
    assert(insert_concat_seq(m, f) == q2);
    assert((core + seq![' ']).last() == ' ');
    assert((core + seq![' ']).drop_last() =~= core);
    lemma_trimmed_ends(a);
    assert(core.last() == a.last());
    assert(trim_end_seq(core) == core);
    assert(insert_render(m, f) == core);
    assert(core =~= ib + " "@ + a);
}

/// Injecting around a clause that accumulated nothing still renders only
/// the injected text, with no stray separators.
pub proof fn lemma_injection_empty_clause(a: Seq<char>)
    requires
        is_trimmed(a),
        a.len() > 0,
    ensures
        insert_render(
            raw_before_m(empty_insert_model(Dialect::Postgresql), InsertClause::Values, a),
            one_line_fmt(),
        ) == a,
{
    reveal_strlit(" ");
    reveal_strlit("");
    let f = one_line_fmt();
    assert(f.space =~= seq![' ']);
    assert(f.lb =~= Seq::<char>::empty());
    let m = raw_before_m(empty_insert_model(Dialect::Postgresql), InsertClause::Values, a);
    let e = Seq::<(InsertClause, Seq<char>)>::empty();
    assert(m.raw_before =~= e.push((InsertClause::Values, a)));
    assert(m.raw_after =~= e);
    lemma_raws_for_empty::<InsertClause>(InsertClause::With);
    lemma_raws_for_empty::<InsertClause>(InsertClause::InsertInto);
    lemma_raws_for_empty::<InsertClause>(InsertClause::Overriding);
    lemma_raws_for_empty::<InsertClause>(InsertClause::Values);
    lemma_raws_for_empty::<InsertClause>(InsertClause::Select);
    lemma_raws_for_empty::<InsertClause>(InsertClause::OnConflict);
    lemma_raws_for_empty::<InsertClause>(InsertClause::Returning);
    lemma_raws_for_push(e, (InsertClause::Values, a), InsertClause::With);
    lemma_raws_for_push(e, (InsertClause::Values, a), InsertClause::InsertInto);
    lemma_raws_for_push(e, (InsertClause::Values, a), InsertClause::Overriding);
    lemma_raws_for_push(e, (InsertClause::Values, a), InsertClause::Values);
    lemma_raws_for_push(e, (InsertClause::Values, a), InsertClause::Select);
    lemma_raws_for_push(e, (InsertClause::Values, a), InsertClause::OnConflict);
    lemma_raws_for_push(e, (InsertClause::Values, a), InsertClause::Returning);
    lemma_clause_seg_empty(Seq::<char>::empty(), f);
    assert(values_body(m, f) == Seq::<char>::empty());
    let q4 = clause_seg(
        Seq::<char>::empty(),
        raws_for(m.raw_before, InsertClause::Values),
        body_sql(values_body(m, f), f),
        raws_for(m.raw_after, InsertClause::Values),
        f,
    );
    assert(raws_for(m.raw_before, InsertClause::Values) =~= Seq::<Seq<char>>::empty().push(a));
    assert(q4 =~= a + seq![' ']);
    lemma_clause_seg_empty(q4, f);
    assert(insert_concat_seq(m, f) == q4);
    assert((a + seq![' ']).last() == ' ');
    assert((a + seq![' ']).drop_last() =~= a);
    lemma_trimmed_ends(a);
    assert(trim_end_seq(a) == a);
    assert(insert_render(m, f) == a);
}

/// Under a restricted dialect, a drop-index statement renders as if only
/// the most-recently-added index name had ever been accumulated.
pub proof fn lemma_restricted_drop_index_keeps_last(m: DropIndexModel, f: FmtModel)
    requires
        m.dialect != Dialect::Postgresql,
        m.drop_index.len() > 0,
    ensures
        drop_index_render(m, f) == drop_index_render(
            DropIndexModel { drop_index: seq![m.drop_index.last()], ..m },
            f,
        ),
{
    let m2 = DropIndexModel { drop_index: seq![m.drop_index.last()], ..m };
    assert(m2.drop_index.last() == m.drop_index.last());
    assert(index_names(m2, f) == index_names(m, f));
    assert(drop_index_body(m2, f) == drop_index_body(m, f));
    assert(drop_index_concat_seq(m2, f) == drop_index_concat_seq(m, f));
}

/// A value supplied with surrounding whitespace leaves the statement — and
/// so the rendering — exactly as its trimmed form does.
pub proof fn lemma_whitespace_normalization(m: InsertModel, v: Seq<char>, f: FmtModel)
    ensures
        values_m(m, trim_seq(v)) == values_m(m, v),
        insert_into_m(m, trim_seq(v)) == insert_into_m(m, v),
        insert_render(values_m(m, trim_seq(v)), f) == insert_render(values_m(m, v), f),
{
    lemma_trim_idempotent(v);
    assert(values_m(m, trim_seq(v)) =~= values_m(m, v));
    assert(insert_into_m(m, trim_seq(v)) =~= insert_into_m(m, v));
}

} // verus!
