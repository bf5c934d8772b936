//! The `INSERT` statement builder: clause accumulation in any call order,
//! raw injection around every clause, and rendering in the fixed grammar
//! order `WITH`, insert, `OVERRIDING`, `VALUES`, `SELECT`, `ON CONFLICT`,
//! `RETURNING`.

use crate::behavior::push_unique;
use crate::behavior::push_unique_s;
use crate::concat::body_sql;
use crate::concat::build_kw_body;
use crate::concat::build_list_body;
use crate::concat::clause_seg;
use crate::concat::concat_raw;
use crate::concat::concat_raw_before_after_insert;
use crate::concat::kw_body;
use crate::concat::ledger_view;
use crate::concat::lemma_ledger_view_push;
use crate::concat::list_body;
use crate::concat::raw_seg;
use crate::concat::raws_for;
use crate::concat::wrap_body;
use crate::fmt;
use crate::fmt::FmtModel;
use crate::fmt::Formatter;
use crate::fmt::formatted;
use crate::fmt::indent_lb;
use crate::fmt::indent_lines;
use crate::fmt::multiline_fmt;
use crate::fmt::normalize;
use crate::fmt::one_line_fmt;
use crate::select::select_render;
use crate::structure::Dialect;
use crate::structure::Insert;
use crate::structure::InsertClause;
use crate::structure::InsertModel;
use crate::structure::InsertVars;
use crate::structure::Select;
use crate::structure::SelectModel;
use crate::structure::lemma_with_views_push;
use crate::structure::with_views;
use crate::text::join;
use crate::text::join_with;
use crate::text::trim;
use crate::text::trim_end;
use crate::text::trim_end_seq;
use crate::text::trim_seq;
use std::rc::Rc;
use vstd::prelude::*;

verus! {

/// A freshly constructed `INSERT` for `d`: every clause empty.
pub open spec fn empty_insert_model(d: Dialect) -> InsertModel {
    InsertModel {
        dialect: d,
        raw: Seq::empty(),
        raw_before: Seq::empty(),
        raw_after: Seq::empty(),
        with_items: Seq::empty(),
        insert: (InsertVars::InsertInto, Seq::empty()),
        overriding: Seq::empty(),
        values: Seq::empty(),
        select: Option::None,
        on_conflict: Seq::empty(),
        returning: Seq::empty(),
        default_values: false,
    }
}

/// The model after `raw(v)`: the trimmed fragment appended to the leading
/// raw list unless empty or already present.
pub open spec fn raw_m(m: InsertModel, v: Seq<char>) -> InsertModel {
    InsertModel { raw: push_unique_s(m.raw, trim_seq(v)), ..m }
}

/// The model after `raw_before(c, v)`: recorded in call order; an
/// all-whitespace fragment contributes nothing and is not recorded.
pub open spec fn raw_before_m(m: InsertModel, c: InsertClause, v: Seq<char>) -> InsertModel {
    if trim_seq(v).len() == 0 {
        m
    } else {
        InsertModel { raw_before: m.raw_before.push((c, trim_seq(v))), ..m }
    }
}

/// The model after `raw_after(c, v)`, as [`raw_before_m`].
pub open spec fn raw_after_m(m: InsertModel, c: InsertClause, v: Seq<char>) -> InsertModel {
    if trim_seq(v).len() == 0 {
        m
    } else {
        InsertModel { raw_after: m.raw_after.push((c, trim_seq(v))), ..m }
    }
}

/// The model after `insert_into(v)`: last write wins, text trimmed.
pub open spec fn insert_into_m(m: InsertModel, v: Seq<char>) -> InsertModel {
    InsertModel { insert: (InsertVars::InsertInto, trim_seq(v)), ..m }
}

/// The model after `insert_or(v)`: SQLite only, otherwise unchanged.
pub open spec fn insert_or_m(m: InsertModel, v: Seq<char>) -> InsertModel {
    if m.dialect == Dialect::Sqlite {
        InsertModel { insert: (InsertVars::InsertOr, trim_seq(v)), ..m }
    } else {
        m
    }
}

/// The model after `replace_into(v)`: SQLite only, otherwise unchanged.
pub open spec fn replace_into_m(m: InsertModel, v: Seq<char>) -> InsertModel {
    if m.dialect == Dialect::Sqlite {
        InsertModel { insert: (InsertVars::ReplaceInto, trim_seq(v)), ..m }
    } else {
        m
    }
}

/// The model after `overriding(v)`: not a SQLite clause.
pub open spec fn overriding_m(m: InsertModel, v: Seq<char>) -> InsertModel {
    if m.dialect != Dialect::Sqlite {
        InsertModel { overriding: trim_seq(v), ..m }
    } else {
        m
    }
}

/// The model after `values(v)`: the trimmed text appended unless empty or
/// already present; call order of distinct values is kept.
pub open spec fn values_m(m: InsertModel, v: Seq<char>) -> InsertModel {
    InsertModel { values: push_unique_s(m.values, trim_seq(v)), ..m }
}

/// The model after `select(s)`: last write wins.
pub open spec fn select_set_m(m: InsertModel, sm: SelectModel) -> InsertModel {
    InsertModel { select: Option::Some(sm), ..m }
}

/// The model after `on_conflict(v)`: last write wins, text trimmed.
pub open spec fn on_conflict_m(m: InsertModel, v: Seq<char>) -> InsertModel {
    InsertModel { on_conflict: trim_seq(v), ..m }
}

/// The model after `returning(v)`: not available in the baseline dialect.
pub open spec fn returning_m(m: InsertModel, v: Seq<char>) -> InsertModel {
    if m.dialect != Dialect::Ansi {
        InsertModel { returning: push_unique_s(m.returning, trim_seq(v)), ..m }
    } else {
        m
    }
}

/// The model after `with(name, s)`: recorded in call order; not available
/// in the baseline dialect.
pub open spec fn with_m(m: InsertModel, name: Seq<char>, sm: SelectModel) -> InsertModel {
    if m.dialect != Dialect::Ansi {
        InsertModel { with_items: m.with_items.push((trim_seq(name), sm)), ..m }
    } else {
        m
    }
}

/// The model after `default_values()`: SQLite only, otherwise unchanged.
pub open spec fn default_values_m(m: InsertModel) -> InsertModel {
    if m.dialect == Dialect::Sqlite {
        InsertModel { default_values: true, ..m }
    } else {
        m
    }
}

/// The ledger tag the insert clause answers to, per variant.
pub open spec fn insert_tag(v: InsertVars) -> InsertClause {
    match v {
        InsertVars::InsertInto => InsertClause::InsertInto,
        InsertVars::InsertOr => InsertClause::InsertOr,
        InsertVars::ReplaceInto => InsertClause::ReplaceInto,
    }
}

/// The keyword the insert clause opens with, per variant.
pub open spec fn insert_prefix(v: InsertVars) -> Seq<char> {
    match v {
        InsertVars::InsertInto => "INSERT INTO"@,
        InsertVars::InsertOr => "INSERT OR"@,
        InsertVars::ReplaceInto => "REPLACE INTO"@,
    }
}

/// One named common-table-expression: `name AS (` the sub-statement,
/// trimmed and one indentation level deeper, `)`.
pub open spec fn cte_seq(name: Seq<char>, sm: SelectModel, f: FmtModel) -> Seq<char> {
    name + f.space + "AS"@ + f.space + "("@ + f.lb + f.indent + indent_lb(
        trim_seq(select_render(sm, f)),
        f.indent,
    ) + f.lb + ")"@
}

/// Every common-table-expression rendered, in call order.
pub open spec fn ctes(items: Seq<(Seq<char>, SelectModel)>, f: FmtModel) -> Seq<Seq<char>> {
    items.map_values(|p: (Seq<char>, SelectModel)| cte_seq(p.0, p.1, f))
}

/// The `WITH` clause body.
pub open spec fn with_body(m: InsertModel, f: FmtModel) -> Seq<char> {
    if m.with_items.len() == 0 {
        Seq::empty()
    } else {
        "WITH"@ + f.space + join_with(ctes(m.with_items, f), f.comma + f.lb)
    }
}

/// The insert clause body: the variant's keyword and the stored text.
pub open spec fn insert_body(m: InsertModel, f: FmtModel) -> Seq<char> {
    kw_body(m.insert.1, insert_prefix(m.insert.0), f)
}

/// The values clause body: the accumulated list, or `DEFAULT VALUES`
/// where that was requested and no value arrived.
pub open spec fn values_body(m: InsertModel, f: FmtModel) -> Seq<char> {
    if m.values.len() > 0 {
        list_body(m.values, "VALUES"@, f.comma, f)
    } else if m.default_values {
        "DEFAULT VALUES"@
    } else {
        Seq::empty()
    }
}

/// The delegated `SELECT` clause body: the sub-statement rendered with the
/// same configuration, trimmed, one indentation level deeper.
pub open spec fn select_body(m: InsertModel, f: FmtModel) -> Seq<char> {
    match m.select {
        Option::None => Seq::empty(),
        Option::Some(sm) => f.indent + indent_lb(trim_seq(select_render(sm, f)), f.indent),
    }
}

/// One clause of the fixed order spliced on, with its recorded raw text.
pub open spec fn iseg(
    q: Seq<char>,
    m: InsertModel,
    f: FmtModel,
    tag: InsertClause,
    body: Seq<char>,
) -> Seq<char> {
    clause_seg(q, raws_for(m.raw_before, tag), body_sql(body, f), raws_for(m.raw_after, tag), f)
}

/// The fixed clause order of an `INSERT`, before the final trim.
pub open spec fn insert_concat_seq(m: InsertModel, f: FmtModel) -> Seq<char> {
    let q0 = raw_seg(Seq::empty(), m.raw, f);
    let q1 = iseg(q0, m, f, InsertClause::With, with_body(m, f));
    let q2 = iseg(q1, m, f, insert_tag(m.insert.0), insert_body(m, f));
    let q3 = iseg(q2, m, f, InsertClause::Overriding, kw_body(m.overriding, "OVERRIDING"@, f));
    let q4 = iseg(q3, m, f, InsertClause::Values, values_body(m, f));
    let q5 = iseg(q4, m, f, InsertClause::Select, select_body(m, f));
    let q6 = iseg(q5, m, f, InsertClause::OnConflict, kw_body(m.on_conflict, "ON CONFLICT"@, f));
    iseg(q6, m, f, InsertClause::Returning, list_body(m.returning, "RETURNING"@, f.comma, f))
}

/// What an `INSERT` renders to under configuration `f`: a pure function
/// of the statement's state and the configuration alone.
pub open spec fn insert_render(m: InsertModel, f: FmtModel) -> Seq<char> {
    trim_end_seq(insert_concat_seq(m, f))
}

/// The ledger tag of the insert clause, executable.
fn insert_tag_exec(v: InsertVars) -> (r: InsertClause)
    ensures
        r == insert_tag(v),
{
    match v {
        InsertVars::InsertInto => InsertClause::InsertInto,
        InsertVars::InsertOr => InsertClause::InsertOr,
        InsertVars::ReplaceInto => InsertClause::ReplaceInto,
    }
}

/// The keyword of the insert clause, executable.
fn insert_prefix_exec(v: InsertVars) -> (r: &'static str)
    ensures
        r@ == insert_prefix(v),
{
    match v {
        InsertVars::InsertInto => "INSERT INTO",
        InsertVars::InsertOr => "INSERT OR",
        InsertVars::ReplaceInto => "REPLACE INTO",
    }
}

impl Insert {
    /// Creates an empty `INSERT` builder for the PostgreSQL dialect.
    pub fn new() -> (r: Self)
        ensures
            r@ == empty_insert_model(Dialect::Postgresql),
    {
        Self::new_with_dialect(Dialect::Postgresql)
    }

    /// Creates an empty `INSERT` builder for the given dialect.
    pub fn new_with_dialect(dialect: Dialect) -> (r: Self)
        ensures
            r@ == empty_insert_model(dialect),
    {
        let r = Insert {
            _dialect: dialect,
            _raw: Vec::new(),
            _raw_before: Vec::new(),
            _raw_after: Vec::new(),
            _with: Vec::new(),
            _insert: (InsertVars::InsertInto, String::new()),
            _overriding: String::new(),
            _values: Vec::new(),
            _select: Option::None,
            _on_conflict: String::new(),
            _returning: Vec::new(),
            _default_values: false,
        };
        proof {
            assert(ledger_view(r._raw_before@) =~= Seq::<(InsertClause, Seq<char>)>::empty());
            assert(ledger_view(r._raw_after@) =~= Seq::<(InsertClause, Seq<char>)>::empty());
            assert(with_views(r._with@) =~= Seq::<(Seq<char>, SelectModel)>::empty());
            assert(r@ =~= empty_insert_model(dialect));
        }
        r
    }

    /// Adds a raw SQL fragment rendered before everything else; duplicates
    /// by exact text and all-whitespace fragments are ignored.
    pub fn raw(self, raw_sql: &str) -> (r: Self)
        ensures
            r@ == raw_m(self@, raw_sql@),
    {
        let mut this = self;
        let t = trim(raw_sql);
        push_unique(&mut this._raw, t);
        proof {
            assert(this@ =~= raw_m(self@, raw_sql@));
        }
        this
    }

    /// Records a raw SQL fragment rendered just before `clause`; fragments
    /// for one clause keep their call order.
    pub fn raw_before(self, clause: InsertClause, raw_sql: &str) -> (r: Self)
        ensures
            r@ == raw_before_m(self@, clause, raw_sql@),
    {
        let mut this = self;
        let t = trim(raw_sql);
        if t.unicode_len() > 0 {
            proof {
                lemma_ledger_view_push(this._raw_before@, (clause, t));
            }
            this._raw_before.push((clause, t));
        }
        proof {
            assert(this@ =~= raw_before_m(self@, clause, raw_sql@));
        }
        this
    }

    /// Records a raw SQL fragment rendered just after `clause`; fragments
    /// for one clause keep their call order.
    pub fn raw_after(self, clause: InsertClause, raw_sql: &str) -> (r: Self)
        ensures
            r@ == raw_after_m(self@, clause, raw_sql@),
    {
        let mut this = self;
        let t = trim(raw_sql);
        if t.unicode_len() > 0 {
            proof {
                lemma_ledger_view_push(this._raw_after@, (clause, t));
            }
            this._raw_after.push((clause, t));
        }
        proof {
            assert(this@ =~= raw_after_m(self@, clause, raw_sql@));
        }
        this
    }

    /// The `INSERT INTO` clause; a repeated call overwrites the previous
    /// value.
    pub fn insert_into(self, table_name: &str) -> (r: Self)
        ensures
            r@ == insert_into_m(self@, table_name@),
    {
        let mut this = self;
        this._insert = (InsertVars::InsertInto, trim(table_name));
        proof {
            assert(this@ =~= insert_into_m(self@, table_name@));
        }
        this
    }

    /// The `INSERT OR <keyword> INTO` clause of SQLite; under any other
    /// dialect the statement is unchanged.
    pub fn insert_or(self, expression: &str) -> (r: Self)
        ensures
            r@ == insert_or_m(self@, expression@),
    {
        let mut this = self;
        if this._dialect == Dialect::Sqlite {
            this._insert = (InsertVars::InsertOr, trim(expression));
        }
        proof {
            assert(this@ =~= insert_or_m(self@, expression@));
        }
        this
    }

    /// The `REPLACE INTO` clause of SQLite; under any other dialect the
    /// statement is unchanged.
    pub fn replace_into(self, expression: &str) -> (r: Self)
        ensures
            r@ == replace_into_m(self@, expression@),
    {
        let mut this = self;
        if this._dialect == Dialect::Sqlite {
            this._insert = (InsertVars::ReplaceInto, trim(expression));
        }
        proof {
            assert(this@ =~= replace_into_m(self@, expression@));
        }
        this
    }

    /// The `OVERRIDING` clause; not a SQLite clause, and a repeated call
    /// overwrites the previous value.
    pub fn overriding(self, option: &str) -> (r: Self)
        ensures
            r@ == overriding_m(self@, option@),
    {
        let mut this = self;
        if !(this._dialect == Dialect::Sqlite) {
            this._overriding = trim(option);
        }
        proof {
            assert(this@ =~= overriding_m(self@, option@));
        }
        this
    }

    /// The `VALUES` clause: trimmed, appended unless empty or an exact
    /// duplicate; distinct values keep their call order.
    pub fn values(self, value: &str) -> (r: Self)
        ensures
            r@ == values_m(self@, value@),
    {
        let mut this = self;
        let t = trim(value);
        push_unique(&mut this._values, t);
        proof {
            assert(this@ =~= values_m(self@, value@));
        }
        this
    }

    /// The delegated `SELECT` clause; a repeated call overwrites the
    /// previous sub-statement.
    pub fn select(self, select: Select) -> (r: Self)
        ensures
            r@ == select_set_m(self@, select@),
    {
        let mut this = self;
        this._select = Option::Some(select);
        proof {
            assert(this@ =~= select_set_m(self@, select@));
        }
        this
    }

    /// The `ON CONFLICT` clause; a repeated call overwrites the previous
    /// value.
    pub fn on_conflict(self, conflict: &str) -> (r: Self)
        ensures
            r@ == on_conflict_m(self@, conflict@),
    {
        let mut this = self;
        this._on_conflict = trim(conflict);
        proof {
            assert(this@ =~= on_conflict_m(self@, conflict@));
        }
        this
    }

    /// The `RETURNING` clause: trimmed, appended unless empty or a
    /// duplicate; not available in the baseline dialect.
    pub fn returning(self, output_name: &str) -> (r: Self)
        ensures
            r@ == returning_m(self@, output_name@),
    {
        let mut this = self;
        if !(this._dialect == Dialect::Ansi) {
            let t = trim(output_name);
            push_unique(&mut this._returning, t);
        }
        proof {
            assert(this@ =~= returning_m(self@, output_name@));
        }
        this
    }

    /// The `WITH` clause: records a named sub-statement, shared by
    /// reference count so the same sub-statement can serve several
    /// parents; not available in the baseline dialect.
    pub fn with(self, name: &str, query: Rc<Select>) -> (r: Self)
        ensures
            r@ == with_m(self@, name@, query@),
    {
        let mut this = self;
        if !(this._dialect == Dialect::Ansi) {
            let t = trim(name);
            proof {
                lemma_with_views_push(this._with@, (t, query));
            }
            this._with.push((t, query));
        }
        proof {
            assert(this@ =~= with_m(self@, name@, query@));
        }
        this
    }

    /// The `DEFAULT VALUES` clause of SQLite; under any other dialect the
    /// statement is unchanged.
    pub fn default_values(self) -> (r: Self)
        ensures
            r@ == default_values_m(self@),
    {
        let mut this = self;
        if this._dialect == Dialect::Sqlite {
            this._default_values = true;
        }
        proof {
            assert(this@ =~= default_values_m(self@));
        }
        this
    }

    /// Builds the `WITH` clause body.
    fn build_with_body(&self, fmts: &Formatter) -> (r: String)
        ensures
            r@ == with_body(self@, fmts@),
    {
        let ghost wv = with_views(self._with@);
        proof {
            assert(wv.len() == self._with@.len());
        }
        if self._with.len() == 0 {
            return String::new();
        }
        let mut cte_items: Vec<String> = Vec::new();
        let mut i: usize = 0;
        proof {
            assert(cte_items.deep_view() =~= ctes(wv.subrange(0, 0), fmts@));
        }
        while i < self._with.len()
            invariant
                i <= self._with@.len(),
                wv == with_views(self._with@),
                wv.len() == self._with@.len(),
                cte_items.deep_view() == ctes(wv.subrange(0, i as int), fmts@),
            decreases self._with@.len() - i,
        {
            let p = &self._with[i];
            let sub = p.1.concat(fmts);
            let subt = trim(sub.as_str());
            let ind = indent_lines(subt.as_str(), fmts.indent.as_str());
            let mut c = String::new();
            c.append(p.0.as_str());
            c.append(fmts.space.as_str());
            c.append("AS");
            c.append(fmts.space.as_str());
            c.append("(");
            c.append(fmts.lb.as_str());
            c.append(fmts.indent.as_str());
            c.append(ind.as_str());
            c.append(fmts.lb.as_str());
            c.append(")");
            proof {
                assert(wv[i as int] == (self._with@[i as int].0@, self._with@[i as int].1@));
                assert(c@ =~= cte_seq(wv[i as int].0, wv[i as int].1, fmts@));
            }
            let ghost dv0 = cte_items.deep_view();
            cte_items.push(c);
            proof {
                assert(cte_items.deep_view() =~= dv0.push(c@));
                assert(wv.subrange(0, i + 1) =~= wv.subrange(0, i as int).push(wv[i as int]));
                assert(ctes(wv.subrange(0, i + 1), fmts@) =~= ctes(wv.subrange(0, i as int), fmts@)
                    .push(cte_seq(wv[i as int].0, wv[i as int].1, fmts@)));
            }
            i = i + 1;
        }
        proof {
            assert(wv.subrange(0, self._with@.len() as int) =~= wv);
        }
        let mut sep = fmts.comma.clone();
        sep.append(fmts.lb.as_str());
        let joined = join(&cte_items, sep.as_str());
        let mut out = String::from_str("WITH");
        out.append(fmts.space.as_str());
        out.append(joined.as_str());
        out
    }

    /// Builds the values clause body.
    fn build_values_body(&self, fmts: &Formatter) -> (r: String)
        ensures
            r@ == values_body(self@, fmts@),
    {
        proof {
            assert(self._values.deep_view().len() == self._values@.len());
        }
        if self._values.len() > 0 {
            build_list_body(&self._values, "VALUES", fmts.comma.as_str(), fmts)
        } else if self._default_values {
            String::from_str("DEFAULT VALUES")
        } else {
            String::new()
        }
    }

    /// Builds the delegated select clause body.
    fn build_select_body(&self, fmts: &Formatter) -> (r: String)
        ensures
            r@ == select_body(self@, fmts@),
    {
        match &self._select {
            Option::None => String::new(),
            Option::Some(s) => {
                let sub = s.concat(fmts);
                let subt = trim(sub.as_str());
                let ind = indent_lines(subt.as_str(), fmts.indent.as_str());
                let mut out = fmts.indent.clone();
                out.append(ind.as_str());
                out
            },
        }
    }

    /// Renders the statement under the given configuration: a pure read of
    /// the builder, repeatable with the same outcome.
    pub fn concat(&self, fmts: &Formatter) -> (r: String)
        ensures
            r@ == insert_render(self@, fmts@),
    {
        let query = String::new();
        let q0 = concat_raw(query, fmts, &self._raw);
        let wb = self.build_with_body(fmts);
        let q1 = concat_raw_before_after_insert(
            &self._raw_before,
            &self._raw_after,
            q0,
            fmts,
            InsertClause::With,
            wrap_body(wb, fmts),
        );
        let tag = insert_tag_exec(self._insert.0);
        let ib = build_kw_body(&self._insert.1, insert_prefix_exec(self._insert.0), fmts);
        let q2 = concat_raw_before_after_insert(
            &self._raw_before,
            &self._raw_after,
            q1,
            fmts,
            tag,
            wrap_body(ib, fmts),
        );
        let ob = build_kw_body(&self._overriding, "OVERRIDING", fmts);
        let q3 = concat_raw_before_after_insert(
            &self._raw_before,
            &self._raw_after,
            q2,
            fmts,
            InsertClause::Overriding,
            wrap_body(ob, fmts),
        );
        let vb = self.build_values_body(fmts);
        let q4 = concat_raw_before_after_insert(
            &self._raw_before,
            &self._raw_after,
            q3,
            fmts,
            InsertClause::Values,
            wrap_body(vb, fmts),
        );
        let sb = self.build_select_body(fmts);
        let q5 = concat_raw_before_after_insert(
            &self._raw_before,
            &self._raw_after,
            q4,
            fmts,
            InsertClause::Select,
            wrap_body(sb, fmts),
        );
        let cb = build_kw_body(&self._on_conflict, "ON CONFLICT", fmts);
        let q6 = concat_raw_before_after_insert(
            &self._raw_before,
            &self._raw_after,
            q5,
            fmts,
            InsertClause::OnConflict,
            wrap_body(cb, fmts),
        );
        let rb = build_list_body(&self._returning, "RETURNING", fmts.comma.as_str(), fmts);
        let q7 = concat_raw_before_after_insert(
            &self._raw_before,
            &self._raw_after,
            q6,
            fmts,
            InsertClause::Returning,
            wrap_body(rb, fmts),
        );
        proof {
            assert(q7@ == insert_concat_seq(self@, fmts@));
        }
        trim_end(q7.as_str())
    }

    /// The current state of the builder as a one-line string.
    pub fn as_string(&self) -> (r: String)
        ensures
            r@ == insert_render(self@, one_line_fmt()),
    {
        let fmts = fmt::one_line();
        self.concat(&fmts)
    }

    /// Renders on one line and collapses every whitespace run to a single
    /// space.
    pub fn render_one_line(&self) -> (r: String)
        ensures
            r@ == formatted(insert_render(self@, one_line_fmt()), false),
    {
        let fmts = fmt::one_line();
        let s = self.concat(&fmts);
        proof {
            reveal_strlit("");
            assert(one_line_fmt().lb.len() == 0);
        }
        normalize(s.as_str(), &fmts)
    }

    /// Renders with each clause on its own line, nested statements one
    /// indentation level deeper.
    pub fn render_multi_line(&self) -> (r: String)
        ensures
            r@ == formatted(insert_render(self@, multiline_fmt()), true),
    {
        let fmts = fmt::multiline();
        let s = self.concat(&fmts);
        proof {
            reveal_strlit("\n");
            assert(multiline_fmt().lb.len() == 1);
        }
        normalize(s.as_str(), &fmts)
    }
}

} // verus!
