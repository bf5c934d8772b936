//! The `SELECT` statement builder: the sub-statement an insert can
//! delegate to, and a small statement of its own.

use crate::behavior::push_unique;
use crate::behavior::push_unique_s;
use crate::concat::body_sql;
use crate::concat::build_list_body;
use crate::concat::list_body;
use crate::concat::wrap_body;
use crate::fmt;
use crate::fmt::FmtModel;
use crate::fmt::Formatter;
use crate::fmt::one_line_fmt;
use crate::structure::Select;
use crate::structure::SelectModel;
use crate::text::trim;
use crate::text::trim_end;
use crate::text::trim_end_seq;
use crate::text::trim_seq;
use vstd::prelude::*;

verus! {

/// A freshly constructed `SELECT`: every clause empty.
pub open spec fn empty_select_model() -> SelectModel {
    SelectModel { select: Seq::empty(), from: Seq::empty(), where_cond: Seq::empty() }
}

/// The model after `select(v)`: the trimmed text appended to the column
/// list unless empty or already present.
pub open spec fn select_m(m: SelectModel, v: Seq<char>) -> SelectModel {
    SelectModel { select: push_unique_s(m.select, trim_seq(v)), ..m }
}

/// The model after `from(v)`.
pub open spec fn from_m(m: SelectModel, v: Seq<char>) -> SelectModel {
    SelectModel { from: push_unique_s(m.from, trim_seq(v)), ..m }
}

/// The model after `where_clause(v)`.
pub open spec fn where_m(m: SelectModel, v: Seq<char>) -> SelectModel {
    SelectModel { where_cond: push_unique_s(m.where_cond, trim_seq(v)), ..m }
}

/// The fixed clause order of a `SELECT`, before the final trim: columns,
/// then `FROM`, then `WHERE`, conditions joined by `AND`.
pub open spec fn select_concat_seq(m: SelectModel, f: FmtModel) -> Seq<char> {
    body_sql(list_body(m.select, "SELECT"@, f.comma, f), f) + body_sql(
        list_body(m.from, "FROM"@, f.comma, f),
        f,
    ) + body_sql(list_body(m.where_cond, "WHERE"@, " AND "@, f), f)
}

/// What a `SELECT` renders to under configuration `f`.
pub open spec fn select_render(m: SelectModel, f: FmtModel) -> Seq<char> {
    trim_end_seq(select_concat_seq(m, f))
}

impl Select {
    /// Creates an empty `SELECT` builder.
    pub fn new() -> (r: Self)
        ensures
            r@ == empty_select_model(),
    {
        let r = Select { _select: Vec::new(), _from: Vec::new(), _where: Vec::new() };
        proof {
            assert(r@ =~= empty_select_model());
        }
        r
    }

    /// The column list: trimmed, appended unless empty or a duplicate.
    pub fn select(self, clauses: &str) -> (r: Self)
        ensures
            r@ == select_m(self@, clauses@),
    {
        let mut this = self;
        let t = trim(clauses);
        push_unique(&mut this._select, t);
        proof {
            assert(this@ =~= select_m(self@, clauses@));
        }
        this
    }

    /// The `FROM` list: trimmed, appended unless empty or a duplicate.
    pub fn from(self, tables: &str) -> (r: Self)
        ensures
            r@ == from_m(self@, tables@),
    {
        let mut this = self;
        let t = trim(tables);
        push_unique(&mut this._from, t);
        proof {
            assert(this@ =~= from_m(self@, tables@));
        }
        this
    }

    /// The `WHERE` conditions: trimmed, appended unless empty or a
    /// duplicate; rendered joined by `AND`.
    pub fn where_clause(self, condition: &str) -> (r: Self)
        ensures
            r@ == where_m(self@, condition@),
    {
        let mut this = self;
        let t = trim(condition);
        push_unique(&mut this._where, t);
        proof {
            assert(this@ =~= where_m(self@, condition@));
        }
        this
    }

    /// Renders the statement under the given configuration: a pure read,
    /// repeatable with the same outcome.
    pub fn concat(&self, fmts: &Formatter) -> (r: String)
        ensures
            r@ == select_render(self@, fmts@),
    {
        let mut q = String::new();
        let b1 = build_list_body(&self._select, "SELECT", fmts.comma.as_str(), fmts);
        let s1 = wrap_body(b1, fmts);
        q.append(s1.as_str());
        let b2 = build_list_body(&self._from, "FROM", fmts.comma.as_str(), fmts);
        let s2 = wrap_body(b2, fmts);
        q.append(s2.as_str());
        let b3 = build_list_body(&self._where, "WHERE", " AND ", fmts);
        let s3 = wrap_body(b3, fmts);
        q.append(s3.as_str());
        proof {
            assert(q@ =~= select_concat_seq(self@, fmts@));
        }
        trim_end(q.as_str())
    }

    /// The current state of the builder as a one-line string.
    pub fn as_string(&self) -> (r: String)
        ensures
            r@ == select_render(self@, one_line_fmt()),
    {
        let fmts = fmt::one_line();
        self.concat(&fmts)
    }
}

} // verus!
