//! The `DROP INDEX` statement builder. The dialects diverge here: under
//! PostgreSQL every accumulated index name renders, comma-joined; a
//! restricted dialect keeps only the most-recently-added name.

use crate::behavior::push_unique;
use crate::behavior::push_unique_s;
use crate::concat::body_sql;
use crate::concat::clause_seg;
use crate::concat::concat_raw;
use crate::concat::concat_raw_before_after_drop;
use crate::concat::ledger_view;
use crate::concat::lemma_ledger_view_push;
use crate::concat::raw_seg;
use crate::concat::raws_for;
use crate::concat::wrap_body;
use crate::fmt;
use crate::fmt::FmtModel;
use crate::fmt::Formatter;
use crate::fmt::one_line_fmt;
use crate::structure::Dialect;
use crate::structure::DropIndex;
use crate::structure::DropIndexModel;
use crate::structure::DropIndexParams;
use crate::text::join;
use crate::text::join_with;
use crate::text::trim;
use crate::text::trim_end;
use crate::text::trim_end_seq;
use crate::text::trim_seq;
use vstd::prelude::*;

verus! {

/// A freshly constructed `DROP INDEX` for `d`: every clause empty.
pub open spec fn empty_drop_index_model(d: Dialect) -> DropIndexModel {
    DropIndexModel {
        dialect: d,
        raw: Seq::empty(),
        raw_before: Seq::empty(),
        raw_after: Seq::empty(),
        drop_index: Seq::empty(),
        if_exists: false,
    }
}

/// The model after `drop_index(v)`: the trimmed name appended unless
/// empty or already present; call order of distinct names is kept.
pub open spec fn drop_index_m(m: DropIndexModel, v: Seq<char>) -> DropIndexModel {
    DropIndexModel { drop_index: push_unique_s(m.drop_index, trim_seq(v)), ..m }
}

/// The model after `if_exists()`.
pub open spec fn if_exists_m(m: DropIndexModel) -> DropIndexModel {
    DropIndexModel { if_exists: true, ..m }
}

/// The model after `raw(v)`, as the insert builder's.
pub open spec fn drop_raw_m(m: DropIndexModel, v: Seq<char>) -> DropIndexModel {
    DropIndexModel { raw: push_unique_s(m.raw, trim_seq(v)), ..m }
}

/// The model after `raw_before(c, v)`: recorded in call order; an
/// all-whitespace fragment contributes nothing and is not recorded.
pub open spec fn drop_raw_before_m(m: DropIndexModel, c: DropIndexParams, v: Seq<char>) -> DropIndexModel {
    if trim_seq(v).len() == 0 {
        m
    } else {
        DropIndexModel { raw_before: m.raw_before.push((c, trim_seq(v))), ..m }
    }
}

/// The model after `raw_after(c, v)`, as [`drop_raw_before_m`].
pub open spec fn drop_raw_after_m(m: DropIndexModel, c: DropIndexParams, v: Seq<char>) -> DropIndexModel {
    if trim_seq(v).len() == 0 {
        m
    } else {
        DropIndexModel { raw_after: m.raw_after.push((c, trim_seq(v))), ..m }
    }
}

/// Which index names render: all of them, comma-joined, under PostgreSQL;
/// only the most-recently-added one under a restricted dialect. The
/// divergence is selected by the dialect alone, never inferred.
pub open spec fn index_names(m: DropIndexModel, f: FmtModel) -> Seq<char> {
    if m.dialect == Dialect::Postgresql {
        join_with(m.drop_index, f.comma)
    } else {
        m.drop_index.last()
    }
}

/// The drop-index clause body: nothing until a name was accumulated, then
/// the keyword, an optional `IF EXISTS` guard, and the names.
pub open spec fn drop_index_body(m: DropIndexModel, f: FmtModel) -> Seq<char> {
    if m.drop_index.len() == 0 {
        Seq::empty()
    } else {
        "DROP INDEX"@ + f.space + (if m.if_exists {
            "IF EXISTS"@ + f.space
        } else {
            Seq::empty()
        }) + index_names(m, f)
    }
}

/// The whole statement before the final trim: the leading raw fragments,
/// then the single clause with its recorded raw text.
pub open spec fn drop_index_concat_seq(m: DropIndexModel, f: FmtModel) -> Seq<char> {
    clause_seg(
        raw_seg(Seq::empty(), m.raw, f),
        raws_for(m.raw_before, DropIndexParams::DropIndex),
        body_sql(drop_index_body(m, f), f),
        raws_for(m.raw_after, DropIndexParams::DropIndex),
        f,
    )
}

/// What a `DROP INDEX` renders to under configuration `f`.
pub open spec fn drop_index_render(m: DropIndexModel, f: FmtModel) -> Seq<char> {
    trim_end_seq(drop_index_concat_seq(m, f))
}

impl DropIndex {
    /// Creates an empty `DROP INDEX` builder for the PostgreSQL dialect.
    pub fn new() -> (r: Self)
        ensures
            r@ == empty_drop_index_model(Dialect::Postgresql),
    {
        Self::new_with_dialect(Dialect::Postgresql)
    }

    /// Creates an empty `DROP INDEX` builder for the given dialect.
    pub fn new_with_dialect(dialect: Dialect) -> (r: Self)
        ensures
            r@ == empty_drop_index_model(dialect),
    {
        let r = DropIndex {
            _dialect: dialect,
            _raw: Vec::new(),
            _raw_before: Vec::new(),
            _raw_after: Vec::new(),
            _drop_index: Vec::new(),
            _if_exists: false,
        };
        proof {
            assert(ledger_view(r._raw_before@) =~= Seq::<(DropIndexParams, Seq<char>)>::empty());
            assert(ledger_view(r._raw_after@) =~= Seq::<(DropIndexParams, Seq<char>)>::empty());
            assert(r@ =~= empty_drop_index_model(dialect));
        }
        r
    }

    /// Accumulates one index name: trimmed, appended unless empty or an
    /// exact duplicate.
    pub fn drop_index(self, index_name: &str) -> (r: Self)
        ensures
            r@ == drop_index_m(self@, index_name@),
    {
        let mut this = self;
        let t = trim(index_name);
        push_unique(&mut this._drop_index, t);
        proof {
            assert(this@ =~= drop_index_m(self@, index_name@));
        }
        this
    }

    /// Adds the `IF EXISTS` guard.
    pub fn if_exists(self) -> (r: Self)
        ensures
            r@ == if_exists_m(self@),
    {
        let mut this = self;
        this._if_exists = true;
        proof {
            assert(this@ =~= if_exists_m(self@));
        }
        this
    }

    /// Adds a raw SQL fragment rendered before everything else; duplicates
    /// by exact text and all-whitespace fragments are ignored.
    pub fn raw(self, raw_sql: &str) -> (r: Self)
        ensures
            r@ == drop_raw_m(self@, raw_sql@),
    {
        let mut this = self;
        let t = trim(raw_sql);
        push_unique(&mut this._raw, t);
        proof {
            assert(this@ =~= drop_raw_m(self@, raw_sql@));
        }
        this
    }

    /// Records a raw SQL fragment rendered just before `clause`.
    pub fn raw_before(self, clause: DropIndexParams, raw_sql: &str) -> (r: Self)
        ensures
            r@ == drop_raw_before_m(self@, clause, raw_sql@),
    {
        let mut this = self;
        let t = trim(raw_sql);
        if t.unicode_len() > 0 {
            proof {
                lemma_ledger_view_push(this._raw_before@, (clause, t));
            }
            this._raw_before.push((clause, t));
        }
        proof {
            assert(this@ =~= drop_raw_before_m(self@, clause, raw_sql@));
        }
        this
    }

    /// Records a raw SQL fragment rendered just after `clause`.
    pub fn raw_after(self, clause: DropIndexParams, raw_sql: &str) -> (r: Self)
        ensures
            r@ == drop_raw_after_m(self@, clause, raw_sql@),
    {
        let mut this = self;
        let t = trim(raw_sql);
        if t.unicode_len() > 0 {
            proof {
                lemma_ledger_view_push(this._raw_after@, (clause, t));
            }
            this._raw_after.push((clause, t));
        }
        proof {
            assert(this@ =~= drop_raw_after_m(self@, clause, raw_sql@));
        }
        this
    }

    /// Splices the drop-index clause, with its recorded raw text, onto
    /// `query`.
    pub fn concat_drop_index(&self, query: String, fmts: &Formatter) -> (r: String)
        ensures
            r@ == clause_seg(
                query@,
                raws_for(self@.raw_before, DropIndexParams::DropIndex),
                body_sql(drop_index_body(self@, fmts@), fmts@),
                raws_for(self@.raw_after, DropIndexParams::DropIndex),
                fmts@,
            ),
    {
        proof {
            assert(self._drop_index.deep_view().len() == self._drop_index@.len());
        }
        let sql = if self._drop_index.len() > 0 {
            let mut body = String::from_str("DROP INDEX");
            body.append(fmts.space.as_str());
            if self._if_exists {
                body.append("IF EXISTS");
                body.append(fmts.space.as_str());
            }
            let names = if self._dialect == Dialect::Postgresql {
                join(&self._drop_index, fmts.comma.as_str())
            } else {
                let last = self._drop_index[self._drop_index.len() - 1].clone();
                proof {
                    assert(self._drop_index.deep_view().last() == self._drop_index@[self._drop_index@.len()
                        - 1]@);
                }
                last
            };
            body.append(names.as_str());
            proof {
                assert(body@ =~= drop_index_body(self@, fmts@));
            }
            body
        } else {
            String::new()
        };
        concat_raw_before_after_drop(
            &self._raw_before,
            &self._raw_after,
            query,
            fmts,
            DropIndexParams::DropIndex,
            wrap_body(sql, fmts),
        )
    }

    /// Renders the statement under the given configuration: a pure read,
    /// repeatable with the same outcome.
    pub fn concat(&self, fmts: &Formatter) -> (r: String)
        ensures
            r@ == drop_index_render(self@, fmts@),
    {
        let query = String::new();
        let q0 = concat_raw(query, fmts, &self._raw);
        let q1 = self.concat_drop_index(q0, fmts);
        trim_end(q1.as_str())
    }

    /// The current state of the builder as a one-line string.
    pub fn as_string(&self) -> (r: String)
        ensures
            r@ == drop_index_render(self@, one_line_fmt()),
    {
        let fmts = fmt::one_line();
        self.concat(&fmts)
    }
}

} // verus!
