//! The statement builders' data: dialects, clause identifiers, the builder
//! structs, and the mathematical model each one is read as.

use crate::concat::ledger_view;
use std::rc::Rc;
use vstd::prelude::*;

verus! {

/// Target database dialect, chosen when a statement is created. It gates
/// which clause methods take effect and how ambiguous multi-valued clauses
/// render; it is never inferred from content.
#[derive(Clone, Copy, PartialEq, Eq, Structural)]
pub enum Dialect {
    /// The portable baseline: no `RETURNING`, no `WITH`, no vendor clauses.
    Ansi,
    /// PostgreSQL: `RETURNING`, `WITH`, `OVERRIDING`, and comma-joined
    /// multi-index `DROP INDEX`.
    Postgresql,
    /// SQLite: `RETURNING`, `WITH`, `DEFAULT VALUES`, `INSERT OR ...` and
    /// `REPLACE INTO`; `DROP INDEX` keeps only the last index name.
    Sqlite,
}

/// The clauses of an [`Insert`] statement that raw text can be recorded
/// against.
#[derive(Clone, Copy, PartialEq, Eq, Structural)]
pub enum InsertClause {
    InsertInto,
    InsertOr,
    OnConflict,
    Overriding,
    ReplaceInto,
    Returning,
    Select,
    Values,
    With,
}

/// The clauses of a [`DropIndex`] statement that raw text can be recorded
/// against.
#[derive(Clone, Copy, PartialEq, Eq, Structural)]
pub enum DropIndexParams {
    DropIndex,
}

/// Which variant of the insert clause was set last.
#[derive(Clone, Copy, PartialEq, Eq, Structural)]
pub enum InsertVars {
    InsertInto,
    InsertOr,
    ReplaceInto,
}

/// A `SELECT` statement builder, the sub-statement an [`Insert`] can
/// delegate to.
pub struct Select {
    pub(crate) _select: Vec<String>,
    pub(crate) _from: Vec<String>,
    pub(crate) _where: Vec<String>,
}

/// The mathematical image of a [`Select`].
#[verifier::ext_equal]
pub ghost struct SelectModel {
    pub select: Seq<Seq<char>>,
    pub from: Seq<Seq<char>>,
    pub where_cond: Seq<Seq<char>>,
}

impl View for Select {
    type V = SelectModel;

    open(crate) spec fn view(&self) -> SelectModel {
        SelectModel {
            select: self._select.deep_view(),
            from: self._from.deep_view(),
            where_cond: self._where.deep_view(),
        }
    }
}

/// Named common-table-expressions as their mathematical image.
pub open spec fn with_views(l: Seq<(String, Rc<Select>)>) -> Seq<(Seq<char>, SelectModel)> {
    l.map_values(|p: (String, Rc<Select>)| (p.0@, p.1@))
}

pub proof fn lemma_with_views_push(l: Seq<(String, Rc<Select>)>, x: (String, Rc<Select>))
    ensures
        with_views(l.push(x)) == with_views(l).push((x.0@, x.1@)),
{
    assert(with_views(l.push(x)) =~= with_views(l).push((x.0@, x.1@)));
}

/// An `INSERT` statement builder.
pub struct Insert {
    pub(crate) _dialect: Dialect,
    pub(crate) _raw: Vec<String>,
    pub(crate) _raw_before: Vec<(InsertClause, String)>,
    pub(crate) _raw_after: Vec<(InsertClause, String)>,
    pub(crate) _with: Vec<(String, Rc<Select>)>,
    pub(crate) _insert: (InsertVars, String),
    pub(crate) _overriding: String,
    pub(crate) _values: Vec<String>,
    pub(crate) _select: Option<Select>,
    pub(crate) _on_conflict: String,
    pub(crate) _returning: Vec<String>,
    pub(crate) _default_values: bool,
}

/// The mathematical image of an [`Insert`].
#[verifier::ext_equal]
pub ghost struct InsertModel {
    pub dialect: Dialect,
    pub raw: Seq<Seq<char>>,
    pub raw_before: Seq<(InsertClause, Seq<char>)>,
    pub raw_after: Seq<(InsertClause, Seq<char>)>,
    pub with_items: Seq<(Seq<char>, SelectModel)>,
    pub insert: (InsertVars, Seq<char>),
    pub overriding: Seq<char>,
    pub values: Seq<Seq<char>>,
    pub select: Option<SelectModel>,
    pub on_conflict: Seq<char>,
    pub returning: Seq<Seq<char>>,
    pub default_values: bool,
}

impl View for Insert {
    type V = InsertModel;

    open(crate) spec fn view(&self) -> InsertModel {
        InsertModel {
            dialect: self._dialect,
            raw: self._raw.deep_view(),
            raw_before: ledger_view(self._raw_before@),
            raw_after: ledger_view(self._raw_after@),
            with_items: with_views(self._with@),
            insert: (self._insert.0, self._insert.1@),
            overriding: self._overriding@,
            values: self._values.deep_view(),
            select: match self._select {
                Option::Some(s) => Option::Some(s@),
                Option::None => Option::None,
            },
            on_conflict: self._on_conflict@,
            returning: self._returning.deep_view(),
            default_values: self._default_values,
        }
    }
}

/// A `DROP INDEX` statement builder.
pub struct DropIndex {
    pub(crate) _dialect: Dialect,
    pub(crate) _raw: Vec<String>,
    pub(crate) _raw_before: Vec<(DropIndexParams, String)>,
    pub(crate) _raw_after: Vec<(DropIndexParams, String)>,
    pub(crate) _drop_index: Vec<String>,
    pub(crate) _if_exists: bool,
}

/// The mathematical image of a [`DropIndex`].
#[verifier::ext_equal]
pub ghost struct DropIndexModel {
    pub dialect: Dialect,
    pub raw: Seq<Seq<char>>,
    pub raw_before: Seq<(DropIndexParams, Seq<char>)>,
    pub raw_after: Seq<(DropIndexParams, Seq<char>)>,
    pub drop_index: Seq<Seq<char>>,
    pub if_exists: bool,
}

impl View for DropIndex {
    type V = DropIndexModel;

    open(crate) spec fn view(&self) -> DropIndexModel {
        DropIndexModel {
            dialect: self._dialect,
            raw: self._raw.deep_view(),
            raw_before: ledger_view(self._raw_before@),
            raw_after: ledger_view(self._raw_after@),
            drop_index: self._drop_index.deep_view(),
            if_exists: self._if_exists,
        }
    }
}

} // verus!
