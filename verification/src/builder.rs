//! A staged builder for ADQL query strings.
//!
//! The mandatory SELECT and FROM fragments are tracked in the type: each
//! setter consumes the builder and returns one whose type records which
//! fragments are present, and only [`QueryReady`] — the type for "both
//! mandatory fragments set" — has a `build` method.  A query that lacks a
//! fragment therefore cannot even be written down.  The WHERE fragment is
//! optional and defaults to the empty string.

use vstd::prelude::*;

verus! {

/// The fragments a query is built from: the mathematical state of a
/// builder.  A fragment that was never supplied is the empty sequence.
pub struct QueryView {
    pub select: Seq<char>,
    pub from: Seq<char>,
    pub where_clause: Seq<char>,
}

pub open spec fn set_select(v: QueryView, s: Seq<char>) -> QueryView {
    QueryView { select: s, from: v.from, where_clause: v.where_clause }
}

pub open spec fn set_from(v: QueryView, f: Seq<char>) -> QueryView {
    QueryView { select: v.select, from: f, where_clause: v.where_clause }
}

pub open spec fn set_where(v: QueryView, w: Seq<char>) -> QueryView {
    QueryView { select: v.select, from: v.from, where_clause: w }
}

/// The finished query: the three fragments joined by single spaces, in the
/// fixed order select, from, where.  Nothing is trimmed, so an empty where
/// fragment leaves a trailing space.
pub open spec fn spec_query(v: QueryView) -> Seq<char> {
    v.select + " "@ + v.from + " "@ + v.where_clause
}

/// Setting the select fragment a second time supersedes the first: the
/// state is that of the later call alone, and no other fragment is
/// affected.
pub proof fn lemma_select_supersedes(v: QueryView, s1: Seq<char>, s2: Seq<char>)
    ensures
        set_select(set_select(v, s1), s2) == set_select(v, s2),
        spec_query(set_select(set_select(v, s1), s2)) == spec_query(set_select(v, s2)),
{
}

/// A builder whose where fragment was never touched builds
/// `<select> <from> `: the empty where fragment leaves a single trailing
/// space.
pub proof fn lemma_build_without_where(select: Seq<char>, from: Seq<char>)
    ensures
        spec_query(QueryView { select, from, where_clause: Seq::empty() }) == select + " "@ + from
            + " "@,
{
    assert(select + " "@ + from + " "@ + Seq::<char>::empty() =~= select + " "@ + from + " "@);
}

/// A builder with neither mandatory fragment yet.
pub struct QueryBuilder {
    where_clause: String,
}

/// A builder whose select fragment is set; FROM is still missing, so no
/// query can be built from it.
pub struct QueryWithSelect {
    select: String,
    where_clause: String,
}

/// A builder whose from fragment is set; SELECT is still missing, so no
/// query can be built from it.
pub struct QueryWithFrom {
    from: String,
    where_clause: String,
}

/// A builder with both mandatory fragments: the only stage with `build`.
pub struct QueryReady {
    select: String,
    from: String,
    where_clause: String,
}

impl View for QueryBuilder {
    type V = QueryView;

    closed spec fn view(&self) -> QueryView {
        QueryView { select: Seq::empty(), from: Seq::empty(), where_clause: self.where_clause@ }
    }
}

impl View for QueryWithSelect {
    type V = QueryView;

    closed spec fn view(&self) -> QueryView {
        QueryView { select: self.select@, from: Seq::empty(), where_clause: self.where_clause@ }
    }
}

impl View for QueryWithFrom {
    type V = QueryView;

    closed spec fn view(&self) -> QueryView {
        QueryView { select: Seq::empty(), from: self.from@, where_clause: self.where_clause@ }
    }
}

impl View for QueryReady {
    type V = QueryView;

    closed spec fn view(&self) -> QueryView {
        QueryView { select: self.select@, from: self.from@, where_clause: self.where_clause@ }
    }
}

impl QueryBuilder {
    /// A fresh builder: every fragment is still empty.
    pub fn new() -> (r: QueryBuilder)
        ensures
            r@ == (QueryView { select: Seq::empty(), from: Seq::empty(), where_clause: Seq::empty() }),
    {
        proof {
            reveal_strlit("");
            assert(""@ =~= Seq::<char>::empty());
        }
        QueryBuilder { where_clause: "".to_owned() }
    }

    pub fn with_select(self, fragment: &str) -> (r: QueryWithSelect)
        ensures
            r@ == set_select(self@, fragment@),
    {
        QueryWithSelect { select: fragment.to_owned(), where_clause: self.where_clause }
    }

    pub fn with_from(self, fragment: &str) -> (r: QueryWithFrom)
        ensures
            r@ == set_from(self@, fragment@),
    {
        QueryWithFrom { from: fragment.to_owned(), where_clause: self.where_clause }
    }

    pub fn with_where(self, fragment: &str) -> (r: QueryBuilder)
        ensures
            r@ == set_where(self@, fragment@),
    {
        QueryBuilder { where_clause: fragment.to_owned() }
    }
}

impl QueryWithSelect {
    /// Replaces the select fragment: the later call supersedes the earlier.
    pub fn with_select(self, fragment: &str) -> (r: QueryWithSelect)
        ensures
            r@ == set_select(self@, fragment@),
    {
        QueryWithSelect { select: fragment.to_owned(), where_clause: self.where_clause }
    }

    pub fn with_from(self, fragment: &str) -> (r: QueryReady)
        ensures
            r@ == set_from(self@, fragment@),
    {
        QueryReady {
            select: self.select,
            from: fragment.to_owned(),
            where_clause: self.where_clause,
        }
    }

    pub fn with_where(self, fragment: &str) -> (r: QueryWithSelect)
        ensures
            r@ == set_where(self@, fragment@),
    {
        QueryWithSelect { select: self.select, where_clause: fragment.to_owned() }
    }
}

impl QueryWithFrom {
    pub fn with_select(self, fragment: &str) -> (r: QueryReady)
        ensures
            r@ == set_select(self@, fragment@),
    {
        QueryReady {
            select: fragment.to_owned(),
            from: self.from,
            where_clause: self.where_clause,
        }
    }

    /// Replaces the from fragment: the later call supersedes the earlier.
    pub fn with_from(self, fragment: &str) -> (r: QueryWithFrom)
        ensures
            r@ == set_from(self@, fragment@),
    {
        QueryWithFrom { from: fragment.to_owned(), where_clause: self.where_clause }
    }

    pub fn with_where(self, fragment: &str) -> (r: QueryWithFrom)
        ensures
            r@ == set_where(self@, fragment@),
    {
        QueryWithFrom { from: self.from, where_clause: fragment.to_owned() }
    }
}

impl QueryReady {
    pub fn with_select(self, fragment: &str) -> (r: QueryReady)
        ensures
            r@ == set_select(self@, fragment@),
    {
        QueryReady {
            select: fragment.to_owned(),
            from: self.from,
            where_clause: self.where_clause,
        }
    }

    pub fn with_from(self, fragment: &str) -> (r: QueryReady)
        ensures
            r@ == set_from(self@, fragment@),
    {
        QueryReady {
            select: self.select,
            from: fragment.to_owned(),
            where_clause: self.where_clause,
        }
    }

    pub fn with_where(self, fragment: &str) -> (r: QueryReady)
        ensures
            r@ == set_where(self@, fragment@),
    {
        QueryReady {
            select: self.select,
            from: self.from,
            where_clause: fragment.to_owned(),
        }
    }

    /// The finished query string: the fragments joined by single spaces, in
    /// the order select, from, where.
    pub fn build(&self) -> (r: String)
        ensures
            r@ == spec_query(self@),
    {
        let mut out: String = self.select.clone();
        out.append(" ");
        out.append(self.from.as_str());
        out.append(" ");
        out.append(self.where_clause.as_str());
        out
    }
}

} // verus!
