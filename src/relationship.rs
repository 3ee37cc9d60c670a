//! A directed reference from a column of one table to a column of another.

use vstd::prelude::*;
use vstd::string::StringExecFns;

use crate::text::owned;

verus! {

/// Cardinality of a relationship.
#[derive(Debug, Clone, Copy, PartialEq, Eq, Structural)]
pub enum RelationshipType {
    OneToOne,
    OneToMany,
    ManyToMany,
}

/// Mathematical value of a relationship: its four endpoint names and its
/// cardinality.
pub struct RelationshipView {
    pub from_table: Seq<char>,
    pub from_column: Seq<char>,
    pub to_table: Seq<char>,
    pub to_column: Seq<char>,
    pub relationship_type: RelationshipType,
}

/// The identity code of a relationship with these endpoints.
pub open spec fn code_of(
    from_table: Seq<char>,
    from_column: Seq<char>,
    to_table: Seq<char>,
    to_column: Seq<char>,
) -> Seq<char> {
    from_table + "_"@ + from_column + "_"@ + to_table + "_"@ + to_column
}

impl RelationshipView {
    pub open spec fn code(self) -> Seq<char> {
        code_of(self.from_table, self.from_column, self.to_table, self.to_column)
    }

    /// Relationships are identified by their endpoints; the cardinality does
    /// not take part.
    pub open spec fn same_endpoints(self, other: RelationshipView) -> bool {
        &&& self.from_table == other.from_table
        &&& self.from_column == other.from_column
        &&& self.to_table == other.to_table
        &&& self.to_column == other.to_column
    }

    /// Both ends name the same column of the same table.
    pub open spec fn is_self_reference(self) -> bool {
        self.from_table == self.to_table && self.from_column == self.to_column
    }
}

#[derive(Debug)]
pub struct Relationship {
    from_table: String,
    from_column: String,
    to_table: String,
    to_column: String,
    relationship_type: RelationshipType,
    code: String,
}

impl View for Relationship {
    type V = RelationshipView;

    closed spec fn view(&self) -> RelationshipView {
        RelationshipView {
            from_table: self.from_table@,
            from_column: self.from_column@,
            to_table: self.to_table@,
            to_column: self.to_column@,
            relationship_type: self.relationship_type,
        }
    }
}

fn make_code(from_table: &str, from_column: &str, to_table: &str, to_column: &str) -> (r: String)
    ensures
        r@ == code_of(from_table@, from_column@, to_table@, to_column@),
{
    let mut s = owned(from_table);
    s.append("_");
    s.append(from_column);
    s.append("_");
    s.append(to_table);
    s.append("_");
    s.append(to_column);
    s
}

impl Clone for Relationship {
    fn clone(&self) -> (r: Self)
        ensures
            r@ == self@,
    {
        Relationship::new(
            self.from_table.as_str(),
            self.from_column.as_str(),
            self.to_table.as_str(),
            self.to_column.as_str(),
            self.relationship_type,
        )
    }
}

impl PartialEq for Relationship {
    fn eq(&self, other: &Relationship) -> (r: bool)
        ensures
            r == self@.same_endpoints(other@),
    {
        self.from_table == other.from_table && self.from_column == other.from_column
            && self.to_table == other.to_table && self.to_column == other.to_column
    }
}

impl vstd::std_specs::cmp::PartialEqSpecImpl for Relationship {
    open spec fn obeys_eq_spec() -> bool {
        true
    }

    open spec fn eq_spec(&self, other: &Relationship) -> bool {
        self@.same_endpoints(other@)
    }
}

impl Relationship {
    #[verifier::type_invariant]
    spec fn code_matches(self) -> bool {
        self.code@ == self@.code()
    }

    pub fn new(
        from_table: &str,
        from_column: &str,
        to_table: &str,
        to_column: &str,
        relationship_type: RelationshipType,
    ) -> (r: Self)
        ensures
            r@ == (RelationshipView {
                from_table: from_table@,
                from_column: from_column@,
                to_table: to_table@,
                to_column: to_column@,
                relationship_type,
            }),
    {
        Relationship {
            from_table: owned(from_table),
            from_column: owned(from_column),
            to_table: owned(to_table),
            to_column: owned(to_column),
            relationship_type,
            code: make_code(from_table, from_column, to_table, to_column),
        }
    }

    pub fn get_from_table(&self) -> (r: &str)
        ensures
            r@ == self@.from_table,
    {
        self.from_table.as_str()
    }

    pub fn get_from_column(&self) -> (r: &str)
        ensures
            r@ == self@.from_column,
    {
        self.from_column.as_str()
    }

    pub fn get_to_table(&self) -> (r: &str)
        ensures
            r@ == self@.to_table,
    {
        self.to_table.as_str()
    }

    pub fn get_to_column(&self) -> (r: &str)
        ensures
            r@ == self@.to_column,
    {
        self.to_column.as_str()
    }

    pub fn get_relationship_type(&self) -> (r: &RelationshipType)
        ensures
            *r == self@.relationship_type,
    {
        &self.relationship_type
    }

    /// The identity code: the four endpoint names joined by `_`.
    pub fn get_code(&self) -> (r: &str)
        ensures
            r@ == self@.code(),
    {
        proof {
            use_type_invariant(self);
        }
        self.code.as_str()
    }

    pub fn set_from_table(&mut self, from_table: &str)
        ensures
            final(self)@ == (RelationshipView { from_table: from_table@, ..old(self)@ }),
    {
        *self = Relationship::new(
            from_table,
            self.from_column.as_str(),
            self.to_table.as_str(),
            self.to_column.as_str(),
            self.relationship_type,
        );
    }

    pub fn set_from_column(&mut self, from_column: &str)
        ensures
            final(self)@ == (RelationshipView { from_column: from_column@, ..old(self)@ }),
    {
        *self = Relationship::new(
            self.from_table.as_str(),
            from_column,
            self.to_table.as_str(),
            self.to_column.as_str(),
            self.relationship_type,
        );
    }

    pub fn set_to_table(&mut self, to_table: &str)
        ensures
            final(self)@ == (RelationshipView { to_table: to_table@, ..old(self)@ }),
    {
        *self = Relationship::new(
            self.from_table.as_str(),
            self.from_column.as_str(),
            to_table,
            self.to_column.as_str(),
            self.relationship_type,
        );
    }

    pub fn set_to_column(&mut self, to_column: &str)
        ensures
            final(self)@ == (RelationshipView { to_column: to_column@, ..old(self)@ }),
    {
        *self = Relationship::new(
            self.from_table.as_str(),
            self.from_column.as_str(),
            self.to_table.as_str(),
            to_column,
            self.relationship_type,
        );
    }

    /// Changes the cardinality; the endpoints, and so the code, stay.
    pub fn set_relationship_type(&mut self, relationship_type: RelationshipType)
        ensures
            final(self)@ == (RelationshipView { relationship_type, ..old(self)@ }),
    {
        proof {
            use_type_invariant(&*self);
        }
        self.relationship_type = relationship_type;
    }
}

} // verus!
