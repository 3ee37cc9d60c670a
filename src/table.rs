//! A named table: an ordered sequence of columns.

use vstd::prelude::*;

use crate::column::{Column, ColumnView};
use crate::error::{schema_err, SchemaError, SchemaErrorView};
use crate::relationship::Relationship;
use crate::schema::{touching, Schema};
use crate::text::{owned, str_eq};

verus! {

/// Mathematical value of a table.
pub struct TableView {
    pub name: Seq<char>,
    pub columns: Seq<ColumnView>,
}

impl TableView {
    pub open spec fn has_column(self, name: Seq<char>) -> bool {
        exists|j: int| 0 <= j < self.columns.len() && #[trigger] self.columns[j].name == name
    }

    /// Position of a column called `name` (meaningful when `has_column(name)`).
    pub open spec fn column_index(self, name: Seq<char>) -> int {
        choose|j: int| 0 <= j < self.columns.len() && #[trigger] self.columns[j].name == name
    }

    pub open spec fn column(self, name: Seq<char>) -> ColumnView {
        self.columns[self.column_index(name)]
    }

    /// No two columns share a name.
    pub open spec fn names_unique(self) -> bool {
        forall|i: int, j: int|
            0 <= i < self.columns.len() && 0 <= j < self.columns.len()
                && #[trigger] self.columns[i].name == #[trigger] self.columns[j].name ==> i == j
    }
}

/// Where names are unique, the column found at `j` is the one `column_index` picks.
pub proof fn lemma_column_index(t: TableView, j: int)
    requires
        t.names_unique(),
        0 <= j < t.columns.len(),
    ensures
        t.has_column(t.columns[j].name),
        t.column_index(t.columns[j].name) == j,
{
    let k = t.column_index(t.columns[j].name);
    assert(t.columns[k].name == t.columns[j].name);
}

#[derive(Debug)]
pub struct Table {
    name: String,
    columns: Vec<Column>,
}

impl View for Table {
    type V = TableView;

    closed spec fn view(&self) -> TableView {
        TableView { name: self.name@, columns: self.columns@.map_values(|c: Column| c@) }
    }
}

impl Default for Table {
    fn default() -> (r: Self)
        ensures
            r@ == (TableView { name: Seq::empty(), columns: Seq::empty() }),
    {
        let r = Table { name: String::new(), columns: Vec::new() };
        assert(r@.columns =~= Seq::empty());
        r
    }
}

impl Table {
    pub fn new(table_name: &str) -> (r: Self)
        ensures
            r@ == (TableView { name: table_name@, columns: Seq::empty() }),
    {
        let r = Table { name: owned(table_name), columns: Vec::new() };
        assert(r@.columns =~= Seq::empty());
        r
    }

    pub fn get_name(&self) -> (r: &str)
        ensures
            r@ == self@.name,
    {
        self.name.as_str()
    }

    pub fn set_name(&mut self, new_table_name: &str)
        ensures
            final(self)@ == (TableView { name: new_table_name@, ..old(self)@ }),
    {
        self.name = owned(new_table_name);
    }

    pub fn get_columns(&self) -> (r: &[Column])
        ensures
            r@.map_values(|c: Column| c@) == self@.columns,
    {
        self.columns.as_slice()
    }

    /// Position of the first column called `column_name`.
    pub fn find_column(&self, column_name: &str) -> (r: Option<usize>)
        ensures
            match r {
                Some(j) => j < self@.columns.len() && self@.columns[j as int].name == column_name@,
                None => !self@.has_column(column_name@),
            },
    {
        let mut j: usize = 0;
        while j < self.columns.len()
            invariant
                j <= self.columns.len(),
                forall|k: int| 0 <= k < j ==> self@.columns[k].name != column_name@,
            decreases self.columns.len() - j,
        {
            if str_eq(self.columns[j].get_name(), column_name) {
                return Some(j);
            }
            j += 1;
        }
        None
    }

    pub fn get_column(&self, column_name: &str) -> (r: Result<&Column, SchemaError>)
        ensures
            match r {
                Ok(c) => self@.has_column(column_name@) && c@.name == column_name@ && (
                self@.names_unique() ==> c@ == self@.column(column_name@)),
                Err(e) => !self@.has_column(column_name@) && e@ == SchemaErrorView::ColumnNotFound {
                    table: self@.name,
                    column: column_name@,
                },
            },
    {
        match self.find_column(column_name) {
            Some(j) => {
                proof {
                    if self@.names_unique() {
                        lemma_column_index(self@, j as int);
                    }
                }
                Ok(&self.columns[j])
            },
            None => Err(
                SchemaError::ColumnNotFound { table: self.name.clone(), column: owned(column_name) },
            ),
        }
    }

    /// Appends a column; a column of the same name must not exist yet.
    pub fn add_column(&mut self, column: Column) -> (r: Result<&Column, SchemaError>)
        ensures
            old(self)@.has_column(column@.name) ==> final(self)@ == old(self)@ && schema_err(r)
                == Some(
                SchemaErrorView::DuplicateColumn { table: old(self)@.name, column: column@.name },
            ),
            !old(self)@.has_column(column@.name) ==> r is Ok && final(self)@ == (TableView {
                columns: old(self)@.columns.push(column@),
                ..old(self)@
            }),
            r matches Ok(c) ==> c@ == column@,
    {
        match self.find_column(column.get_name()) {
            Some(_) => Err(
                SchemaError::DuplicateColumn {
                    table: self.name.clone(),
                    column: owned(column.get_name()),
                },
            ),
            None => {
                self.columns.push(column);
                assert(self@.columns =~= old(self)@.columns.push(column@));
                let last = self.columns.len() - 1;
                Ok(&self.columns[last])
            },
        }
    }

    /// Replaces the column of the same name as `updated_column`, in place.
    pub fn udpate_column(&mut self, updated_column: Column) -> (r: Result<&Column, SchemaError>)
        ensures
            !old(self)@.has_column(updated_column@.name) ==> final(self)@ == old(self)@
                && schema_err(r) == Some(
                SchemaErrorView::ColumnNotFound {
                    table: old(self)@.name,
                    column: updated_column@.name,
                },
            ),
            old(self)@.has_column(updated_column@.name) ==> r is Ok && exists|j: int|
                0 <= j < old(self)@.columns.len() && old(self)@.columns[j].name
                    == updated_column@.name && final(self)@ == (TableView {
                    columns: old(self)@.columns.update(j, updated_column@),
                    ..old(self)@
                }),
            old(self)@.names_unique() && old(self)@.has_column(updated_column@.name)
                ==> final(self)@.columns == old(self)@.columns.update(
                old(self)@.column_index(updated_column@.name),
                updated_column@,
            ),
            r matches Ok(c) ==> c@ == updated_column@,
    {
        match self.find_column(updated_column.get_name()) {
            Some(j) => {
                proof {
                    if old(self)@.names_unique() {
                        lemma_column_index(old(self)@, j as int);
                    }
                }
                self.columns.set(j, updated_column);
                assert(self@.columns =~= old(self)@.columns.update(j as int, updated_column@));
                Ok(&self.columns[j])
            },
            None => Err(
                SchemaError::ColumnNotFound {
                    table: self.name.clone(),
                    column: owned(updated_column.get_name()),
                },
            ),
        }
    }

    /// The relationships of `schema_editor` that have this table at either end.
    pub fn get_relationships<'a>(&self, schema_editor: &'a Schema) -> (r: Vec<&'a Relationship>)
        requires
            schema_editor@.wf(),
            schema_editor@.has_table(self@.name),
        ensures
            r@.map_values(|x: &Relationship| x@) == schema_editor@.relations.filter(touching(self@.name)),
    {
        match schema_editor.get_relationships_for_table(self.name.as_str()) {
            Ok(v) => v,
            Err(_) => Vec::new(),
        }
    }

    /// Removes and returns the column at position `j`.
    pub(crate) fn remove_column_at(&mut self, j: usize) -> (r: Column)
        requires
            j < old(self)@.columns.len(),
        ensures
            r@ == old(self)@.columns[j as int],
            final(self)@ == (TableView {
                columns: old(self)@.columns.remove(j as int),
                ..old(self)@
            }),
    {
        let r = self.columns.remove(j);
        assert(self@.columns =~= old(self)@.columns.remove(j as int));
        r
    }
}

} // verus!
