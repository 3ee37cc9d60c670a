//! The aggregate root: tables, and the one authoritative set of relationships
//! between them.

use vstd::prelude::*;

use crate::column::{Column, ColumnView};
use crate::data_type::DataType;
use crate::error::{schema_err, SchemaError, SchemaErrorView};
use crate::relationship::{Relationship, RelationshipView};
use crate::table::{lemma_column_index, Table, TableView};
use crate::text::{owned, str_eq};

verus! {

/// Mathematical value of a schema.
pub struct SchemaView {
    pub tables: Seq<TableView>,
    pub relations: Seq<RelationshipView>,
}

/// The relationship has table `t` as one of its ends.
pub open spec fn touches(r: RelationshipView, t: Seq<char>) -> bool {
    r.from_table == t || r.to_table == t
}

/// The relationship has column `c` of table `t` as one of its ends.
pub open spec fn references(r: RelationshipView, t: Seq<char>, c: Seq<char>) -> bool {
    (r.from_table == t && r.from_column == c) || (r.to_table == t && r.to_column == c)
}

impl SchemaView {
    pub open spec fn empty() -> SchemaView {
        SchemaView { tables: Seq::empty(), relations: Seq::empty() }
    }

    pub open spec fn has_table(self, name: Seq<char>) -> bool {
        exists|i: int| 0 <= i < self.tables.len() && #[trigger] self.tables[i].name == name
    }

    /// Position of a table called `name` (meaningful when `has_table(name)`).
    pub open spec fn table_index(self, name: Seq<char>) -> int {
        choose|i: int| 0 <= i < self.tables.len() && #[trigger] self.tables[i].name == name
    }

    pub open spec fn table(self, name: Seq<char>) -> TableView {
        self.tables[self.table_index(name)]
    }

    /// Column `c` of table `t` exists.
    pub open spec fn resolves(self, t: Seq<char>, c: Seq<char>) -> bool {
        self.has_table(t) && self.table(t).has_column(c)
    }

    pub open spec fn column_type(self, t: Seq<char>, c: Seq<char>) -> DataType {
        self.table(t).column(c).data_type
    }

    /// Both ends of `r` exist and have the same data type.
    pub open spec fn relation_ok(self, r: RelationshipView) -> bool {
        &&& self.resolves(r.from_table, r.from_column)
        &&& self.resolves(r.to_table, r.to_column)
        &&& self.column_type(r.from_table, r.from_column) == self.column_type(
            r.to_table,
            r.to_column,
        )
    }

    pub open spec fn has_code(self, code: Seq<char>) -> bool {
        exists|k: int| 0 <= k < self.relations.len() && #[trigger] self.relations[k].code() == code
    }

    /// Relationship `k` is the first one whose code is `code`.
    pub open spec fn first_with_code(self, code: Seq<char>, k: int) -> bool {
        &&& 0 <= k < self.relations.len()
        &&& self.relations[k].code() == code
        &&& forall|l: int| 0 <= l < k ==> #[trigger] self.relations[l].code() != code
    }

    /// Position of the first relationship whose code is `code` (meaningful
    /// when `has_code(code)`). Different endpoints may share a code, since the
    /// names are joined by `_`.
    pub open spec fn relation_index(self, code: Seq<char>) -> int {
        choose|k: int| self.first_with_code(code, k)
    }

    /// Position of the relationship with the same endpoints as `r` (meaningful
    /// when `has_relation(r)`).
    pub open spec fn endpoint_index(self, r: RelationshipView) -> int {
        choose|k: int| 0 <= k < self.relations.len() && (#[trigger] self.relations[k]).same_endpoints(r)
    }

    pub open spec fn relation(self, code: Seq<char>) -> RelationshipView {
        self.relations[self.relation_index(code)]
    }

    /// Some relationship has column `c` of table `t` as an end.
    pub open spec fn is_referenced(self, t: Seq<char>, c: Seq<char>) -> bool {
        exists|k: int| 0 <= k < self.relations.len() && references(#[trigger] self.relations[k], t, c)
    }

    /// Table names are unique, and column names are unique within each table.
    pub open spec fn names_unique(self) -> bool {
        &&& forall|i: int, j: int|
            0 <= i < self.tables.len() && 0 <= j < self.tables.len() && #[trigger] self.tables[i].name
                == #[trigger] self.tables[j].name ==> i == j
        &&& forall|i: int| 0 <= i < self.tables.len() ==> (#[trigger] self.tables[i]).names_unique()
    }

    /// The schema's invariant: unique names, every relationship resolves to
    /// existing columns of one data type, and no two relationships share
    /// their endpoints.
    pub open spec fn wf(self) -> bool {
        &&& self.names_unique()
        &&& forall|k: int| 0 <= k < self.relations.len() ==> self.relation_ok(#[trigger] self.relations[k])
        &&& forall|k: int, l: int|
            0 <= k < self.relations.len() && 0 <= l < self.relations.len()
                && (#[trigger] self.relations[k]).same_endpoints(#[trigger] self.relations[l]) ==> k == l
    }
}

/// Where names are unique, column `j` of table `i` is what lookups by name find.
pub proof fn lemma_lookup(s: SchemaView, i: int, j: int)
    requires
        s.names_unique(),
        0 <= i < s.tables.len(),
        0 <= j < s.tables[i].columns.len(),
    ensures
        s.has_table(s.tables[i].name),
        s.table_index(s.tables[i].name) == i,
        s.resolves(s.tables[i].name, s.tables[i].columns[j].name),
        s.column_type(s.tables[i].name, s.tables[i].columns[j].name)
            == s.tables[i].columns[j].data_type,
{
    lemma_table_index(s, i);
    assert(s.tables[i].names_unique());
    lemma_column_index(s.tables[i], j);
}

/// Where table names are unique, table `i` is what a lookup by its name finds.
pub proof fn lemma_table_index(s: SchemaView, i: int)
    requires
        s.names_unique(),
        0 <= i < s.tables.len(),
    ensures
        s.has_table(s.tables[i].name),
        s.table_index(s.tables[i].name) == i,
{
    let k = s.table_index(s.tables[i].name);
    assert(s.tables[k].name == s.tables[i].name);
}

/// The positions at which an existing end of a relationship is found.
pub proof fn lemma_locate(s: SchemaView, t: Seq<char>, c: Seq<char>)
    requires
        s.resolves(t, c),
    ensures
        0 <= s.table_index(t) < s.tables.len(),
        s.tables[s.table_index(t)].name == t,
        0 <= s.table(t).column_index(c) < s.table(t).columns.len(),
        s.table(t).columns[s.table(t).column_index(c)].name == c,
        s.column_type(t, c) == s.table(t).columns[s.table(t).column_index(c)].data_type,
{
}

/// Where the relationships are unchanged and lookups by name find the same
/// names and types as before, every relationship still resolves.
proof fn lemma_relations_kept(old_s: SchemaView, new_s: SchemaView)
    requires
        old_s.wf(),
        new_s.names_unique(),
        new_s.relations == old_s.relations,
        forall|t: Seq<char>, c: Seq<char>|
            #![trigger new_s.resolves(t, c)]
            old_s.resolves(t, c) && old_s.is_referenced(t, c) ==> new_s.resolves(t, c)
                && new_s.column_type(t, c) == old_s.column_type(t, c),
    ensures
        new_s.wf(),
{
    assert forall|k: int| 0 <= k < new_s.relations.len() implies new_s.relation_ok(
        #[trigger] new_s.relations[k],
    ) by {
        let r = old_s.relations[k];
        assert(old_s.relation_ok(r));
        assert(references(old_s.relations[k], r.from_table, r.from_column));
        assert(references(old_s.relations[k], r.to_table, r.to_column));
        assert(new_s.resolves(r.from_table, r.from_column));
        assert(new_s.resolves(r.to_table, r.to_column));
    }
}

/// The error `add_column` gives for adding `c` to table `t`, if any.
pub open spec fn add_column_error(s: SchemaView, t: Seq<char>, c: ColumnView) -> Option<SchemaErrorView> {
    if !s.has_table(t) {
        Some(SchemaErrorView::TableNotFound(t))
    } else if s.table(t).has_column(c.name) {
        Some(SchemaErrorView::DuplicateColumn { table: t, column: c.name })
    } else {
        None
    }
}

/// The error `update_column` gives for replacing a column of table `t` by `c`, if any.
pub open spec fn update_column_error(s: SchemaView, t: Seq<char>, c: ColumnView) -> Option<SchemaErrorView> {
    if !s.has_table(t) {
        Some(SchemaErrorView::TableNotFound(t))
    } else if !s.table(t).has_column(c.name) {
        Some(SchemaErrorView::ColumnNotFound { table: t, column: c.name })
    } else if s.is_referenced(t, c.name) && s.column_type(t, c.name) != c.data_type {
        Some(SchemaErrorView::TypeChangeBlocked { table: t, column: c.name })
    } else {
        None
    }
}

/// The error `delete_column` gives for deleting column `c` of table `t`, if any.
pub open spec fn delete_column_error(s: SchemaView, t: Seq<char>, c: Seq<char>) -> Option<SchemaErrorView> {
    if !s.has_table(t) {
        Some(SchemaErrorView::TableNotFound(t))
    } else if !s.table(t).has_column(c) {
        Some(SchemaErrorView::ColumnNotFound { table: t, column: c })
    } else if s.is_referenced(t, c) {
        Some(SchemaErrorView::RelationshipBlocksDelete { table: t, column: c })
    } else {
        None
    }
}

impl SchemaView {
    /// This schema with table `t` holding `columns` instead of its own.
    pub open spec fn with_columns(self, t: Seq<char>, columns: Seq<ColumnView>) -> SchemaView {
        SchemaView {
            tables: self.tables.update(self.table_index(t), TableView { columns, ..self.table(t) }),
            ..self
        }
    }
}

/// The error `add_relation` gives for adding `r`, if any: the checks run in
/// this order.
pub open spec fn add_relation_error(s: SchemaView, r: RelationshipView) -> Option<SchemaErrorView> {
    if !s.has_table(r.from_table) {
        Some(SchemaErrorView::MissingEndpointTable(r.from_table))
    } else if !s.has_table(r.to_table) {
        Some(SchemaErrorView::MissingEndpointTable(r.to_table))
    } else if !s.table(r.from_table).has_column(r.from_column) {
        Some(SchemaErrorView::MissingEndpointColumn { table: r.from_table, column: r.from_column })
    } else if !s.table(r.to_table).has_column(r.to_column) {
        Some(SchemaErrorView::MissingEndpointColumn { table: r.to_table, column: r.to_column })
    } else if s.column_type(r.from_table, r.from_column) != s.column_type(r.to_table, r.to_column) {
        Some(SchemaErrorView::TypeMismatch(r.code()))
    } else if s.has_relation(r) {
        Some(SchemaErrorView::DuplicateRelationship(r.code()))
    } else {
        None
    }
}

/// The error `update_relation` gives for updating to `r`, if any.
pub open spec fn update_relation_error(s: SchemaView, r: RelationshipView) -> Option<SchemaErrorView> {
    if !s.has_relation(r) {
        Some(SchemaErrorView::RelationshipNotFound(r.code()))
    } else if r.is_self_reference() {
        Some(SchemaErrorView::SelfReferenceInvalid(r.code()))
    } else {
        None
    }
}

/// Keeps the relationships that do not touch table `t`.
pub open spec fn not_touching(t: Seq<char>) -> spec_fn(RelationshipView) -> bool {
    |r: RelationshipView| !touches(r, t)
}

/// Keeps the relationships that touch table `t`.
pub open spec fn touching(t: Seq<char>) -> spec_fn(RelationshipView) -> bool {
    |r: RelationshipView| touches(r, t)
}

/// Keeps the tables at either end of `r`.
pub open spec fn end_of(r: RelationshipView) -> spec_fn(TableView) -> bool {
    |t: TableView| t.name == r.from_table || t.name == r.to_table
}

impl SchemaView {
    /// Some relationship has the same endpoints as `r`.
    pub open spec fn has_relation(self, r: RelationshipView) -> bool {
        exists|k: int| 0 <= k < self.relations.len() && (#[trigger] self.relations[k]).same_endpoints(r)
    }
}

/// The first relationship with a code is what a lookup by that code finds.
pub proof fn lemma_relation_index(s: SchemaView, code: Seq<char>, k: int)
    requires
        s.first_with_code(code, k),
    ensures
        s.has_code(code),
        s.relation_index(code) == k,
{
    let m = s.relation_index(code);
    assert(s.first_with_code(code, m));
    if m < k {
        assert(s.relations[m].code() != code);
    } else if k < m {
        assert(s.relations[k].code() != code);
    }
}

/// Where some relationship has a code, a first one has it.
pub proof fn lemma_first_with_code(s: SchemaView, code: Seq<char>, k: int)
    requires
        0 <= k < s.relations.len(),
        s.relations[k].code() == code,
    ensures
        s.first_with_code(code, s.relation_index(code)),
        s.relation_index(code) <= k,
    decreases k,
{
    if exists|l: int| 0 <= l < k && #[trigger] s.relations[l].code() == code {
        let l = choose|l: int| 0 <= l < k && #[trigger] s.relations[l].code() == code;
        lemma_first_with_code(s, code, l);
    } else {
        assert(s.first_with_code(code, k));
        lemma_relation_index(s, code, k);
    }
}

/// Where endpoints are unique, relationship `k` is what a lookup by its
/// endpoints finds.
pub proof fn lemma_endpoint_index(s: SchemaView, r: RelationshipView, k: int)
    requires
        s.wf(),
        0 <= k < s.relations.len(),
        s.relations[k].same_endpoints(r),
    ensures
        s.has_relation(r),
        s.endpoint_index(r) == k,
{
    let l = s.endpoint_index(r);
    assert(s.relations[l].same_endpoints(s.relations[k]));
}

/// Dropping relationships keeps the invariant, given a strictly increasing map
/// from the kept ones to their old positions.
proof fn lemma_sub_relations(o: SchemaView, n: SchemaView, idx: Seq<int>)
    requires
        o.wf(),
        n.tables == o.tables,
        idx.len() == n.relations.len(),
        forall|p: int|
            0 <= p < idx.len() ==> 0 <= #[trigger] idx[p] < o.relations.len() && n.relations[p]
                == o.relations[idx[p]],
        forall|p: int, q: int| 0 <= p < q < idx.len() ==> #[trigger] idx[p] < #[trigger] idx[q],
    ensures
        n.wf(),
{
    assert forall|p: int| 0 <= p < n.relations.len() implies n.relation_ok(
        #[trigger] n.relations[p],
    ) by {
        assert(o.relation_ok(o.relations[idx[p]]));
    }
    assert forall|p: int, q: int|
        0 <= p < n.relations.len() && 0 <= q < n.relations.len() && (
        #[trigger] n.relations[p]).same_endpoints(#[trigger] n.relations[q]) implies p == q by {
        assert(o.relations[idx[p]].same_endpoints(o.relations[idx[q]]));
        if p < q {
            assert(idx[p] < idx[q]);
        } else if q < p {
            assert(idx[q] < idx[p]);
        }
    }
}

/// Adding a relationship one of whose end tables does not exist fails with
/// MissingEndpointTable naming the first missing one; `add_relation` then
/// leaves the schema unchanged.
pub proof fn law_missing_end_table_rejected(s: SchemaView, r: RelationshipView)
    requires
        !s.has_table(r.from_table) || !s.has_table(r.to_table),
    ensures
        add_relation_error(s, r) == Some(
            SchemaErrorView::MissingEndpointTable(
                if !s.has_table(r.from_table) {
                    r.from_table
                } else {
                    r.to_table
                },
            ),
        ),
{
}

/// Endpoint types are checked when a relationship is added: where both ends
/// exist but their data types differ, adding fails with TypeMismatch.
pub proof fn law_type_mismatch_rejected_on_add(s: SchemaView, r: RelationshipView)
    requires
        s.resolves(r.from_table, r.from_column),
        s.resolves(r.to_table, r.to_column),
        s.column_type(r.from_table, r.from_column) != s.column_type(r.to_table, r.to_column),
    ensures
        add_relation_error(s, r) == Some(SchemaErrorView::TypeMismatch(r.code())),
{
}

/// A column that a relationship references can't be deleted; once that
/// relationship, the only one referencing it, is deleted, the column can.
pub proof fn law_delete_column_after_relation(
    s: SchemaView,
    code: Seq<char>,
    t: Seq<char>,
    c: Seq<char>,
)
    requires
        s.wf(),
        s.resolves(t, c),
        s.has_code(code),
        references(s.relation(code), t, c),
        forall|k: int|
            0 <= k < s.relations.len() && k != s.relation_index(code) ==> !references(
                #[trigger] s.relations[k],
                t,
                c,
            ),
    ensures
        delete_column_error(s, t, c) == Some(
            SchemaErrorView::RelationshipBlocksDelete { table: t, column: c },
        ),
        delete_column_error(
            SchemaView { relations: s.relations.remove(s.relation_index(code)), ..s },
            t,
            c,
        ) is None,
{
    let k0 = choose|k: int| 0 <= k < s.relations.len() && #[trigger] s.relations[k].code() == code;
    lemma_first_with_code(s, code, k0);
    let k = s.relation_index(code);
    assert(references(s.relations[k], t, c));
    let n = SchemaView { relations: s.relations.remove(k), ..s };
    assert forall|p: int| 0 <= p < n.relations.len() implies !references(
        #[trigger] n.relations[p],
        t,
        c,
    ) by {
        let p0 = if p < k { p } else { p + 1 };
        assert(n.relations[p] == s.relations[p0]);
    }
    assert(!n.is_referenced(t, c));
    assert(n.tables == s.tables);
    assert(n.has_table(t));
    assert(n.table_index(t) == s.table_index(t));
    assert(n.resolves(t, c));
}

/// Removing a table takes with it every relationship that has the table at
/// either end, and the table is gone.
pub proof fn law_remove_table_cascades(s: SchemaView, t: Seq<char>)
    requires
        s.wf(),
        s.has_table(t),
    ensures
        ({
            let n = SchemaView {
                tables: s.tables.remove(s.table_index(t)),
                relations: s.relations.filter(not_touching(t)),
            };
            &&& !n.has_table(t)
            &&& forall|k: int| 0 <= k < n.relations.len() ==> !touches(#[trigger] n.relations[k], t)
        }),
{
    let i = s.table_index(t);
    let n = SchemaView { tables: s.tables.remove(i), relations: s.relations.filter(not_touching(t)) };
    assert forall|a: int| 0 <= a < n.tables.len() implies #[trigger] n.tables[a].name != t by {
        let a0 = if a < i { a } else { a + 1 };
        assert(n.tables[a] == s.tables[a0]);
        if s.tables[a0].name == t {
            assert(s.tables[a0].name == s.tables[i].name);
        }
    }
    assert forall|k: int| 0 <= k < n.relations.len() implies !touches(#[trigger] n.relations[k], t) by {
        s.relations.lemma_filter_pred(not_touching(t), k);
    }
}

/// Updating a relationship keeps its code, since the code comes from the
/// endpoints alone; where no relationship with other endpoints shares that
/// code, a lookup by it then finds the updated value.
pub proof fn law_update_keeps_code(s: SchemaView, r: RelationshipView)
    requires
        s.wf(),
        update_relation_error(s, r) is None,
        forall|k: int|
            0 <= k < s.relations.len() && !(#[trigger] s.relations[k]).same_endpoints(r)
                ==> s.relations[k].code() != r.code(),
    ensures
        s.relations[s.endpoint_index(r)].code() == r.code(),
        ({
            let n = SchemaView {
                relations: s.relations.remove(s.endpoint_index(r)).push(r),
                ..s
            };
            n.has_code(r.code()) && n.relation(r.code()) == r
        }),
{
    let k = s.endpoint_index(r);
    assert(s.relations[k].same_endpoints(r));
    let rest = s.relations.remove(k);
    let n = SchemaView { relations: rest.push(r), ..s };
    let last = rest.len() as int;
    assert(n.relations[last] == r);
    assert forall|l: int| 0 <= l < last implies #[trigger] n.relations[l].code() != r.code() by {
        let l0 = if l < k { l } else { l + 1 };
        assert(n.relations[l] == s.relations[l0]);
        if s.relations[l0].same_endpoints(r) {
            assert(s.relations[l0].same_endpoints(s.relations[k]));
        }
    }
    assert(n.first_with_code(r.code(), last));
    lemma_relation_index(n, r.code(), last);
}

pub struct Schema {
    tables: Vec<Table>,
    relations: Vec<Relationship>,
}

impl View for Schema {
    type V = SchemaView;

    closed spec fn view(&self) -> SchemaView {
        SchemaView {
            tables: self.tables@.map_values(|t: Table| t@),
            relations: self.relations@.map_values(|r: Relationship| r@),
        }
    }
}

impl Default for Schema {
    fn default() -> (r: Self)
        ensures
            r@ == SchemaView::empty(),
            r@.wf(),
    {
        Self::new()
    }
}

impl Schema {
    /// An empty schema.
    pub fn new() -> (r: Self)
        ensures
            r@ == SchemaView::empty(),
            r@.wf(),
    {
        let r = Schema { tables: Vec::new(), relations: Vec::new() };
        assert(r@.tables =~= Seq::empty());
        assert(r@.relations =~= Seq::empty());
        r
    }

    pub fn get_tables(&self) -> (r: &[Table])
        ensures
            r@.map_values(|t: Table| t@) == self@.tables,
    {
        self.tables.as_slice()
    }

    pub fn get_relationships(&self) -> (r: &[Relationship])
        ensures
            r@.map_values(|r: Relationship| r@) == self@.relations,
    {
        self.relations.as_slice()
    }

    /// Position of the first table called `table_name`.
    fn find_table(&self, table_name: &str) -> (r: Option<usize>)
        ensures
            match r {
                Some(i) => i < self@.tables.len() && self@.tables[i as int].name == table_name@,
                None => !self@.has_table(table_name@),
            },
    {
        let mut i: usize = 0;
        while i < self.tables.len()
            invariant
                i <= self.tables.len(),
                forall|k: int| 0 <= k < i ==> self@.tables[k].name != table_name@,
            decreases self.tables.len() - i,
        {
            if str_eq(self.tables[i].get_name(), table_name) {
                return Some(i);
            }
            i += 1;
        }
        None
    }

    /// Position of the relationship whose code is `code`.
    fn find_relation(&self, code: &str) -> (r: Option<usize>)
        ensures
            match r {
                Some(k) => self@.first_with_code(code@, k as int),
                None => !self@.has_code(code@),
            },
    {
        let mut k: usize = 0;
        while k < self.relations.len()
            invariant
                k <= self.relations.len(),
                forall|l: int| 0 <= l < k ==> self@.relations[l].code() != code@,
            decreases self.relations.len() - k,
        {
            if str_eq(self.relations[k].get_code(), code) {
                return Some(k);
            }
            k += 1;
        }
        None
    }

    /// Position of the relationship with the same endpoints as `rel`.
    fn find_same_endpoints(&self, rel: &Relationship) -> (r: Option<usize>)
        ensures
            match r {
                Some(k) => k < self@.relations.len() && self@.relations[k as int].same_endpoints(rel@),
                None => !self@.has_relation(rel@),
            },
    {
        let mut k: usize = 0;
        while k < self.relations.len()
            invariant
                k <= self.relations.len(),
                forall|l: int| 0 <= l < k ==> !self@.relations[l].same_endpoints(rel@),
            decreases self.relations.len() - k,
        {
            if self.relations[k] == *rel {
                return Some(k);
            }
            k += 1;
        }
        None
    }

    /// The table called `table_name`.
    pub fn get_table(&self, table_name: &str) -> (r: Result<&Table, SchemaError>)
        requires
            self@.wf(),
        ensures
            self@.has_table(table_name@) ==> r is Ok,
            r matches Ok(t) ==> t@ == self@.table(table_name@),
            !self@.has_table(table_name@) ==> schema_err(r) == Some(
                SchemaErrorView::TableNotFound(table_name@),
            ),
    {
        match self.find_table(table_name) {
            Some(i) => {
                proof {
                    lemma_table_index(self@, i as int);
                }
                Ok(&self.tables[i])
            },
            None => Err(SchemaError::TableNotFound(owned(table_name))),
        }
    }

    /// Creates an empty table called `table_name`; the name must be new.
    pub fn add_table(&mut self, table_name: &str) -> (r: Result<&Table, SchemaError>)
        requires
            old(self)@.wf(),
        ensures
            final(self)@.wf(),
            old(self)@.has_table(table_name@) ==> final(self)@ == old(self)@ && schema_err(r)
                == Some(SchemaErrorView::DuplicateTable(table_name@)),
            !old(self)@.has_table(table_name@) ==> final(self)@ == (SchemaView {
                tables: old(self)@.tables.push(TableView { name: table_name@, columns: Seq::empty() }),
                ..old(self)@
            }),
            r matches Ok(t) ==> t@ == (TableView { name: table_name@, columns: Seq::empty() }),
            !old(self)@.has_table(table_name@) ==> r is Ok,
    {
        match self.find_table(table_name) {
            Some(_) => Err(SchemaError::DuplicateTable(owned(table_name))),
            None => {
                self.tables.push(Table::new(table_name));
                let ghost new_t = TableView { name: table_name@, columns: Seq::empty() };
                assert(self@.tables =~= old(self)@.tables.push(new_t));
                assert(self@.relations == old(self)@.relations);
                proof {
                    let o = old(self)@;
                    let n = self@;
                    assert(n.names_unique()) by {
                        assert forall|i: int, j: int|
                            0 <= i < n.tables.len() && 0 <= j < n.tables.len()
                                && #[trigger] n.tables[i].name == #[trigger] n.tables[j].name implies i
                            == j by {
                            if i < o.tables.len() && j < o.tables.len() {
                                assert(o.tables[i].name == o.tables[j].name);
                            } else if i < o.tables.len() {
                                assert(o.tables[i].name == table_name@);
                            } else if j < o.tables.len() {
                                assert(o.tables[j].name == table_name@);
                            }
                        }
                        assert forall|i: int| 0 <= i < n.tables.len() implies (
                        #[trigger] n.tables[i]).names_unique() by {
                            if i < o.tables.len() {
                                assert(o.tables[i].names_unique());
                            }
                        }
                    }
                    assert forall|t: Seq<char>, c: Seq<char>|
                        o.resolves(t, c) && o.is_referenced(t, c) implies #[trigger] n.resolves(t, c)
                        && n.column_type(t, c) == o.column_type(t, c) by {
                        lemma_locate(o, t, c);
                        let i = o.table_index(t);
                        let j = o.table(t).column_index(c);
                        assert(n.tables[i] == o.tables[i]);
                        lemma_lookup(n, i, j);
                    }
                    lemma_relations_kept(o, n);
                }
                let last = self.tables.len() - 1;
                Ok(&self.tables[last])
            },
        }
    }
    /// Whether some relationship has column `column_name` of `table_name` as an end.
    fn is_referenced(&self, table_name: &str, column_name: &str) -> (r: bool)
        ensures
            r == self@.is_referenced(table_name@, column_name@),
    {
        let mut k: usize = 0;
        while k < self.relations.len()
            invariant
                k <= self.relations.len(),
                forall|l: int| 0 <= l < k ==> !references(self@.relations[l], table_name@, column_name@),
            decreases self.relations.len() - k,
        {
            let r = &self.relations[k];
            if (str_eq(r.get_from_table(), table_name) && str_eq(r.get_from_column(), column_name))
                || (str_eq(r.get_to_table(), table_name) && str_eq(r.get_to_column(), column_name)) {
                assert(references(self@.relations[k as int], table_name@, column_name@));
                return true;
            }
            k += 1;
        }
        false
    }

    /// Adds `column` to the table called `table_name`; the column's name must be
    /// new in that table.
    pub fn add_column(&mut self, table_name: &str, column: Column) -> (r: Result<(), SchemaError>)
        requires
            old(self)@.wf(),
        ensures
            final(self)@.wf(),
            schema_err(r) == add_column_error(old(self)@, table_name@, column@),
            r is Err ==> final(self)@ == old(self)@,
            r is Ok ==> final(self)@ == old(self)@.with_columns(
                table_name@,
                old(self)@.table(table_name@).columns.push(column@),
            ),
    {
        let i = match self.find_table(table_name) {
            Some(i) => i,
            None => return Err(SchemaError::TableNotFound(owned(table_name))),
        };
        proof {
            lemma_table_index(self@, i as int);
        }
        if self.tables[i].find_column(column.get_name()).is_some() {
            return Err(
                SchemaError::DuplicateColumn {
                    table: owned(table_name),
                    column: owned(column.get_name()),
                },
            );
        }
        let ghost cv = column@;
        let mut table = self.tables.remove(i);
        let _ = table.add_column(column);
        self.tables.insert(i, table);
        assert(self@.tables =~= old(self)@.tables.update(i as int, table@));
        assert(self@.relations == old(self)@.relations);
        proof {
            let o = old(self)@;
            let n = self@;
            assert(n.tables[i as int].names_unique()) by {
                assert(o.tables[i as int].names_unique());
                let cols = n.tables[i as int].columns;
                assert forall|a: int, b: int|
                    0 <= a < cols.len() && 0 <= b < cols.len() && #[trigger] cols[a].name
                        == #[trigger] cols[b].name implies a == b by {
                    let oc = o.tables[i as int].columns;
                    if a < oc.len() && b < oc.len() {
                        assert(oc[a].name == oc[b].name);
                    } else if a < oc.len() {
                        assert(oc[a].name == cv.name);
                    } else if b < oc.len() {
                        assert(oc[b].name == cv.name);
                    }
                }
            }
            assert(n.names_unique()) by {
                assert forall|a: int, b: int|
                    0 <= a < n.tables.len() && 0 <= b < n.tables.len() && #[trigger] n.tables[a].name
                        == #[trigger] n.tables[b].name implies a == b by {
                    assert(o.tables[a].name == o.tables[b].name);
                }
                assert forall|a: int| 0 <= a < n.tables.len() implies (
                #[trigger] n.tables[a]).names_unique() by {
                    if a != i {
                        assert(o.tables[a].names_unique());
                    }
                }
            }
            assert forall|t: Seq<char>, c: Seq<char>|
                o.resolves(t, c) && o.is_referenced(t, c) implies #[trigger] n.resolves(t, c)
                && n.column_type(t, c) == o.column_type(t, c) by {
                lemma_locate(o, t, c);
                let a = o.table_index(t);
                let b = o.table(t).column_index(c);
                assert(n.tables[a].name == o.tables[a].name);
                assert(n.tables[a].columns[b] == o.tables[a].columns[b]);
                lemma_lookup(n, a, b);
            }
            lemma_relations_kept(o, n);
            assert(n =~= o.with_columns(table_name@, o.table(table_name@).columns.push(cv)));
        }
        Ok(())
    }

    /// Replaces, in place, the column of table `table_name` that has the name of
    /// `column`. A column that a relationship references keeps its data type.
    pub fn update_column(&mut self, table_name: &str, column: Column) -> (r: Result<(), SchemaError>)
        requires
            old(self)@.wf(),
        ensures
            final(self)@.wf(),
            schema_err(r) == update_column_error(old(self)@, table_name@, column@),
            r is Err ==> final(self)@ == old(self)@,
            r is Ok ==> final(self)@ == old(self)@.with_columns(
                table_name@,
                old(self)@.table(table_name@).columns.update(
                    old(self)@.table(table_name@).column_index(column@.name),
                    column@,
                ),
            ),
    {
        let i = match self.find_table(table_name) {
            Some(i) => i,
            None => return Err(SchemaError::TableNotFound(owned(table_name))),
        };
        proof {
            lemma_table_index(self@, i as int);
        }
        let j = match self.tables[i].find_column(column.get_name()) {
            Some(j) => j,
            None => {
                return Err(
                    SchemaError::ColumnNotFound {
                        table: owned(table_name),
                        column: owned(column.get_name()),
                    },
                )
            },
        };
        proof {
            lemma_lookup(self@, i as int, j as int);
        }
        let old_type = self.tables[i].get_columns()[j].get_data_type();
        if old_type != column.get_data_type() && self.is_referenced(table_name, column.get_name()) {
            return Err(
                SchemaError::TypeChangeBlocked {
                    table: owned(table_name),
                    column: owned(column.get_name()),
                },
            );
        }
        let ghost cv = column@;
        let mut table = self.tables.remove(i);
        let _ = table.udpate_column(column);
        self.tables.insert(i, table);
        assert(self@.tables =~= old(self)@.tables.update(i as int, table@));
        assert(self@.relations == old(self)@.relations);
        proof {
            let o = old(self)@;
            let n = self@;
            let oc = o.tables[i as int].columns;
            assert(o.tables[i as int].names_unique());
            assert(n.tables[i as int].columns == oc.update(j as int, cv));
            assert(n.tables[i as int].names_unique()) by {
                let cols = n.tables[i as int].columns;
                assert forall|a: int, b: int|
                    0 <= a < cols.len() && 0 <= b < cols.len() && #[trigger] cols[a].name
                        == #[trigger] cols[b].name implies a == b by {
                    assert(oc[a].name == oc[b].name);
                }
            }
            assert(n.names_unique()) by {
                assert forall|a: int, b: int|
                    0 <= a < n.tables.len() && 0 <= b < n.tables.len() && #[trigger] n.tables[a].name
                        == #[trigger] n.tables[b].name implies a == b by {
                    assert(o.tables[a].name == o.tables[b].name);
                }
                assert forall|a: int| 0 <= a < n.tables.len() implies (
                #[trigger] n.tables[a]).names_unique() by {
                    if a != i {
                        assert(o.tables[a].names_unique());
                    }
                }
            }
            assert forall|t: Seq<char>, c: Seq<char>|
                o.resolves(t, c) && o.is_referenced(t, c) implies #[trigger] n.resolves(t, c)
                && n.column_type(t, c) == o.column_type(t, c) by {
                lemma_locate(o, t, c);
                let a = o.table_index(t);
                let b = o.table(t).column_index(c);
                lemma_lookup(n, a, b);
                if a == i && b == j {
                    assert(c == cv.name);
                }
            }
            lemma_relations_kept(o, n);
            assert(n =~= o.with_columns(table_name@, oc.update(j as int, cv)));
        }
        Ok(())
    }

    /// Deletes column `column_name` of table `table_name` and returns it. A
    /// column that a relationship references can't be deleted.
    #[verifier::spinoff_prover]
    pub fn delete_column(&mut self, table_name: &str, column_name: &str) -> (r: Result<Column, SchemaError>)
        requires
            old(self)@.wf(),
        ensures
            final(self)@.wf(),
            schema_err(r) == delete_column_error(old(self)@, table_name@, column_name@),
            r is Err ==> final(self)@ == old(self)@,
            r matches Ok(c) ==> c@ == old(self)@.table(table_name@).column(column_name@)
                && final(self)@ == old(self)@.with_columns(
                table_name@,
                old(self)@.table(table_name@).columns.remove(
                    old(self)@.table(table_name@).column_index(column_name@),
                ),
            ),
    {
        let i = match self.find_table(table_name) {
            Some(i) => i,
            None => return Err(SchemaError::TableNotFound(owned(table_name))),
        };
        proof {
            lemma_table_index(self@, i as int);
        }
        let j = match self.tables[i].find_column(column_name) {
            Some(j) => j,
            None => {
                return Err(
                    SchemaError::ColumnNotFound {
                        table: owned(table_name),
                        column: owned(column_name),
                    },
                )
            },
        };
        proof {
            lemma_lookup(self@, i as int, j as int);
        }
        if self.is_referenced(table_name, column_name) {
            return Err(
                SchemaError::RelationshipBlocksDelete {
                    table: owned(table_name),
                    column: owned(column_name),
                },
            );
        }
        let mut table = self.tables.remove(i);
        let removed = table.remove_column_at(j);
        self.tables.insert(i, table);
        assert(self@.tables =~= old(self)@.tables.update(i as int, table@));
        assert(self@.relations == old(self)@.relations);
        proof {
            let o = old(self)@;
            let n = self@;
            let oc = o.tables[i as int].columns;
            assert(o.tables[i as int].names_unique());
            assert(n.tables[i as int].columns == oc.remove(j as int));
            assert(n.tables[i as int].names_unique()) by {
                let cols = n.tables[i as int].columns;
                assert forall|a: int, b: int|
                    0 <= a < cols.len() && 0 <= b < cols.len() && #[trigger] cols[a].name
                        == #[trigger] cols[b].name implies a == b by {
                    let a0 = if a < j { a } else { a + 1 };
                    let b0 = if b < j { b } else { b + 1 };
                    assert(oc[a0].name == oc[b0].name);
                }
            }
            assert(n.names_unique()) by {
                assert forall|a: int, b: int|
                    0 <= a < n.tables.len() && 0 <= b < n.tables.len() && #[trigger] n.tables[a].name
                        == #[trigger] n.tables[b].name implies a == b by {
                    assert(o.tables[a].name == o.tables[b].name);
                }
                assert forall|a: int| 0 <= a < n.tables.len() implies (
                #[trigger] n.tables[a]).names_unique() by {
                    if a != i {
                        assert(o.tables[a].names_unique());
                    }
                }
            }
            assert forall|t: Seq<char>, c: Seq<char>|
                o.resolves(t, c) && o.is_referenced(t, c) implies #[trigger] n.resolves(t, c)
                && n.column_type(t, c) == o.column_type(t, c) by {
                lemma_locate(o, t, c);
                let a = o.table_index(t);
                let b = o.table(t).column_index(c);
                if a == i {
                    assert(t == table_name@);
                    assert(oc[j as int].name == column_name@);
                    if b == j {
                        assert(c == column_name@);
                        assert(o.is_referenced(table_name@, column_name@));
                    }
                    let b2 = if b < j { b } else { b - 1 };
                    assert(n.tables[a].columns[b2] == oc[b]);
                    lemma_lookup(n, a, b2);
                } else {
                    assert(n.tables[a] == o.tables[a]);
                    lemma_lookup(n, a, b);
                }
            }
            lemma_relations_kept(o, n);
            assert(n =~= o.with_columns(table_name@, oc.remove(j as int)));
        }
        Ok(removed)
    }
    /// The first relationship whose code is `relation_code`.
    pub fn get_relationship_with_code(&self, relation_code: &str) -> (r: Result<&Relationship, SchemaError>)
        requires
            self@.wf(),
        ensures
            self@.has_code(relation_code@) ==> r is Ok,
            r matches Ok(rel) ==> rel@ == self@.relation(relation_code@),
            !self@.has_code(relation_code@) ==> schema_err(r) == Some(
                SchemaErrorView::RelationshipNotFound(relation_code@),
            ),
    {
        match self.find_relation(relation_code) {
            Some(k) => {
                proof {
                    lemma_relation_index(self@, relation_code@, k as int);
                }
                Ok(&self.relations[k])
            },
            None => Err(SchemaError::RelationshipNotFound(owned(relation_code))),
        }
    }

    /// The relationships with table `table_name` at either end, in order.
    pub fn get_relationships_for_table(&self, table_name: &str) -> (r: Result<Vec<&Relationship>, SchemaError>)
        requires
            self@.wf(),
        ensures
            self@.has_table(table_name@) ==> r is Ok,
            r matches Ok(v) ==> v@.map_values(|x: &Relationship| x@) == self@.relations.filter(
                touching(table_name@),
            ),
            !self@.has_table(table_name@) ==> schema_err(r) == Some(
                SchemaErrorView::TableNotFound(table_name@),
            ),
    {
        if self.find_table(table_name).is_none() {
            return Err(SchemaError::TableNotFound(owned(table_name)));
        }
        let ghost all = self@.relations;
        let mut found: Vec<&Relationship> = Vec::new();
        let mut k: usize = 0;
        while k < self.relations.len()
            invariant
                k <= self.relations.len(),
                all == self@.relations,
                found@.map_values(|x: &Relationship| x@) == all.subrange(0, k as int).filter(
                    touching(table_name@),
                ),
            decreases self.relations.len() - k,
        {
            let rel = &self.relations[k];
            proof {
                reveal(Seq::filter);
            }
            assert(all.subrange(0, k + 1).drop_last() =~= all.subrange(0, k as int));
            if str_eq(rel.get_from_table(), table_name) || str_eq(rel.get_to_table(), table_name) {
                found.push(rel);
            }
            assert(found@.map_values(|x: &Relationship| x@) =~= all.subrange(0, k + 1).filter(
                touching(table_name@),
            ));
            k += 1;
        }
        assert(all.subrange(0, k as int) =~= all);
        Ok(found)
    }

    /// The tables at the ends of the relationship whose code is `relation_code`,
    /// in table order.
    pub fn get_tables_for_relationships(&self, relation_code: &str) -> (r: Result<Vec<&Table>, SchemaError>)
        requires
            self@.wf(),
        ensures
            self@.has_code(relation_code@) ==> r is Ok,
            r matches Ok(v) ==> v@.map_values(|t: &Table| t@) == self@.tables.filter(
                end_of(self@.relation(relation_code@)),
            ),
            !self@.has_code(relation_code@) ==> schema_err(r) == Some(
                SchemaErrorView::RelationshipNotFound(relation_code@),
            ),
    {
        let rel = match self.get_relationship_with_code(relation_code) {
            Ok(rel) => rel,
            Err(e) => return Err(e),
        };
        let ghost all = self@.tables;
        let mut found: Vec<&Table> = Vec::new();
        let mut i: usize = 0;
        while i < self.tables.len()
            invariant
                i <= self.tables.len(),
                all == self@.tables,
                rel@ == self@.relation(relation_code@),
                found@.map_values(|t: &Table| t@) == all.subrange(0, i as int).filter(end_of(rel@)),
            decreases self.tables.len() - i,
        {
            let t = &self.tables[i];
            proof {
                reveal(Seq::filter);
            }
            assert(all.subrange(0, i + 1).drop_last() =~= all.subrange(0, i as int));
            if str_eq(t.get_name(), rel.get_from_table()) || str_eq(t.get_name(), rel.get_to_table()) {
                found.push(t);
            }
            assert(found@.map_values(|t: &Table| t@) =~= all.subrange(0, i + 1).filter(end_of(rel@)));
            i += 1;
        }
        assert(all.subrange(0, i as int) =~= all);
        Ok(found)
    }

    /// Removes the table called `table_name` and returns it. Every relationship
    /// with that table at either end is removed with it.
    pub fn remove_table(&mut self, table_name: &str) -> (r: Result<Table, SchemaError>)
        requires
            old(self)@.wf(),
        ensures
            final(self)@.wf(),
            old(self)@.has_table(table_name@) ==> r is Ok,
            !old(self)@.has_table(table_name@) ==> final(self)@ == old(self)@ && schema_err(r)
                == Some(SchemaErrorView::TableNotFound(table_name@)),
            r matches Ok(t) ==> t@ == old(self)@.table(table_name@) && final(self)@ == (SchemaView {
                tables: old(self)@.tables.remove(old(self)@.table_index(table_name@)),
                relations: old(self)@.relations.filter(not_touching(table_name@)),
            }),
    {
        let i = match self.find_table(table_name) {
            Some(i) => i,
            None => return Err(SchemaError::TableNotFound(owned(table_name))),
        };
        proof {
            lemma_table_index(self@, i as int);
        }
        let ghost o = self@;
        let mut kept: Vec<Relationship> = Vec::new();
        let ghost mut idx: Seq<int> = Seq::empty();
        let mut k: usize = 0;
        while k < self.relations.len()
            invariant
                k <= self.relations.len(),
                self@ == o,
                kept@.map_values(|x: Relationship| x@) == o.relations.subrange(0, k as int).filter(not_touching(table_name@)),
                idx.len() == kept@.len(),
                forall|p: int| 0 <= p < idx.len() ==> 0 <= #[trigger] idx[p] < k && kept@[p]@
                    == o.relations[idx[p]],
                forall|p: int, q: int| 0 <= p < q < idx.len() ==> #[trigger] idx[p] < #[trigger] idx[q],
            decreases self.relations.len() - k,
        {
            let rel = &self.relations[k];
            proof {
                reveal(Seq::filter);
            }
            assert(o.relations.subrange(0, k + 1).drop_last() =~= o.relations.subrange(0, k as int));
            assert(self@.relations[k as int] == rel@);
            assert(not_touching(table_name@)(o.relations[k as int]) == !touches(rel@, table_name@));
            assert(o.relations.subrange(0, k + 1).last() == o.relations[k as int]);
            if !(str_eq(rel.get_from_table(), table_name) || str_eq(rel.get_to_table(), table_name)) {
                let copy = rel.clone();
                assert(copy@ == rel@);
                kept.push(copy);
                proof {
                    idx = idx.push(k as int);
                }
            }
            assert(kept@.map_values(|x: Relationship| x@) =~= o.relations.subrange(0, k + 1).filter(not_touching(table_name@)));
            k += 1;
        }
        assert(o.relations.subrange(0, k as int) =~= o.relations);
        let removed = self.tables.remove(i);
        self.relations = kept;
        assert(self@.tables =~= o.tables.remove(i as int));
        proof {
            let n = self@;
            let kept_o = SchemaView { tables: o.tables, relations: n.relations };
            assert forall|p: int| 0 <= p < idx.len() implies n.relations[p] == o.relations[#[trigger] idx[p]] by {
                assert(n.relations[p] == kept@[p]@);
            }
            lemma_sub_relations(o, kept_o, idx);
            assert(kept_o.wf());
            assert forall|p: int| 0 <= p < n.relations.len() implies !touches(#[trigger] n.relations[p], table_name@) by {
                assert(n.relations.contains(n.relations[p]));
                o.relations.lemma_filter_contains_rev(not_touching(table_name@), n.relations[p]);
            }
            assert(n.names_unique()) by {
                assert forall|a: int, b: int|
                    0 <= a < n.tables.len() && 0 <= b < n.tables.len() && #[trigger] n.tables[a].name
                        == #[trigger] n.tables[b].name implies a == b by {
                    let a0 = if a < i { a } else { a + 1 };
                    let b0 = if b < i { b } else { b + 1 };
                    assert(o.tables[a0].name == o.tables[b0].name);
                }
                assert forall|a: int| 0 <= a < n.tables.len() implies (
                #[trigger] n.tables[a]).names_unique() by {
                    let a0 = if a < i { a } else { a + 1 };
                    assert(o.tables[a0].names_unique());
                }
            }
            assert forall|p: int| 0 <= p < n.relations.len() implies n.relation_ok(
                #[trigger] n.relations[p],
            ) by {
                let rv = n.relations[p];
                assert(kept_o.relations[p] == rv);
                assert(kept_o.relation_ok(rv));
                assert(!touches(rv, table_name@));
                lemma_locate(o, rv.from_table, rv.from_column);
                lemma_locate(o, rv.to_table, rv.to_column);
                let a1 = o.table_index(rv.from_table);
                let b1 = o.table(rv.from_table).column_index(rv.from_column);
                let a2 = o.table_index(rv.to_table);
                let b2 = o.table(rv.to_table).column_index(rv.to_column);
                assert(a1 != i);
                assert(a2 != i);
                let n1 = if a1 < i { a1 } else { a1 - 1 };
                let n2 = if a2 < i { a2 } else { a2 - 1 };
                assert(n.tables[n1] == o.tables[a1]);
                assert(n.tables[n2] == o.tables[a2]);
                lemma_lookup(n, n1, b1);
                lemma_lookup(n, n2, b2);
            }
        }
        Ok(removed)
    }

    /// Adds `relationship`. Both ends must exist and have the same data type,
    /// and no relationship with the same endpoints may exist yet.
    pub fn add_relation(&mut self, relationship: Relationship) -> (r: Result<&Relationship, SchemaError>)
        requires
            old(self)@.wf(),
        ensures
            final(self)@.wf(),
            schema_err(r) == add_relation_error(old(self)@, relationship@),
            r is Err ==> final(self)@ == old(self)@,
            r is Ok ==> final(self)@ == (SchemaView {
                relations: old(self)@.relations.push(relationship@),
                ..old(self)@
            }),
            r matches Ok(rel) ==> rel@ == relationship@,
    {
        let i1 = match self.find_table(relationship.get_from_table()) {
            Some(i) => i,
            None => return Err(SchemaError::MissingEndpointTable(owned(relationship.get_from_table()))),
        };
        let i2 = match self.find_table(relationship.get_to_table()) {
            Some(i) => i,
            None => return Err(SchemaError::MissingEndpointTable(owned(relationship.get_to_table()))),
        };
        proof {
            lemma_table_index(self@, i1 as int);
            lemma_table_index(self@, i2 as int);
        }
        let j1 = match self.tables[i1].find_column(relationship.get_from_column()) {
            Some(j) => j,
            None => {
                return Err(
                    SchemaError::MissingEndpointColumn {
                        table: owned(relationship.get_from_table()),
                        column: owned(relationship.get_from_column()),
                    },
                )
            },
        };
        let j2 = match self.tables[i2].find_column(relationship.get_to_column()) {
            Some(j) => j,
            None => {
                return Err(
                    SchemaError::MissingEndpointColumn {
                        table: owned(relationship.get_to_table()),
                        column: owned(relationship.get_to_column()),
                    },
                )
            },
        };
        proof {
            lemma_lookup(self@, i1 as int, j1 as int);
            lemma_lookup(self@, i2 as int, j2 as int);
        }
        let t1 = self.tables[i1].get_columns()[j1].get_data_type();
        let t2 = self.tables[i2].get_columns()[j2].get_data_type();
        if t1 != t2 {
            return Err(SchemaError::TypeMismatch(owned(relationship.get_code())));
        }
        if self.find_same_endpoints(&relationship).is_some() {
            return Err(SchemaError::DuplicateRelationship(owned(relationship.get_code())));
        }
        let ghost rv = relationship@;
        self.relations.push(relationship);
        proof {
            let o = old(self)@;
            let n = self@;
            assert(n.relations =~= o.relations.push(rv));
            assert(n.tables == o.tables);
            assert forall|k: int| 0 <= k < n.relations.len() implies n.relation_ok(
                #[trigger] n.relations[k],
            ) by {
                if k < o.relations.len() {
                    assert(o.relation_ok(o.relations[k]));
                }
            }
            assert forall|k: int, l: int|
                0 <= k < n.relations.len() && 0 <= l < n.relations.len() && (
                #[trigger] n.relations[k]).same_endpoints(#[trigger] n.relations[l]) implies k == l by {
                if k < o.relations.len() && l < o.relations.len() {
                    assert(o.relations[k].same_endpoints(o.relations[l]));
                } else if k < o.relations.len() {
                    assert(o.relations[k].same_endpoints(rv));
                } else if l < o.relations.len() {
                    assert(o.relations[l].same_endpoints(rv));
                }
            }
        }
        let last = self.relations.len() - 1;
        Ok(&self.relations[last])
    }

    /// Replaces the relationship with the same endpoints as `relationship` by a
    /// copy of it, which goes last; in effect this changes the cardinality. The
    /// code, derived from the endpoints, stays the same.
    pub fn update_relation(&mut self, relationship: &Relationship) -> (r: Result<&Relationship, SchemaError>)
        requires
            old(self)@.wf(),
        ensures
            final(self)@.wf(),
            schema_err(r) == update_relation_error(old(self)@, relationship@),
            r is Err ==> final(self)@ == old(self)@,
            r is Ok ==> final(self)@ == (SchemaView {
                relations: old(self)@.relations.remove(
                    old(self)@.endpoint_index(relationship@),
                ).push(relationship@),
                ..old(self)@
            }),
            r matches Ok(rel) ==> rel@ == relationship@,
    {
        let ghost o = self@;
        let ghost rv = relationship@;
        let k = match self.find_same_endpoints(relationship) {
            Some(k) => k,
            None => return Err(SchemaError::RelationshipNotFound(owned(relationship.get_code()))),
        };
        proof {
            lemma_endpoint_index(o, rv, k as int);
        }
        if str_eq(relationship.get_from_table(), relationship.get_to_table()) && str_eq(
            relationship.get_from_column(),
            relationship.get_to_column(),
        ) {
            return Err(SchemaError::SelfReferenceInvalid(owned(relationship.get_code())));
        }
        assert(o.relation_ok(o.relations[k as int]));
        let from_type = match self.get_table(relationship.get_from_table()) {
            Ok(t) => match t.get_column(relationship.get_from_column()) {
                Ok(c) => c.get_data_type(),
                Err(e) => return Err(e),
            },
            Err(e) => return Err(e),
        };
        let to_type = match self.get_table(relationship.get_to_table()) {
            Ok(t) => match t.get_column(relationship.get_to_column()) {
                Ok(c) => c.get_data_type(),
                Err(e) => return Err(e),
            },
            Err(e) => return Err(e),
        };
        if from_type != to_type {
            return Err(SchemaError::TypeMismatch(owned(relationship.get_code())));
        }
        let _ = self.relations.remove(k);
        self.relations.push(relationship.clone());
        proof {
            let n = self@;
            let rest = o.relations.remove(k as int);
            assert(n.relations =~= rest.push(rv));
            assert(n.tables == o.tables);
            assert forall|p: int| 0 <= p < n.relations.len() implies n.relation_ok(
                #[trigger] n.relations[p],
            ) by {
                if p < rest.len() {
                    let p0 = if p < k { p } else { p + 1 };
                    assert(o.relation_ok(o.relations[p0]));
                } else {
                    assert(o.relation_ok(o.relations[k as int]));
                }
            }
            assert forall|p: int, q: int|
                0 <= p < n.relations.len() && 0 <= q < n.relations.len() && (
                #[trigger] n.relations[p]).same_endpoints(#[trigger] n.relations[q]) implies p == q by {
                let p0 = if p < k { p } else if p < rest.len() { p + 1 } else { k as int };
                let q0 = if q < k { q } else if q < rest.len() { q + 1 } else { k as int };
                assert(o.relations[p0].same_endpoints(o.relations[q0]));
            }
        }
        let last = self.relations.len() - 1;
        Ok(&self.relations[last])
    }

    /// Removes and returns the first relationship whose code is `relation_code`.
    pub fn delete_relation(&mut self, relation_code: &str) -> (r: Result<Relationship, SchemaError>)
        requires
            old(self)@.wf(),
        ensures
            final(self)@.wf(),
            old(self)@.has_code(relation_code@) ==> r is Ok,
            !old(self)@.has_code(relation_code@) ==> final(self)@ == old(self)@ && schema_err(r)
                == Some(SchemaErrorView::RelationshipNotFound(relation_code@)),
            r matches Ok(rel) ==> rel@ == old(self)@.relation(relation_code@) && final(self)@ == (
            SchemaView {
                relations: old(self)@.relations.remove(old(self)@.relation_index(relation_code@)),
                ..old(self)@
            }),
    {
        let k = match self.find_relation(relation_code) {
            Some(k) => k,
            None => return Err(SchemaError::RelationshipNotFound(owned(relation_code))),
        };
        proof {
            lemma_relation_index(self@, relation_code@, k as int);
        }
        let ghost o = self@;
        let removed = self.relations.remove(k);
        proof {
            let n = self@;
            assert(n.relations =~= o.relations.remove(k as int));
            let idx = Seq::new(n.relations.len(), |p: int| if p < k { p } else { p + 1 });
            lemma_sub_relations(o, n, idx);
        }
        Ok(removed)
    }
}

} // verus!
