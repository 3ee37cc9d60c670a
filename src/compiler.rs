//! Compiles a schema into a migration plan: every table is created first, in
//! table order, and only then are the relationships added as foreign keys.

use vstd::prelude::*;
use vstd::string::StringExecFns;

use crate::column::ColumnView;
use crate::data_type::{db_type_name, is_known_engine, known_engine, DataType};
use crate::error::{CompileError, CompileErrorView};
use crate::migration_plan::{MigrationPlan, MigrationStep, StepView};
use crate::relationship::RelationshipView;
use crate::schema::{Schema, SchemaView};
use crate::table::TableView;
use crate::text::owned;

verus! {

/// Native name of `t` in dialect `db`; empty where the dialect has none.
pub open spec fn type_text(t: DataType, db: Seq<char>) -> Seq<char> {
    match db_type_name(t, db) {
        Some(n) => n,
        None => Seq::empty(),
    }
}

/// `name type[ PRIMARY KEY]`.
pub open spec fn column_ddl(c: ColumnView, db: Seq<char>) -> Seq<char> {
    c.name + " "@ + type_text(c.data_type, db) + if c.primary_key {
        " PRIMARY KEY"@
    } else {
        Seq::empty()
    }
}

/// Separator between two column definitions.
pub open spec fn column_separator() -> Seq<char> {
    ",\n    "@
}

/// The column definitions of `cols`, in order, with a separator between two
/// and none after the last.
pub open spec fn columns_ddl(cols: Seq<ColumnView>, db: Seq<char>) -> Seq<char>
    decreases cols.len(),
{
    if cols.len() == 0 {
        Seq::empty()
    } else if cols.len() == 1 {
        column_ddl(cols[0], db)
    } else {
        columns_ddl(cols.drop_last(), db) + column_separator() + column_ddl(cols.last(), db)
    }
}

pub open spec fn create_table_ddl(t: TableView, db: Seq<char>) -> Seq<char> {
    "CREATE TABLE "@ + t.name + " (\n    "@ + columns_ddl(t.columns, db) + "\n);\n"@
}

pub open spec fn add_relationship_ddl(r: RelationshipView) -> Seq<char> {
    "ALTER TABLE "@ + r.to_table + " ADD CONSTRAINT "@ + r.to_table + "_"@ + r.to_column
        + "_fk FOREIGN KEY ("@ + r.to_column + ") REFERENCES "@ + r.from_table + " ("@
        + r.from_column + ");\n"@
}

/// Name of the first column of `cols` whose type dialect `db` can't name.
pub open spec fn first_unmapped(cols: Seq<ColumnView>, db: Seq<char>) -> Option<Seq<char>>
    decreases cols.len(),
{
    if cols.len() == 0 {
        None
    } else {
        match first_unmapped(cols.drop_last(), db) {
            Some(n) => Some(n),
            None => if db_type_name(cols.last().data_type, db) is None {
                Some(cols.last().name)
            } else {
                None
            },
        }
    }
}

/// Why table `t` can't be rendered in dialect `db`, if it can't.
pub open spec fn table_error(t: TableView, db: Seq<char>) -> Option<CompileErrorView> {
    if t.columns.len() == 0 {
        Some(CompileErrorView::EmptyTableRejected(t.name))
    } else {
        match first_unmapped(t.columns, db) {
            Some(c) => Some(CompileErrorView::TypeMappingUnsupported { table: t.name, column: c }),
            None => None,
        }
    }
}

/// One CreateTable step per table, in order; the first table that can't be
/// rendered fails the whole sequence.
pub open spec fn create_steps(tables: Seq<TableView>, db: Seq<char>) -> Result<Seq<StepView>, CompileErrorView>
    decreases tables.len(),
{
    if tables.len() == 0 {
        Ok(Seq::empty())
    } else {
        match create_steps(tables.drop_last(), db) {
            Err(e) => Err(e),
            Ok(steps) => match table_error(tables.last(), db) {
                Some(e) => Err(e),
                None => Ok(
                    steps.push(
                        StepView::CreateTable {
                            name: tables.last().name,
                            sql_script: create_table_ddl(tables.last(), db),
                        },
                    ),
                ),
            },
        }
    }
}

pub open spec fn relationship_step(r: RelationshipView) -> StepView {
    StepView::AddRelationship { relationship: r, sql_script: add_relationship_ddl(r) }
}

/// The plan for schema `s` in dialect `db`: all CreateTable steps, then one
/// AddRelationship step per relationship. An unknown dialect is refused.
pub open spec fn plan_spec(s: SchemaView, db: Seq<char>) -> Result<Seq<StepView>, CompileErrorView> {
    if !known_engine(db) {
        Err(CompileErrorView::UnknownEngine(db))
    } else {
        match create_steps(s.tables, db) {
        Err(e) => Err(e),
            Ok(creates) => Ok(
                creates + s.relations.map_values(|r: RelationshipView| relationship_step(r)),
            ),
        }
    }
}

/// Where every table renders, there is one CreateTable step per table, in
/// table order.
proof fn lemma_create_steps_ok(tables: Seq<TableView>, db: Seq<char>)
    requires
        create_steps(tables, db) is Ok,
    ensures
        create_steps(tables, db)->Ok_0.len() == tables.len(),
        forall|i: int|
            0 <= i < tables.len() ==> #[trigger] create_steps(tables, db)->Ok_0[i]
                == (StepView::CreateTable {
                name: tables[i].name,
                sql_script: create_table_ddl(tables[i], db),
            }),
    decreases tables.len(),
{
    if tables.len() > 0 {
        lemma_create_steps_ok(tables.drop_last(), db);
    }
}

/// A schema whose first table has no columns does not compile: the compile
/// fails with EmptyTableRejected for that table, whatever follows it.
pub proof fn law_empty_table_rejected(s: SchemaView, db: Seq<char>)
    requires
        known_engine(db),
        s.tables.len() > 0,
        s.tables[0].columns.len() == 0,
    ensures
        plan_spec(s, db) == Err::<Seq<StepView>, CompileErrorView>(
            CompileErrorView::EmptyTableRejected(s.tables[0].name),
        ),
{
    let first = s.tables.subrange(0, 1);
    assert(first.drop_last() =~= Seq::<TableView>::empty());
    assert(first.last() == s.tables[0]);
    assert(create_steps(first.drop_last(), db) == Ok::<Seq<StepView>, CompileErrorView>(Seq::empty()));
    assert(table_error(first.last(), db) == Some(CompileErrorView::EmptyTableRejected(s.tables[0].name)));
    assert(create_steps(first, db) == Err::<Seq<StepView>, CompileErrorView>(
        CompileErrorView::EmptyTableRejected(s.tables[0].name),
    ));
    lemma_create_steps_prefix(s.tables, 1, db);
}

/// In a compiled plan every CreateTable step comes first, one per table in
/// table order, and only then one AddRelationship step per relationship; so
/// both end tables of a relationship are created before it is added.
pub proof fn law_tables_before_relationships(s: SchemaView, db: Seq<char>)
    requires
        plan_spec(s, db) is Ok,
    ensures
        ({
            let steps = plan_spec(s, db)->Ok_0;
            &&& steps.len() == s.tables.len() + s.relations.len()
            &&& forall|i: int|
                0 <= i < s.tables.len() ==> #[trigger] steps[i] == (StepView::CreateTable {
                    name: s.tables[i].name,
                    sql_script: create_table_ddl(s.tables[i], db),
                })
            &&& forall|k: int|
                0 <= k < s.relations.len() ==> steps[s.tables.len() + k] == relationship_step(
                    #[trigger] s.relations[k],
                )
        }),
{
    lemma_create_steps_ok(s.tables, db);
    let steps = plan_spec(s, db)->Ok_0;
    let n = s.tables.len() as int;
    assert forall|k: int| 0 <= k < s.relations.len() implies steps[n + k] == relationship_step(
        #[trigger] s.relations[k],
    ) by {
        assert(steps[n + k] == s.relations.map_values(|r: RelationshipView| relationship_step(r))[k]);
    }
}

/// The value of a compile result.
pub open spec fn compile_view(r: Result<MigrationPlan, CompileError>) -> Result<Seq<StepView>, CompileErrorView> {
    match r {
        Ok(p) => Ok(p@),
        Err(e) => Err(e@),
    }
}

proof fn lemma_first_unmapped_prefix(cols: Seq<ColumnView>, n: int, db: Seq<char>)
    requires
        0 <= n <= cols.len(),
        first_unmapped(cols.subrange(0, n), db) is Some,
    ensures
        first_unmapped(cols, db) == first_unmapped(cols.subrange(0, n), db),
    decreases cols.len(),
{
    if n == cols.len() {
        assert(cols.subrange(0, n) =~= cols);
    } else {
        assert(cols.drop_last().subrange(0, n) =~= cols.subrange(0, n));
        lemma_first_unmapped_prefix(cols.drop_last(), n, db);
    }
}

proof fn lemma_create_steps_prefix(tables: Seq<TableView>, n: int, db: Seq<char>)
    requires
        0 <= n <= tables.len(),
        create_steps(tables.subrange(0, n), db) is Err,
    ensures
        create_steps(tables, db) == create_steps(tables.subrange(0, n), db),
    decreases tables.len(),
{
    if n == tables.len() {
        assert(tables.subrange(0, n) =~= tables);
    } else {
        assert(tables.drop_last().subrange(0, n) =~= tables.subrange(0, n));
        lemma_create_steps_prefix(tables.drop_last(), n, db);
    }
}

/// The CREATE TABLE statement for table `t`, or why it can't be written.
fn render_table(engine_name: &str, t: &crate::table::Table) -> (r: Result<String, CompileError>)
    ensures
        match r {
            Ok(s) => table_error(t@, engine_name@) is None && s@ == create_table_ddl(t@, engine_name@),
            Err(e) => table_error(t@, engine_name@) == Some(e@),
        },
{
    let cols = t.get_columns();
    let ghost cv = t@.columns;
    let ghost db = engine_name@;
    assert(cols@.len() == cv.len());
    if cols.len() == 0 {
        return Err(CompileError::EmptyTableRejected(owned(t.get_name())));
    }
    let mut body = String::new();
    let mut j: usize = 0;
    while j < cols.len()
        invariant
            j <= cols@.len(),
            cols@.len() == cv.len(),
            cols@.map_values(|c: crate::column::Column| c@) == cv,
            cv == t@.columns,
            db == engine_name@,
            body@ == columns_ddl(cv.subrange(0, j as int), db),
            first_unmapped(cv.subrange(0, j as int), db) is None,
        decreases cols@.len() - j,
    {
        let c = &cols[j];
        assert(c@ == cv[j as int]);
        assert(cv.subrange(0, j + 1).drop_last() =~= cv.subrange(0, j as int));
        let ty = match c.get_data_type().to_db_type(engine_name) {
            Some(ty) => ty,
            None => {
                proof {
                    lemma_first_unmapped_prefix(cv, j + 1, db);
                }
                return Err(
                    CompileError::TypeMappingUnsupported {
                        table: owned(t.get_name()),
                        column: owned(c.get_name()),
                    },
                );
            },
        };
        if j > 0 {
            body.append(",\n    ");
        }
        body.append(c.get_name());
        body.append(" ");
        body.append(ty);
        if c.is_primary_key() {
            body.append(" PRIMARY KEY");
        }
        proof {
            if j == 0 {
                assert(cv.subrange(0, 1).len() == 1);
                assert(body@ =~= columns_ddl(cv.subrange(0, 1), db));
            } else {
                assert(body@ =~= columns_ddl(cv.subrange(0, j + 1), db));
            }
        }
        j += 1;
    }
    assert(cv.subrange(0, j as int) =~= cv);
    let mut s = String::from_str("CREATE TABLE ");
    s.append(t.get_name());
    s.append(" (\n    ");
    s.append(body.as_str());
    s.append("\n);\n");
    assert(s@ =~= create_table_ddl(t@, db));
    Ok(s)
}

/// The ALTER TABLE statement that adds relationship `r` as a foreign key.
fn render_relationship(r: &crate::relationship::Relationship) -> (s: String)
    ensures
        s@ == add_relationship_ddl(r@),
{
    let mut s = String::from_str("ALTER TABLE ");
    s.append(r.get_to_table());
    s.append(" ADD CONSTRAINT ");
    s.append(r.get_to_table());
    s.append("_");
    s.append(r.get_to_column());
    s.append("_fk FOREIGN KEY (");
    s.append(r.get_to_column());
    s.append(") REFERENCES ");
    s.append(r.get_from_table());
    s.append(" (");
    s.append(r.get_from_column());
    s.append(");\n");
    assert(s@ =~= add_relationship_ddl(r@));
    s
}

/// Compiles `schema` for the dialect called `engine_name`; an unknown dialect
/// is refused with UnknownEngine. A table with no
/// columns, or with a column whose type the dialect can't name, fails the
/// whole compile; no partial plan is returned.
pub fn compile_schema(engine_name: &str, schema: &Schema) -> (r: Result<MigrationPlan, CompileError>)
    ensures
        compile_view(r) == plan_spec(schema@, engine_name@),
{
    if !is_known_engine(engine_name) {
        return Err(CompileError::UnknownEngine(owned(engine_name)));
    }
    let tables = schema.get_tables();
    let ghost tv = schema@.tables;
    let ghost db = engine_name@;
    let mut steps: Vec<MigrationStep> = Vec::new();
    assert(steps@.map_values(|s: MigrationStep| s@) =~= Seq::empty());
    assert(tv.subrange(0, 0) =~= Seq::empty());
    let mut i: usize = 0;
    while i < tables.len()
        invariant
            i <= tables@.len(),
            tables@.map_values(|t: crate::table::Table| t@) == tv,
            tv == schema@.tables,
            db == engine_name@,
            known_engine(db),
            create_steps(tv.subrange(0, i as int), db) == Ok::<Seq<StepView>, CompileErrorView>(
                steps@.map_values(|s: MigrationStep| s@),
            ),
        decreases tables@.len() - i,
    {
        let t = &tables[i];
        assert(t@ == tv[i as int]);
        assert(tv.subrange(0, i + 1).drop_last() =~= tv.subrange(0, i as int));
        match render_table(engine_name, t) {
            Ok(script) => {
                steps.push(MigrationStep::CreateTable { name: owned(t.get_name()), sql_script: script });
                assert(steps@.map_values(|s: MigrationStep| s@) =~= create_steps(
                    tv.subrange(0, i + 1),
                    db,
                )->Ok_0);
            },
            Err(e) => {
                proof {
                    lemma_create_steps_prefix(tv, i + 1, db);
                }
                return Err(e);
            },
        }
        i += 1;
    }
    assert(tv.subrange(0, i as int) =~= tv);
    let ghost creates = steps@.map_values(|s: MigrationStep| s@);
    let relations = schema.get_relationships();
    let ghost rv = schema@.relations;
    let mut k: usize = 0;
    while k < relations.len()
        invariant
            k <= relations@.len(),
            relations@.map_values(|x: crate::relationship::Relationship| x@) == rv,
            steps@.map_values(|s: MigrationStep| s@) == creates + rv.subrange(0, k as int).map_values(
                |r: RelationshipView| relationship_step(r),
            ),
        decreases relations@.len() - k,
    {
        let rel = &relations[k];
        assert(rel@ == rv[k as int]);
        let script = render_relationship(rel);
        let copy = rel.clone();
        assert(copy@ == rel@);
        let ghost before = steps@.map_values(|s: MigrationStep| s@);
        steps.push(MigrationStep::AddRelationship { relationship: copy, sql_script: script });
        assert(steps@.map_values(|s: MigrationStep| s@) =~= before.push(relationship_step(rv[k as int])));
        assert(rv.subrange(0, k + 1).map_values(|r: RelationshipView| relationship_step(r))
            =~= rv.subrange(0, k as int).map_values(|r: RelationshipView| relationship_step(r)).push(
            relationship_step(rv[k as int]),
        ));
        assert(steps@.map_values(|s: MigrationStep| s@) =~= creates + rv.subrange(0, k + 1).map_values(
            |r: RelationshipView| relationship_step(r),
        ));
        k += 1;
    }
    assert(rv.subrange(0, k as int) =~= rv);
    Ok(MigrationPlan::new(steps))
}

} // verus!
