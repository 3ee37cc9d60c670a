//! Migration steps and ordered migration plans.

use vstd::prelude::*;
use vstd::string::StringExecFns;

use crate::column::{Column, ColumnView};
use crate::relationship::{Relationship, RelationshipView};

verus! {

/// Mathematical value of a migration step.
pub enum StepView {
    CreateTable { name: Seq<char>, sql_script: Seq<char> },
    DropTable { name: Seq<char>, sql_script: Seq<char> },
    AddColumn { table: Seq<char>, column: ColumnView, sql_script: Seq<char> },
    RemoveColumn { table: Seq<char>, column_name: Seq<char>, sql_script: Seq<char> },
    AlterColumn { table: Seq<char>, column: ColumnView, sql_script: Seq<char> },
    AddRelationship { relationship: RelationshipView, sql_script: Seq<char> },
}

impl StepView {
    pub open spec fn script(self) -> Seq<char> {
        match self {
            StepView::CreateTable { sql_script, .. } => sql_script,
            StepView::DropTable { sql_script, .. } => sql_script,
            StepView::AddColumn { sql_script, .. } => sql_script,
            StepView::RemoveColumn { sql_script, .. } => sql_script,
            StepView::AlterColumn { sql_script, .. } => sql_script,
            StepView::AddRelationship { sql_script, .. } => sql_script,
        }
    }
}

/// The scripts of `steps`, concatenated in order.
pub open spec fn concat_scripts(steps: Seq<StepView>) -> Seq<char>
    decreases steps.len(),
{
    if steps.len() == 0 {
        Seq::empty()
    } else {
        concat_scripts(steps.drop_last()) + steps.last().script()
    }
}

/// One step of a migration, with the DDL that performs it.
#[derive(Debug)]
pub enum MigrationStep {
    CreateTable { name: String, sql_script: String },
    DropTable { name: String, sql_script: String },
    AddColumn { table: String, column: Column, sql_script: String },
    RemoveColumn { table: String, column_name: String, sql_script: String },
    AlterColumn { table: String, column: Column, sql_script: String },
    AddRelationship { relationship: Relationship, sql_script: String },
}

impl View for MigrationStep {
    type V = StepView;

    open spec fn view(&self) -> StepView {
        match self {
            MigrationStep::CreateTable { name, sql_script } => StepView::CreateTable {
                name: name@,
                sql_script: sql_script@,
            },
            MigrationStep::DropTable { name, sql_script } => StepView::DropTable {
                name: name@,
                sql_script: sql_script@,
            },
            MigrationStep::AddColumn { table, column, sql_script } => StepView::AddColumn {
                table: table@,
                column: column@,
                sql_script: sql_script@,
            },
            MigrationStep::RemoveColumn { table, column_name, sql_script } => StepView::RemoveColumn {
                table: table@,
                column_name: column_name@,
                sql_script: sql_script@,
            },
            MigrationStep::AlterColumn { table, column, sql_script } => StepView::AlterColumn {
                table: table@,
                column: column@,
                sql_script: sql_script@,
            },
            MigrationStep::AddRelationship { relationship, sql_script } => StepView::AddRelationship {
                relationship: relationship@,
                sql_script: sql_script@,
            },
        }
    }
}

impl MigrationStep {
    /// The DDL of this step.
    pub fn get_sql_script(&self) -> (r: &str)
        ensures
            r@ == self@.script(),
    {
        match self {
            MigrationStep::CreateTable { sql_script, .. } => sql_script.as_str(),
            MigrationStep::DropTable { sql_script, .. } => sql_script.as_str(),
            MigrationStep::AddColumn { sql_script, .. } => sql_script.as_str(),
            MigrationStep::RemoveColumn { sql_script, .. } => sql_script.as_str(),
            MigrationStep::AlterColumn { sql_script, .. } => sql_script.as_str(),
            MigrationStep::AddRelationship { sql_script, .. } => sql_script.as_str(),
        }
    }
}

/// An ordered sequence of migration steps.
#[derive(Debug)]
pub struct MigrationPlan {
    steps: Vec<MigrationStep>,
}

impl View for MigrationPlan {
    type V = Seq<StepView>;

    closed spec fn view(&self) -> Seq<StepView> {
        self.steps@.map_values(|s: MigrationStep| s@)
    }
}

impl Default for MigrationPlan {
    fn default() -> (r: Self)
        ensures
            r@ == Seq::<StepView>::empty(),
    {
        MigrationPlan::new(Vec::new())
    }
}

impl MigrationPlan {
    pub fn new(steps: Vec<MigrationStep>) -> (r: Self)
        ensures
            r@ == steps@.map_values(|s: MigrationStep| s@),
    {
        MigrationPlan { steps }
    }

    pub fn get_steps(&self) -> (r: &[MigrationStep])
        ensures
            r@.map_values(|s: MigrationStep| s@) == self@,
    {
        self.steps.as_slice()
    }

    /// The DDL of every step, concatenated in plan order.
    pub fn get_sql(&self) -> (r: String)
        ensures
            r@ == concat_scripts(self@),
    {
        let mut res = String::new();
        let mut i: usize = 0;
        while i < self.steps.len()
            invariant
                i <= self.steps.len(),
                res@ == concat_scripts(self@.subrange(0, i as int)),
            decreases self.steps.len() - i,
        {
            assert(self@.subrange(0, i + 1).drop_last() =~= self@.subrange(0, i as int));
            res.append(self.steps[i].get_sql_script());
            i += 1;
        }
        assert(self@.subrange(0, i as int) =~= self@);
        res
    }
}

} // verus!
