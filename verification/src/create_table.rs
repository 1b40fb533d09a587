//! Planning of `CREATE TABLE`: from the table's qualified name, what the
//! catalog knows of it, and the columns with their SQL types, to either a plan
//! that creates the table or the error the statement is refused with.
//!
//! Resolving the name, looking the schema and the table up in the catalog and
//! converting each declared column type to an SQL type are the work of other
//! components; the planner takes their outcomes as plain values and makes the
//! decisions.

use vstd::prelude::*;

verus! {

/// A table name qualified by its schema.
pub struct FullTableName {
    pub schema: String,
    pub table: String,
}

/// A column of a table to be created: its name and SQL type.
pub struct ColumnDefinition<T> {
    pub name: String,
    pub sql_type: T,
}

/// What creating a table needs: the schema it goes in, its name and its columns.
pub struct TableCreationInfo<T> {
    pub schema_id: u64,
    pub table_name: String,
    pub columns: Vec<ColumnDefinition<T>>,
}

/// A query plan.
pub enum Plan<T> {
    CreateTable(TableCreationInfo<T>),
}

/// Why a `CREATE TABLE` statement was refused.
pub enum PlanError<N, C> {
    /// The schema that the name is qualified by does not exist.
    SchemaDoesNotExist(String),
    /// A table of that name already exists in the schema.
    TableAlreadyExists(FullTableName),
    /// A column is declared with a type that is not supported.
    FeatureNotSupported(C),
    /// The table name is not a valid qualified name.
    SyntaxError(N),
}

/// A column as the statement declares it: its name, and what converting its
/// declared type to an SQL type gave (the type, or why it is not supported).
pub struct ColumnDef<T, C> {
    pub name: String,
    pub data_type: Result<T, C>,
}

/// Plans a `CREATE TABLE` statement.
pub struct CreateTablePlanner<N, T, C> {
    /// The statement's table name, resolved to a qualified name, or why it
    /// could not be.
    pub full_table_name: Result<FullTableName, N>,
    /// The statement's columns, in order.
    pub columns: Vec<ColumnDef<T, C>>,
}

/// The definition that a column with a supported type becomes.
pub open spec fn column_definition<T, C>(column: ColumnDef<T, C>) -> ColumnDefinition<T> {
    ColumnDefinition { name: column.name, sql_type: column.data_type->Ok_0 }
}

/// Index `i` is the first column whose type is not supported.
pub open spec fn first_unsupported_at<T, C>(columns: Seq<ColumnDef<T, C>>, i: int) -> bool {
    &&& 0 <= i < columns.len()
    &&& columns[i].data_type is Err
    &&& forall|j: int| 0 <= j < i ==> (#[trigger] columns[j]).data_type is Ok
}

/// Every column's type is supported.
pub open spec fn all_supported<T, C>(columns: Seq<ColumnDef<T, C>>) -> bool {
    forall|j: int| 0 <= j < columns.len() ==> (#[trigger] columns[j]).data_type is Ok
}

/// `res` is the plan that creates table `table_name` in schema `schema_id`,
/// with one definition for each column, in the columns' order.
pub open spec fn creates_table<N, T, C>(
    res: Result<Plan<T>, PlanError<N, C>>,
    schema_id: u64,
    table_name: String,
    columns: Seq<ColumnDef<T, C>>,
) -> bool {
    match res {
        Ok(Plan::CreateTable(info)) => {
            &&& info.schema_id == schema_id
            &&& info.table_name == table_name
            &&& info.columns@.len() == columns.len()
            &&& forall|i: int|
                0 <= i < columns.len() ==> info.columns@[i] == column_definition(columns[i])
        },
        Err(_) => false,
    }
}

impl<N, T, C> CreateTablePlanner<N, T, C> {
    pub fn new(full_table_name: Result<FullTableName, N>, columns: Vec<ColumnDef<T, C>>) -> (planner:
        Self)
        ensures
            planner.full_table_name == full_table_name,
            planner.columns == columns,
    {
        CreateTablePlanner { full_table_name, columns }
    }

    /// Plans the statement, given what the catalog answered for the qualified
    /// name: `None` where the schema does not exist, otherwise the schema's id
    /// and the id of the table of that name if there is one. The answer is
    /// consulted only where the name resolved.
    pub fn plan(self, table_exists: Option<(u64, Option<u64>)>) -> (res: Result<
        Plan<T>,
        PlanError<N, C>,
    >)
        ensures
            self.full_table_name matches Err(e) ==> res == Err::<Plan<T>, PlanError<N, C>>(
                PlanError::SyntaxError(e),
            ),
            self.full_table_name matches Ok(name) ==> {
                match table_exists {
                    None => res == Err::<Plan<T>, PlanError<N, C>>(
                        PlanError::SchemaDoesNotExist(name.schema),
                    ),
                    Some((_, Some(_))) => res == Err::<Plan<T>, PlanError<N, C>>(
                        PlanError::TableAlreadyExists(name),
                    ),
                    Some((schema_id, None)) => {
                        &&& forall|i: int|
                            first_unsupported_at(self.columns@, i) ==> res == Err::<
                                Plan<T>,
                                PlanError<N, C>,
                            >(PlanError::FeatureNotSupported(self.columns@[i].data_type->Err_0))
                        &&& all_supported(self.columns@) ==> creates_table(
                            res,
                            schema_id,
                            name.table,
                            self.columns@,
                        )
                    },
                }
            },
    {
        match self.full_table_name {
            Ok(full_table_name) => {
                match table_exists {
                    None => Err(PlanError::SchemaDoesNotExist(full_table_name.schema)),
                    Some((_, Some(_))) => Err(PlanError::TableAlreadyExists(full_table_name)),
                    Some((schema_id, None)) => {
                        let ghost columns = self.columns@;
                        let mut column_defs: Vec<ColumnDefinition<T>> = Vec::new();
                        for column in iter: self.columns.into_iter()
                            invariant
                                iter.seq() == columns,
                                columns == self.columns@,
                                self.full_table_name == Ok::<FullTableName, N>(full_table_name),
                                table_exists == Some((schema_id, None::<u64>)),
                                column_defs@.len() == iter.index(),
                                forall|j: int|
                                    0 <= j < iter.index() ==> column_defs@[j] == column_definition(
                                        columns[j],
                                    ),
                                forall|j: int|
                                    0 <= j < iter.index() ==> (#[trigger] columns[j]).data_type is Ok,
                        {
                            match column.data_type {
                                Ok(sql_type) => {
                                    column_defs.push(ColumnDefinition { name: column.name, sql_type });
                                },
                                Err(error) => {
                                    return Err(PlanError::FeatureNotSupported(error));
                                },
                            }
                        }
                        Ok(
                            Plan::CreateTable(
                                TableCreationInfo {
                                    schema_id,
                                    table_name: full_table_name.table,
                                    columns: column_defs,
                                },
                            ),
                        )
                    },
                }
            },
            Err(error) => Err(PlanError::SyntaxError(error)),
        }
    }
}

} // verus!
