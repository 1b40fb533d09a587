use database::create_table::{ColumnDef, CreateTablePlanner, FullTableName, Plan, PlanError};

fn name() -> Result<FullTableName, String> {
    Ok(FullTableName { schema: "public".to_owned(), table: "users".to_owned() })
}

fn columns() -> Vec<ColumnDef<u32, String>> {
    vec![
        ColumnDef { name: "id".to_owned(), data_type: Ok(23) },
        ColumnDef { name: "name".to_owned(), data_type: Ok(25) },
    ]
}

#[test]
fn plans_table_creation_with_columns_in_order() {
    let planner = CreateTablePlanner::new(name(), columns());
    match planner.plan(Some((7, None))) {
        Ok(Plan::CreateTable(info)) => {
            assert_eq!(info.schema_id, 7);
            assert_eq!(info.table_name, "users");
            assert_eq!(info.columns.len(), 2);
            assert_eq!(info.columns[0].name, "id");
            assert_eq!(info.columns[0].sql_type, 23);
            assert_eq!(info.columns[1].name, "name");
            assert_eq!(info.columns[1].sql_type, 25);
        }
        _ => panic!("expected a plan"),
    }
}

#[test]
fn plans_table_without_columns() {
    let planner: CreateTablePlanner<String, u32, String> = CreateTablePlanner::new(name(), vec![]);
    match planner.plan(Some((1, None))) {
        Ok(Plan::CreateTable(info)) => {
            assert_eq!(info.schema_id, 1);
            assert!(info.columns.is_empty());
        }
        _ => panic!("expected a plan"),
    }
}

#[test]
fn refuses_invalid_name() {
    let planner: CreateTablePlanner<String, u32, String> =
        CreateTablePlanner::new(Err("a.b.c.d".to_owned()), columns());
    match planner.plan(Some((1, None))) {
        Err(PlanError::SyntaxError(e)) => assert_eq!(e, "a.b.c.d"),
        _ => panic!("expected a syntax error"),
    }
}

#[test]
fn refuses_missing_schema() {
    let planner = CreateTablePlanner::new(name(), columns());
    match planner.plan(None) {
        Err(PlanError::SchemaDoesNotExist(schema)) => assert_eq!(schema, "public"),
        _ => panic!("expected a missing schema"),
    }
}

#[test]
fn refuses_existing_table() {
    let planner = CreateTablePlanner::new(name(), columns());
    match planner.plan(Some((7, Some(3)))) {
        Err(PlanError::TableAlreadyExists(full)) => {
            assert_eq!(full.schema, "public");
            assert_eq!(full.table, "users");
        }
        _ => panic!("expected an existing table"),
    }
}

#[test]
fn refuses_first_unsupported_column_type() {
    let planner = CreateTablePlanner::new(
        name(),
        vec![
            ColumnDef { name: "id".to_owned(), data_type: Ok(23) },
            ColumnDef { name: "geo".to_owned(), data_type: Err("point".to_owned()) },
            ColumnDef { name: "blob".to_owned(), data_type: Err("bytea".to_owned()) },
        ],
    );
    match planner.plan(Some((7, None))) {
        Err(PlanError::FeatureNotSupported(e)) => assert_eq!(e, "point"),
        _ => panic!("expected an unsupported type"),
    }
}
