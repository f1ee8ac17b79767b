use batrs::combat_damage::storage::{
    migration_steps, schema_plan, validate_readable_schema, SchemaPlan, CANNOT_OPEN_DATABASE,
    CURRENT_SCHEMA_VERSION,
};

#[test]
fn readable_schema_versions() {
    assert_eq!(validate_readable_schema(None), Err(CANNOT_OPEN_DATABASE.to_string()));
    assert_eq!(CANNOT_OPEN_DATABASE, "Cannot open combat damage database.");
    assert_eq!(validate_readable_schema(Some(3)), Ok(()));
    assert_eq!(validate_readable_schema(Some(CURRENT_SCHEMA_VERSION)), Ok(()));
    assert_eq!(
        validate_readable_schema(Some(CURRENT_SCHEMA_VERSION + 1)),
        Err("Database schema newer than batrs; upgrade batrs.".to_string())
    );
}

#[test]
fn schema_plans_follow_the_version() {
    assert_eq!(schema_plan(None), SchemaPlan::Create);
    assert_eq!(schema_plan(Some(5)), SchemaPlan::UpToDate);
    assert_eq!(schema_plan(Some(2)), SchemaPlan::Migrate(2));
    assert!(matches!(schema_plan(Some(9)), SchemaPlan::Refuse(_)));
}

#[test]
fn migrations_run_from_the_version_to_the_current_one() {
    assert_eq!(migration_steps(1), Ok(vec![1, 2, 3, 4]));
    assert_eq!(migration_steps(4), Ok(vec![4]));
    assert_eq!(migration_steps(5), Ok(Vec::new()));
    assert_eq!(migration_steps(0), Err("missing migration from schema version 0 to 5".to_string()));
    assert_eq!(migration_steps(-3), Err("missing migration from schema version -3 to 5".to_string()));
}
