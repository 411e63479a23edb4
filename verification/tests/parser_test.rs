use renoir_sql::ir::IrPlan;
use renoir_sql::sql::grammar::ParseError;
use renoir_sql::sql::statements::{parse_sql, SqlParser};

#[test]
fn test_simple_select() {
    let sql = "INSERT INTO output (name, age) SELECT name, age FROM users;";
    let result = parse_sql(sql);
    assert!(result.is_ok());
    if let Ok(program) = result {
        assert_eq!(program.pipelines.len(), 1);
        let plan = &program.pipelines[0].plan;
        if let IrPlan::Mapping { input, .. } = plan.as_ref() {
            assert!(matches!(input.as_ref(), IrPlan::Source { .. }));
        }
    }
}

#[test]
fn test_select_with_where() {
    let sql = "INSERT INTO output (name) SELECT name FROM users WHERE age > 18;";
    let result = parse_sql(sql);
    assert!(result.is_ok());
    if let Ok(program) = result {
        assert_eq!(program.pipelines.len(), 1);
        let plan = &program.pipelines[0].plan;
        if let IrPlan::Mapping { input, .. } = plan.as_ref() {
            assert!(matches!(input.as_ref(), IrPlan::Filter { .. }));
        }
    }
}

#[test]
fn test_select_with_join() {
    let sql = "INSERT INTO output (name, total) SELECT u.name, o.total FROM users u JOIN orders o ON u.id = o.user_id;";
    let result = parse_sql(sql);
    assert!(result.is_ok());
    if let Ok(program) = result {
        assert_eq!(program.pipelines.len(), 1);
        let plan = &program.pipelines[0].plan;
        if let IrPlan::Mapping { input, .. } = plan.as_ref() {
            assert!(matches!(input.as_ref(), IrPlan::Join { .. }));
        }
    }
}

#[test]
fn test_select_with_aggregates() {
    let sql = "INSERT INTO output (country, count) SELECT country, COUNT(*) FROM users GROUP BY country;";
    let result = parse_sql(sql);
    assert!(result.is_ok());
    if let Ok(program) = result {
        assert_eq!(program.pipelines.len(), 1);
        let plan = &program.pipelines[0].plan;
        assert!(matches!(plan.as_ref(), IrPlan::GroupBy { .. }));
    }
}

#[test]
fn test_select_with_order_limit() {
    let sql = "INSERT INTO output (name) SELECT name FROM users ORDER BY name DESC LIMIT 10 OFFSET 5;";
    let result = parse_sql(sql);
    assert!(result.is_ok());
    if let Ok(program) = result {
        assert_eq!(program.pipelines.len(), 1);
        let plan = &program.pipelines[0].plan;
        assert!(matches!(plan.as_ref(), IrPlan::Limit { .. }));
    }
}

#[test]
fn test_create_source() {
    let sql = "CREATE SOURCE users (id i64, name String, age i32) WITH (connector = 'kafka', topic = 'users');";
    let result = parse_sql(sql);
    assert!(result.is_ok());
    if let Ok(program) = result {
        assert_eq!(program.sources.len(), 1);
        assert_eq!(program.sources[0].name, "users");
        assert_eq!(program.sources[0].connector.connector_type, "kafka");
    }
}

#[test]
fn test_create_sink() {
    let sql = "CREATE SINK output (id i64, result String) WITH (connector = 'postgres', table = 'results');";
    let result = parse_sql(sql);
    assert!(result.is_ok());
    if let Ok(program) = result {
        assert_eq!(program.sinks.len(), 1);
        assert_eq!(program.sinks[0].name, "output");
        assert_eq!(program.sinks[0].connector.connector_type, "postgres");
    }
}

#[test]
fn test_insert_into() {
    let sql = "INSERT INTO results (id, value) SELECT user_id, COUNT(*) FROM orders GROUP BY user_id;";
    let result = parse_sql(sql);
    assert!(result.is_ok());
    if let Ok(program) = result {
        assert_eq!(program.pipelines.len(), 1);
        assert_eq!(program.pipelines[0].sink_name, "results");
        assert_eq!(program.pipelines[0].sink_columns.len(), 2);
    }
}

#[test]
fn test_multi_statement_program() {
    let sql = r#"
            CREATE SOURCE users (id i64, name String) WITH (connector = 'kafka', topic = 'users');
            CREATE SINK output (id i64, name String) WITH (connector = 'postgres', table = 'output');
            INSERT INTO output (id, name) SELECT id, name FROM users WHERE id > 100;
        "#;
    let result = parse_sql(sql);
    assert!(result.is_ok());
    if let Ok(program) = result {
        assert_eq!(program.sources.len(), 1);
        assert_eq!(program.sinks.len(), 1);
        assert_eq!(program.pipelines.len(), 1);
        assert_eq!(program.sources[0].name, "users");
        assert_eq!(program.sinks[0].name, "output");
        assert_eq!(program.pipelines[0].sink_name, "output");
    }
}

#[test]
fn test_subquery() {
    let sql = "INSERT INTO output (name) SELECT name FROM users WHERE id IN (SELECT user_id FROM active_users);";
    let result = parse_sql(sql);
    assert!(result.is_ok());
    if let Ok(program) = result {
        assert_eq!(program.pipelines.len(), 1);
    }
}

#[test]
fn test_exists_clause() {
    let sql = "INSERT INTO output (name) SELECT name FROM users WHERE EXISTS (SELECT 1 FROM orders WHERE orders.user_id = users.id);";
    let result = parse_sql(sql);
    assert!(result.is_ok());
    if let Ok(program) = result {
        assert_eq!(program.pipelines.len(), 1);
    }
}

#[test]
fn test_complex_where() {
    let sql = "INSERT INTO output SELECT * FROM users WHERE (age > 18 AND status = 'active') OR premium = true;";
    let result = parse_sql(sql);
    if let Err(ref e) = result {
        println!("Parse error: {:?}", e);
    }
    assert!(result.is_ok());
    if let Ok(program) = result {
        assert_eq!(program.pipelines.len(), 1);
    }
}

#[test]
fn parse_rejects_malformed_text() {
    assert_eq!(parse_sql("INSERT INTO output SELECT FROM;"), Err(ParseError::Syntax));
    assert_eq!(parse_sql("CREATE SOURCE users"), Err(ParseError::Syntax));
}

#[test]
fn parse_rejects_a_standalone_query() {
    assert_eq!(SqlParser::parse("SELECT name FROM users;"), Err(ParseError::StandaloneQuery));
}

#[test]
fn parse_empty_input_gives_empty_program() {
    let program = parse_sql("").unwrap();
    assert!(program.sources.is_empty());
    assert!(program.sinks.is_empty());
    assert!(program.pipelines.is_empty());
}

#[test]
fn parse_limit_keeps_count_and_offset() {
    let program =
        parse_sql("INSERT INTO o (a) SELECT a FROM t LIMIT 10 OFFSET 5;").unwrap();
    match program.pipelines[0].plan.as_ref() {
        IrPlan::Limit { limit, offset, .. } => {
            assert_eq!(*limit, 10);
            assert_eq!(*offset, Some(5));
        }
        _ => panic!("expected a limit"),
    }
}

#[test]
fn standalone_query_error_message() {
    let e = parse_sql("SELECT name FROM users;").unwrap_err();
    assert_eq!(e.message(), "Standalone queries not supported. Use INSERT INTO <sink> SELECT ...");
    let s = parse_sql("SELECT FROM").unwrap_err();
    assert_eq!(s, ParseError::Syntax);
    assert!(s.message().starts_with("SQL syntax error"));
}
