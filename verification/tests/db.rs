use sql_log_parser::db::{
    build_jdbc_url, convert_jdbc_to_sqlx, parse_jdbc_url, ConnectionFields, ConnectionManager,
    DbConfig, DbType,
};

#[test]
fn test_parse_jdbc_url_simple() {
    let url = "jdbc:sqlserver://localhost:1433;databaseName=testdb";
    let parsed = parse_jdbc_url(url).unwrap();

    assert_eq!(parsed.host, "localhost");
    assert_eq!(parsed.port, 1433);
    assert_eq!(parsed.database, Some("testdb".to_string()));
    assert_eq!(parsed.encrypt, false);
    assert_eq!(parsed.trust_cert, false);
}

#[test]
fn test_parse_jdbc_url_full() {
    let url = "jdbc:sqlserver://myserver.com:5555;database=prod;encrypt=true;trustServerCertificate=true";
    let parsed = parse_jdbc_url(url).unwrap();

    assert_eq!(parsed.host, "myserver.com");
    assert_eq!(parsed.port, 5555);
    assert_eq!(parsed.database, Some("prod".to_string()));
    assert_eq!(parsed.encrypt, true);
    assert_eq!(parsed.trust_cert, true);
}

#[test]
fn test_parse_jdbc_url_instance() {
    let url = "jdbc:sqlserver://myserver\\SQLEXPRESS;databaseName=test";
    let parsed = parse_jdbc_url(url).unwrap();

    assert_eq!(parsed.host, "myserver");
    assert_eq!(parsed.instance, Some("SQLEXPRESS".to_string()));
    assert_eq!(parsed.database, Some("test".to_string()));
}

#[test]
fn test_build_jdbc_url() {
    let fields = ConnectionFields {
        host: "10.0.0.1".to_string(),
        port: "1433".to_string(),
        database: "master".to_string(),
        encrypt: true,
        trust_cert: true,
    };

    let url = build_jdbc_url(&fields);
    assert!(url.starts_with("jdbc:sqlserver://10.0.0.1:1433"));
    assert!(url.contains("databaseName=master"));
    assert!(url.contains("encrypt=true"));
    assert!(url.contains("trustServerCertificate=true"));
}

#[test]
fn build_jdbc_url_writes_only_what_is_set() {
    let fields = ConnectionFields {
        host: "h".to_string(),
        port: "1".to_string(),
        database: String::new(),
        encrypt: false,
        trust_cert: false,
    };
    assert_eq!(build_jdbc_url(&fields), "jdbc:sqlserver://h:1");
    assert_eq!(
        build_jdbc_url(&ConnectionFields::default()),
        "jdbc:sqlserver://localhost:1433;databaseName=master;trustServerCertificate=true"
    );
}

#[test]
fn parse_jdbc_url_refuses_another_scheme() {
    assert_eq!(
        parse_jdbc_url("jdbc:mysql://localhost").err(),
        Some("Invalid JDBC URL prefix. Must start with 'jdbc:sqlserver://'".to_string())
    );
    assert!(parse_jdbc_url("").is_err());
}

#[test]
fn parse_jdbc_url_falls_back_to_the_default_port() {
    let parsed = parse_jdbc_url("jdbc:sqlserver://h:notaport").unwrap();
    assert_eq!(parsed.host, "h");
    assert_eq!(parsed.port, 1433);
    assert_eq!(parse_jdbc_url("jdbc:sqlserver://h:70000").unwrap().port, 1433);
    assert_eq!(parse_jdbc_url("jdbc:sqlserver://h:+80").unwrap().port, 80);
    assert_eq!(parse_jdbc_url("jdbc:sqlserver://h:-80").unwrap().port, 1433);
    let bare = parse_jdbc_url("jdbc:sqlserver://justhost").unwrap();
    assert_eq!(bare.host, "justhost");
    assert_eq!(bare.port, 1433);
    assert_eq!(bare.instance, None);
    assert_eq!(bare.database, None);
}

#[test]
fn parse_jdbc_url_reads_properties_loosely() {
    let parsed =
        parse_jdbc_url("jdbc:sqlserver://h;; DatabaseName = db1 ;novalue;ENCRYPT=true;encrypt=yes;x=y")
            .unwrap();
    assert_eq!(parsed.database, Some("db1".to_string()));
    assert_eq!(parsed.encrypt, false);
    assert_eq!(parsed.trust_cert, false);
}

#[test]
fn parse_jdbc_url_drops_a_repeated_scheme() {
    let parsed = parse_jdbc_url("jdbc:sqlserver://jdbc:sqlserver://h:9").unwrap();
    assert_eq!(parsed.host, "h");
    assert_eq!(parsed.port, 9);
}

#[test]
fn convert_jdbc_to_sqlx_builds_a_connection_url() {
    assert_eq!(
        convert_jdbc_to_sqlx(
            "jdbc:sqlserver://h:1433;databaseName=db;encrypt=true;trustServerCertificate=true",
            "sa",
            "pw"
        ),
        "mssql://sa:pw@h:1433/db?encrypt=true&trustServerCertificate=true"
    );
    assert_eq!(convert_jdbc_to_sqlx("jdbc:sqlserver://h", "u", "p"), "mssql://u:p@h");
    assert_eq!(
        convert_jdbc_to_sqlx("jdbc:sqlserver://h;DATABASENAME=d;;bad", "u", "p"),
        "mssql://u:p@h/d"
    );
    assert_eq!(
        convert_jdbc_to_sqlx("jdbc:sqlserver://h;a=1", "u", "p"),
        "mssql://u:p@h?a=1"
    );
}

#[test]
fn convert_jdbc_to_sqlx_leaves_other_addresses_alone() {
    assert_eq!(convert_jdbc_to_sqlx("postgres://h/db", "u", "p"), "postgres://h/db");
}

#[test]
fn db_type_has_display_names() {
    assert_eq!(DbType::Postgres.to_string(), "Postgres");
    assert_eq!(DbType::Mysql.to_string(), "MySQL");
    assert_eq!(DbType::Sqlite.to_string(), "SQLite");
    assert_eq!(DbType::SqlServer.to_string(), "SQL Server");
    assert_eq!(DbType::default(), DbType::SqlServer);
}

fn connection(id: &str, name: &str) -> DbConfig {
    DbConfig { id: id.to_string(), name: name.to_string(), ..DbConfig::default() }
}

#[test]
fn connections_are_added_unless_the_name_is_taken() {
    let mut manager = ConnectionManager::new("db_connections.json".to_string(), Vec::new());
    assert_eq!(manager.add(connection("1", "main")), Ok(()));
    assert_eq!(manager.add(connection("2", "spare")), Ok(()));
    assert_eq!(
        manager.add(connection("3", "main")),
        Err("A connection with name 'main' already exists".to_string())
    );
    assert_eq!(manager.connections.len(), 2);
    assert_eq!(manager.connections[1].id, "2");
    assert_eq!(manager.config_path, "db_connections.json");
}

#[test]
fn connections_are_updated_by_id() {
    let mut manager = ConnectionManager::new(
        String::new(),
        vec![connection("1", "a"), connection("2", "b"), connection("2", "c")],
    );
    assert_eq!(manager.update(connection("2", "renamed")), Ok(()));
    assert_eq!(manager.connections[1].name, "renamed");
    assert_eq!(manager.connections[2].name, "c");
    assert_eq!(
        manager.update(connection("9", "x")),
        Err("Connection not found for update".to_string())
    );
    assert_eq!(manager.connections.len(), 3);
}

#[test]
fn connections_are_deleted_by_id() {
    let mut manager = ConnectionManager::new(
        String::new(),
        vec![connection("1", "a"), connection("2", "b"), connection("1", "c")],
    );
    assert!(!manager.delete("7"));
    assert_eq!(manager.connections.len(), 3);
    assert!(manager.delete("1"));
    assert_eq!(manager.connections.len(), 1);
    assert_eq!(manager.connections[0].name, "b");
}
