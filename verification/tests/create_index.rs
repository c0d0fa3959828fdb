use sql_help::pattern::captures;
use sql_help::rewrite::help;

#[test]
fn simplest() {
    let sql = "CREATE INDEX my_index ON my_table (my_column) ;";
    let c = captures(sql).expect("captures");
    assert_eq!(c.create_chunk, "CREATE ");
    assert!(c.unique_chunk.is_none());
    assert_eq!(c.index_chunk, "INDEX ");
    assert_eq!(c.index_name_chunk, "my_index ");
    assert_eq!(c.index_name, "my_index");
    assert!(c.if_not_exists_chunk.is_none());
    assert_eq!(c.on_chunk, "ON ");
    assert_eq!(c.table_chunk, "my_table ");
    assert_eq!(c.table_name, "my_table");
    assert_eq!(c.column_chunk, "(my_column) ");
    assert_eq!(c.column_names, "my_column");
}

#[test]
fn with_whitespace() {
    let sql = "CREATE\nINDEX\nmy_index\nON\nmy_table\n(my_column)\n;";
    let c = captures(sql).expect("captures");
    assert_eq!(c.create_chunk, "CREATE\n");
    assert!(c.unique_chunk.is_none());
    assert_eq!(c.index_chunk, "INDEX\n");
    assert_eq!(c.index_name_chunk, "my_index\n");
    assert_eq!(c.index_name, "my_index");
    assert!(c.if_not_exists_chunk.is_none());
    assert_eq!(c.on_chunk, "ON\n");
    assert_eq!(c.table_chunk, "my_table\n");
    assert_eq!(c.table_name, "my_table");
    assert_eq!(c.column_chunk, "(my_column)\n");
    assert_eq!(c.column_names, "my_column");
}

#[test]
fn with_unique() {
    let sql = "CREATE UNIQUE INDEX my_index ON my_table (my_column) ;";
    let c = captures(sql).expect("captures");
    assert_eq!(c.create_chunk, "CREATE ");
    assert_eq!(c.unique_chunk.as_deref(), Some("UNIQUE "));
    assert!(c.if_not_exists_chunk.is_none());
    assert_eq!(c.index_chunk, "INDEX ");
    assert_eq!(c.index_name_chunk, "my_index ");
    assert_eq!(c.index_name, "my_index");
    assert!(c.if_not_exists_chunk.is_none());
    assert_eq!(c.on_chunk, "ON ");
    assert_eq!(c.table_chunk, "my_table ");
    assert_eq!(c.table_name, "my_table");
    assert_eq!(c.column_chunk, "(my_column) ");
    assert_eq!(c.column_names, "my_column");
}

#[test]
fn with_if_not_exists() {
    let sql = "CREATE INDEX IF NOT EXISTS my_index ON my_table (my_column) ;";
    let c = captures(sql).expect("captures");
    assert_eq!(c.create_chunk, "CREATE ");
    assert!(c.unique_chunk.is_none());
    assert_eq!(c.if_not_exists_chunk.as_deref(), Some("IF NOT EXISTS "));
    assert_eq!(c.index_chunk, "INDEX ");
    assert_eq!(c.index_name_chunk, "my_index ");
    assert_eq!(c.index_name, "my_index");
    assert_eq!(c.if_not_exists_chunk.as_deref(), Some("IF NOT EXISTS "));
    assert_eq!(c.on_chunk, "ON ");
    assert_eq!(c.table_chunk, "my_table ");
    assert_eq!(c.table_name, "my_table");
    assert_eq!(c.column_chunk, "(my_column) ");
    assert_eq!(c.column_names, "my_column");
}

#[test]
fn with_columns() {
    let sql = "CREATE INDEX my_index ON my_table (my_column_1, my_column_2, my_column_3) ;";
    let c = captures(sql).expect("captures");
    assert_eq!(c.create_chunk, "CREATE ");
    assert!(c.unique_chunk.is_none());
    assert_eq!(c.index_chunk, "INDEX ");
    assert_eq!(c.index_name_chunk, "my_index ");
    assert_eq!(c.index_name, "my_index");
    assert!(c.if_not_exists_chunk.is_none());
    assert_eq!(c.on_chunk, "ON ");
    assert_eq!(c.table_chunk, "my_table ");
    assert_eq!(c.table_name, "my_table");
    assert_eq!(c.column_chunk, "(my_column_1, my_column_2, my_column_3) ");
    assert_eq!(c.column_names, "my_column_1, my_column_2, my_column_3");
}

#[test]
fn with_match() {
    let sql = "CREATE INDEX my_index ON my_table (my_column) ;";
    let s = help(sql).expect("help");
    assert_eq!(s, "CREATE INDEX CONCURRENTLY my_index ON my_table (my_column) ;");
}

#[test]
fn without_match() {
    let sql = "";
    assert_eq!(help(sql), None)
}
