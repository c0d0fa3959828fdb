use sql_help::pattern::captures;
use sql_help::rewrite::help;
use sql_help::rewrite::rewrite;

#[test]
fn help_with_unique() {
    let sql = "CREATE UNIQUE INDEX my_index ON my_table (my_column) ;";
    let s = help(sql).expect("help");
    assert_eq!(s, "CREATE UNIQUE INDEX CONCURRENTLY my_index ON my_table (my_column) ;");
}

#[test]
fn help_with_if_not_exists() {
    let sql = "CREATE INDEX IF NOT EXISTS my_index ON my_table (my_column) ;";
    let s = help(sql).expect("help");
    assert_eq!(s, "CREATE INDEX CONCURRENTLY IF NOT EXISTS my_index ON my_table (my_column) ;");
}

#[test]
fn help_with_both_optional_groups() {
    let sql = "CREATE UNIQUE INDEX IF NOT EXISTS my_index ON my_table (my_column) ;";
    let s = help(sql).expect("help");
    assert_eq!(
        s,
        "CREATE UNIQUE INDEX CONCURRENTLY IF NOT EXISTS my_index ON my_table (my_column) ;"
    );
}

#[test]
fn help_with_columns() {
    let sql = "CREATE INDEX my_index ON my_table (c1, c2, c3) ;";
    let s = help(sql).expect("help");
    assert_eq!(s, "CREATE INDEX CONCURRENTLY my_index ON my_table (c1, c2, c3) ;");
}

#[test]
fn help_with_newlines() {
    let sql = "CREATE\nINDEX\nmy_index\nON\nmy_table\n(my_column)\n;";
    let s = help(sql).expect("help");
    assert_eq!(s, "CREATE\nINDEX\nCONCURRENTLY my_index\nON\nmy_table\n(my_column)\n;");
}

#[test]
fn help_preserves_column_spacing() {
    let sql = "CREATE INDEX my_index ON my_table ( c1 ,c2,  c3 ) ;";
    let s = help(sql).expect("help");
    assert_eq!(s, "CREATE INDEX CONCURRENTLY my_index ON my_table ( c1 ,c2,  c3 ) ;");
}

#[test]
fn rewrite_of_captures_matches_help() {
    let sql = "CREATE INDEX my_index ON my_table (my_column) ;";
    let c = captures(sql).expect("captures");
    let s = rewrite(&c);
    assert_eq!(Some(s), help(sql));
}

#[test]
fn rewritten_output_is_not_matched_again() {
    let sql = "CREATE UNIQUE INDEX my_index ON my_table (my_column) ;";
    let once = help(sql).expect("help");
    assert_eq!(help(&once), None);
}

#[test]
fn statement_embedded_in_other_text() {
    let sql = "-- note\nCREATE INDEX i2 ON t2 (c2) ; more text";
    let s = help(sql).expect("help");
    assert_eq!(s, "CREATE INDEX CONCURRENTLY i2 ON t2 (c2) ;");
}

#[test]
fn table_without_trailing_space() {
    let sql = "CREATE INDEX i ON t(c) ;";
    let s = help(sql).expect("help");
    assert_eq!(s, "CREATE INDEX CONCURRENTLY i ON t(c) ;");
}

#[test]
fn column_list_of_whitespace_only() {
    let sql = "CREATE INDEX i ON t ( ) ;";
    let c = captures(sql).expect("captures");
    assert_eq!(c.column_chunk, "( ) ");
    assert_eq!(c.column_names, " ");
    let s = help(sql).expect("help");
    assert_eq!(s, "CREATE INDEX CONCURRENTLY i ON t ( ) ;");
}

#[test]
fn missing_terminator_is_absent() {
    assert_eq!(help("CREATE INDEX my_index ON my_table (my_column)"), None);
}

#[test]
fn missing_on_clause_is_absent() {
    assert_eq!(help("CREATE INDEX my_index my_table (my_column) ;"), None);
}

#[test]
fn unclosed_parenthesis_is_absent() {
    assert_eq!(help("CREATE INDEX my_index ON my_table (my_column ;"), None);
}

#[test]
fn empty_column_list_is_absent() {
    assert_eq!(help("CREATE INDEX my_index ON my_table () ;"), None);
}

#[test]
fn lowercase_keywords_are_absent() {
    assert_eq!(help("create index my_index on my_table (my_column) ;"), None);
}

#[test]
fn other_statement_is_absent() {
    assert_eq!(help("SELECT * FROM my_table ;"), None);
}

#[test]
fn keyword_without_separator_is_absent() {
    assert_eq!(help("CREATE INDEXmy_index ON my_table (my_column) ;"), None);
}
