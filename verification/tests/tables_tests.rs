use mysql2sqlite::tables::create_table_sql;
use mysql2sqlite::tables::describe_sql;
use mysql2sqlite::tables::insert_sql;
use mysql2sqlite::tables::select_sql;
use mysql2sqlite::tables::should_skip_table;
use mysql2sqlite::tables::tables_to_copy;
use mysql2sqlite::tables::ColumnDescriptor;
use mysql2sqlite::tables::TableFilter;

fn names(items: &[&str]) -> Vec<String> {
    items.iter().map(|s| s.to_string()).collect()
}

fn filter(allow: &[&str], deny: &[&str]) -> TableFilter {
    TableFilter { allow: names(allow), deny: names(deny) }
}

fn column(name: &str, source_type: &str) -> ColumnDescriptor {
    ColumnDescriptor { name: name.to_string(), source_type: source_type.to_string() }
}

#[test]
fn a_table_is_copied_if_allowed_and_not_denied() {
    let f = filter(&["a", "b"], &["b"]);
    assert!(should_skip_table(&f, "b"));
    assert!(!should_skip_table(&f, "a"));
    assert!(should_skip_table(&f, "c"));
}

#[test]
fn an_empty_allow_list_allows_every_table() {
    let f = filter(&[], &["b"]);
    assert!(!should_skip_table(&f, "a"));
    assert!(should_skip_table(&f, "b"));
    assert!(!should_skip_table(&f, "c"));
    assert!(!should_skip_table(&f, ""));
}

#[test]
fn an_empty_filter_skips_nothing() {
    let f = filter(&[], &[]);
    assert!(!should_skip_table(&f, "a"));
    assert!(!should_skip_table(&f, ""));
}

#[test]
fn names_are_compared_exactly() {
    let f = filter(&["Users"], &["logs"]);
    assert!(!should_skip_table(&f, "Users"));
    assert!(should_skip_table(&f, "users"));
    assert!(should_skip_table(&f, "Users "));
    assert!(should_skip_table(&f, "User"));
    let g = filter(&[], &["logs"]);
    assert!(!should_skip_table(&g, "Logs"));
    assert!(!should_skip_table(&g, "log"));
    assert!(should_skip_table(&g, "logs"));
}

#[test]
fn tables_are_copied_in_the_order_listed() {
    let f = filter(&["a", "b", "d"], &["b"]);
    assert_eq!(tables_to_copy(&f, &names(&["d", "c", "b", "a", "d"])), names(&["d", "a", "d"]));
    assert_eq!(tables_to_copy(&f, &names(&[])), names(&[]));
    let all = filter(&[], &[]);
    assert_eq!(tables_to_copy(&all, &names(&["z", "y", "x"])), names(&["z", "y", "x"]));
    let none = filter(&["q"], &[]);
    assert_eq!(tables_to_copy(&none, &names(&["z", "y", "x"])), names(&[]));
}

#[test]
fn the_table_is_created_with_mapped_types() {
    let columns = vec![
        column("id", "int(11)"),
        column("name", "varchar(255)"),
        column("data", "json"),
        column("when", "datetime"),
    ];
    assert_eq!(
        create_table_sql("users", &columns, true),
        "CREATE TABLE IF NOT EXISTS `users` (`id` INTEGER, `name` TEXT, `data` TEXT, `when` BLOB)"
    );
    assert_eq!(
        create_table_sql("users", &columns, false),
        "CREATE TABLE IF NOT EXISTS `users` (`id` INTEGER, `name` TEXT, `data` BLOB, `when` BLOB)"
    );
}

#[test]
fn a_table_of_one_column_has_no_separator() {
    let columns = vec![column("id", "INT")];
    assert_eq!(create_table_sql("t", &columns, true), "CREATE TABLE IF NOT EXISTS `t` (`id` INTEGER)");
    assert_eq!(insert_sql("t", &columns), "INSERT INTO `t` (`id`) VALUES (?)");
}

#[test]
fn a_table_without_columns_has_empty_lists() {
    assert_eq!(create_table_sql("t", &Vec::new(), true), "CREATE TABLE IF NOT EXISTS `t` ()");
    assert_eq!(insert_sql("t", &Vec::new()), "INSERT INTO `t` () VALUES ()");
}

#[test]
fn the_insert_names_every_column_in_order() {
    let columns = vec![column("id", "int"), column("name", "text"), column("data", "blob")];
    assert_eq!(
        insert_sql("users", &columns),
        "INSERT INTO `users` (`id`,`name`,`data`) VALUES (?,?,?)"
    );
    let two = vec![column("b", "int"), column("a", "int")];
    assert_eq!(insert_sql("t", &two), "INSERT INTO `t` (`b`,`a`) VALUES (?,?)");
}

#[test]
fn the_source_is_asked_by_quoted_name() {
    assert_eq!(select_sql("users"), "SELECT * FROM `users`");
    assert_eq!(describe_sql("users"), "DESCRIBE `users`");
    assert_eq!(select_sql("my table"), "SELECT * FROM `my table`");
    assert_eq!(describe_sql(""), "DESCRIBE ``");
}
