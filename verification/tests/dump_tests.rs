use mysql2sqlite::dump::convert_dump;
use mysql2sqlite::dump::route_statement;
use mysql2sqlite::dump::StatementAction;
use mysql2sqlite::policy::disposition;
use mysql2sqlite::policy::verbosity;
use mysql2sqlite::policy::Disposition;
use mysql2sqlite::policy::Failure;
use mysql2sqlite::policy::Verbosity;

fn lines(items: &[&str]) -> Vec<String> {
    items.iter().map(|s| s.to_string()).collect()
}

#[test]
fn an_alter_that_adds_an_index_is_discarded() {
    let stmt = "ALTER TABLE t ADD INDEX idx (col);";
    assert_eq!(route_statement(stmt), StatementAction::Skip(stmt.to_string()));
    assert_eq!(convert_dump(&lines(&[stmt])), Vec::<String>::new());
}

#[test]
fn an_alter_that_sqlite_can_follow_passes_unchanged() {
    let stmt = "ALTER TABLE t ADD COLUMN c INT;";
    assert_eq!(route_statement(stmt), StatementAction::Execute(stmt.to_string()));
}

#[test]
fn only_a_statement_that_begins_with_alter_table_is_filtered() {
    let lower = "alter table t add index i (c);";
    assert_eq!(route_statement(lower), StatementAction::Execute(lower.to_string()));
    let insert = "INSERT INTO t VALUES ('add index');";
    assert_eq!(route_statement(insert), StatementAction::Execute(insert.to_string()));
}

#[test]
fn a_create_table_is_translated() {
    let stmt = "CREATE TABLE t (\n  id INT AUTO_INCREMENT,\n  PRIMARY KEY (id)\n) ENGINE=InnoDB;";
    assert_eq!(
        route_statement(stmt),
        StatementAction::Execute("CREATE TABLE t (\n  id INT  PRIMARY KEY AUTOINCREMENT\n);".to_string())
    );
}

#[test]
fn only_a_statement_that_begins_with_create_table_is_translated() {
    let stmt = "create table t (\n  a INT UNSIGNED,\n  KEY k (a)\n) ENGINE=InnoDB;";
    assert_eq!(route_statement(stmt), StatementAction::Execute(stmt.to_string()));
    let index = "CREATE INDEX i ON t (a) COMMENT 'x';";
    assert_eq!(route_statement(index), StatementAction::Execute(index.to_string()));
}

#[test]
fn other_statements_pass_unchanged() {
    for stmt in ["INSERT INTO t VALUES (1, 'UNSIGNED');", "DROP TABLE IF EXISTS `t`;", ";", ""] {
        assert_eq!(route_statement(stmt), StatementAction::Execute(stmt.to_string()));
    }
}

#[test]
fn a_dump_becomes_the_sql_to_execute() {
    let dump = lines(&[
        "-- MySQL dump 10.13",
        "",
        "/*!40101 SET NAMES utf8 */;",
        "DROP TABLE IF EXISTS `t`;",
        "CREATE TABLE `t` (",
        "  `id` int(11) NOT NULL AUTO_INCREMENT,",
        "  `n` int(10) UNSIGNED DEFAULT NULL COMMENT 'count',",
        "  PRIMARY KEY (`id`)",
        ") ENGINE=InnoDB DEFAULT CHARSET=utf8;",
        "LOCK TABLES `t` WRITE;",
        "INSERT INTO `t` VALUES (1,2),(3,4);",
        "UNLOCK TABLES;",
        "ALTER TABLE `t` ADD KEY `n` (`n`);",
        "ALTER TABLE `t` ADD COLUMN `m` int;",
        "INSERT INTO `t` VALUES (5,6,7)",
    ]);
    assert_eq!(
        convert_dump(&dump),
        lines(&[
            "DROP TABLE IF EXISTS `t`;",
            "CREATE TABLE `t` (\n  `id` int(11) NOT NULL  PRIMARY KEY AUTOINCREMENT,\n  `n` int(10)  DEFAULT NULL \n);",
            "INSERT INTO `t` VALUES (1,2),(3,4);",
            "ALTER TABLE `t` ADD COLUMN `m` int;",
        ])
    );
}

#[test]
fn a_refused_statement_or_row_does_not_end_the_run() {
    assert_eq!(disposition(Failure::Statement), Disposition::Continue);
    assert_eq!(disposition(Failure::Insert), Disposition::Continue);
}

#[test]
fn every_other_failure_ends_the_run() {
    assert_eq!(disposition(Failure::UnreadableLine), Disposition::Abort);
    assert_eq!(disposition(Failure::InvalidText), Disposition::Abort);
    assert_eq!(disposition(Failure::Source), Disposition::Abort);
    assert_eq!(disposition(Failure::Other), Disposition::Abort);
}

#[test]
fn a_bad_statement_leaves_the_later_ones_in_the_plan() {
    let dump = lines(&["INSERT INTO missing VALUES (1);", "THIS IS NOT SQL;", "INSERT INTO t VALUES (2);"]);
    assert_eq!(convert_dump(&dump), dump);
}

#[test]
fn the_switches_set_the_level_of_reporting() {
    assert_eq!(verbosity(0, false), Verbosity::Info);
    assert_eq!(verbosity(1, false), Verbosity::Debug);
    assert_eq!(verbosity(2, false), Verbosity::Trace);
    assert_eq!(verbosity(255, false), Verbosity::Trace);
    assert_eq!(verbosity(0, true), Verbosity::Error);
    assert_eq!(verbosity(3, true), Verbosity::Error);
}
