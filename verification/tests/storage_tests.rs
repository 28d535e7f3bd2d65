use mysql2sqlite::storage::map_type;
use mysql2sqlite::storage::StorageClass;

#[test]
fn the_named_types_map_as_stated() {
    assert_eq!(map_type("INT(11)", true), StorageClass::Integer);
    assert_eq!(map_type("INT(11)", false), StorageClass::Integer);
    assert_eq!(map_type("VARCHAR(255)", true), StorageClass::Text);
    assert_eq!(map_type("VARCHAR(255)", false), StorageClass::Text);
    assert_eq!(map_type("JSON", true), StorageClass::Text);
    assert_eq!(map_type("JSON", false), StorageClass::Blob);
    assert_eq!(map_type("DATETIME", true), StorageClass::Blob);
    assert_eq!(map_type("DATETIME", false), StorageClass::Blob);
}

#[test]
fn the_mapping_ignores_case() {
    assert_eq!(map_type("int(11)", false), StorageClass::Integer);
    assert_eq!(map_type("Int", false), StorageClass::Integer);
    assert_eq!(map_type("varchar(20)", false), StorageClass::Text);
    assert_eq!(map_type("text", false), StorageClass::Text);
    assert_eq!(map_type("TEXT", false), StorageClass::Text);
    assert_eq!(map_type("json", true), StorageClass::Text);
    assert_eq!(map_type("Json", false), StorageClass::Blob);
}

#[test]
fn only_the_beginning_of_the_name_counts() {
    assert_eq!(map_type("integer", false), StorageClass::Integer);
    assert_eq!(map_type("int unsigned", false), StorageClass::Integer);
    assert_eq!(map_type("interval", false), StorageClass::Integer);
    assert_eq!(map_type("textual", false), StorageClass::Text);
    assert_eq!(map_type("jsonb", true), StorageClass::Text);
}

#[test]
fn what_is_not_recognised_is_a_blob() {
    for name in [
        "bigint(20)",
        "tinyint(1)",
        "smallint",
        "mediumtext",
        "longtext",
        "char(3)",
        "decimal(10,2)",
        "double",
        "blob",
        "date",
        "timestamp",
        "enum('a','b')",
        "",
        " int",
        "in",
    ] {
        assert_eq!(map_type(name, true), StorageClass::Blob, "{:?}", name);
        assert_eq!(map_type(name, false), StorageClass::Blob, "{:?}", name);
    }
}

#[test]
fn the_same_name_always_maps_the_same() {
    for name in ["INT(11)", "VARCHAR(255)", "JSON", "DATETIME", ""] {
        for flag in [true, false] {
            assert_eq!(map_type(name, flag), map_type(name, flag));
        }
    }
}

#[test]
fn storage_classes_are_written_as_sql() {
    assert_eq!(StorageClass::Integer.keyword(), "INTEGER");
    assert_eq!(StorageClass::Text.keyword(), "TEXT");
    assert_eq!(StorageClass::Blob.keyword(), "BLOB");
}
