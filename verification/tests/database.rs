use csv_db::Database;

#[test]
fn new_uses_the_default_extension() {
    let db = Database::new("data", None);
    assert_eq!(db.extension(), "csv");
}

#[test]
fn new_keeps_a_given_extension() {
    let db = Database::new("data", Some("tsv"));
    assert_eq!(db.extension(), "tsv");
}

#[test]
fn new_keeps_an_empty_extension() {
    let db = Database::new("data", Some(""));
    assert_eq!(db.extension(), "");
}

#[test]
fn new_keeps_the_path() {
    let db = Database::new(String::from("some/folder"), None);
    assert_eq!(db.path(), "some/folder");
    let db = Database::new(17u32, Some("txt"));
    assert_eq!(*db.path(), 17);
}

#[test]
fn file_name_is_name_dot_extension() {
    let db = Database::new("data", None);
    assert_eq!(db.file_name("users"), "users.csv");
    assert_eq!(db.file_name("orders"), "orders.csv");
}

#[test]
fn file_name_uses_the_given_extension() {
    let db = Database::new("data", Some("txt"));
    assert_eq!(db.file_name("users"), "users.txt");
}

#[test]
fn file_name_of_edge_names() {
    let db = Database::new("data", None);
    assert_eq!(db.file_name(""), ".csv");
    assert_eq!(db.file_name("a.b"), "a.b.csv");
    assert_eq!(db.file_name("nested/users"), "nested/users.csv");
    let bare = Database::new("data", Some(""));
    assert_eq!(bare.file_name("users"), "users.");
}

#[test]
fn file_name_keeps_non_ascii_names() {
    let db = Database::new("data", Some("données"));
    assert_eq!(db.file_name("größe"), "größe.données");
}

#[test]
fn file_name_does_not_depend_on_the_path() {
    let here = Database::new("here", None);
    let there = Database::new("there", None);
    assert_eq!(here.file_name("users"), there.file_name("users"));
}
