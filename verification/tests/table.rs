use envcounter::table::{decimal, render_table, TableItem};

fn item(name: Option<&str>, kind: Option<&str>, v: Option<i64>, st: Option<i64>, i: Option<i64>) -> TableItem {
    TableItem {
        name: name.map(|x| x.to_string()),
        kind: kind.map(|x| x.to_string()),
        value: v,
        step: st,
        initial: i,
    }
}

#[test]
fn decimal_matches_display() {
    for n in [0i64, 7, 10, -1, -10, 1234567890, i64::MAX, i64::MIN, i64::MIN + 1] {
        assert_eq!(decimal(n), format!("{}", n));
    }
}

#[test]
fn table_of_nothing() {
    assert_eq!(render_table(&vec![]), vec!["(no pools)".to_string()]);
}

#[test]
fn table_pads_columns() {
    let items = vec![
        item(Some("requests"), Some("counter"), Some(3), Some(1), Some(0)),
        item(Some("ids"), Some("uuid"), None, None, None),
    ];
    assert_eq!(render_table(&items), vec![
        "NAME      TYPE     DETAILS".to_string(),
        "requests  counter  value=3 step=1 initial=0".to_string(),
        "ids       uuid     -".to_string(),
    ]);
}

#[test]
fn table_short_names_keep_heading_width() {
    let items = vec![item(Some("a"), Some("uuid"), None, None, None)];
    assert_eq!(render_table(&items), vec![
        "NAME  TYPE  DETAILS".to_string(),
        "a     uuid  -".to_string(),
    ]);
}

#[test]
fn table_fills_missing_fields() {
    let items = vec![
        item(None, Some("counter"), None, Some(-5), None),
        item(Some("x"), None, Some(1), None, None),
    ];
    assert_eq!(render_table(&items), vec![
        "NAME  TYPE     DETAILS".to_string(),
        "?     counter  value=0 step=-5 initial=0".to_string(),
        "x     ?        -".to_string(),
    ]);
}

#[test]
fn table_width_follows_byte_length_as_format_does() {
    let items = vec![
        item(Some("zähler"), Some("counter"), Some(1), Some(1), Some(1)),
        item(Some("b"), Some("uuid"), None, None, None),
    ];
    let name_w = "zähler".len();
    let type_w = "counter".len();
    let want = vec![
        format!("{:<name_w$}  {:<type_w$}  {}", "NAME", "TYPE", "DETAILS"),
        format!("{:<name_w$}  {:<type_w$}  {}", "zähler", "counter", "value=1 step=1 initial=1"),
        format!("{:<name_w$}  {:<type_w$}  {}", "b", "uuid", "-"),
    ];
    assert_eq!(render_table(&items), want);
}
