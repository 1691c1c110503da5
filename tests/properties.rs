use a11y_tree::properties::{property_table, shown_text, shown_value, NO_VALUE};

#[test]
fn shown_text_cases() {
    assert_eq!(shown_text(Ok("Calculator".to_string())), "Calculator");
    assert_eq!(shown_text(Ok(String::new())), "--- No value ---");
    assert_eq!(shown_text(Ok(String::new())), NO_VALUE);
    assert_eq!(shown_text(Err("timeout".to_string())), "Error: timeout");
}

#[test]
fn shown_value_keeps_empty() {
    assert_eq!(shown_value(Ok(String::new())), "");
    assert_eq!(shown_value(Ok("3".to_string())), "3");
    assert_eq!(shown_value(Err("gone".to_string())), "Error: gone");
}

#[test]
fn table_layout() {
    let rows = vec![
        ("Name:".to_string(), "Calc".to_string()),
        ("Child count:".to_string(), "3".to_string()),
    ];
    let lines = property_table(&rows);
    assert_eq!(
        lines,
        vec![
            "+--------------+------+",
            "| Name:        | Calc |",
            "| Child count: | 3    |",
            "+--------------+------+",
        ]
    );
}

#[test]
fn table_of_no_rows() {
    assert_eq!(property_table(&Vec::new()), vec!["+--+--+", "+--+--+"]);
}
