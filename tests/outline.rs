use a11y_tree::outline::{line_head, outline_rows, Branches};
use a11y_tree::tree::A11yNode;
use atspi::Role;

const ASCII: Branches = Branches { horizontal: '-', vertical: '|', connector: '+', end_connector: '`' };

fn leaf(role: Role) -> A11yNode {
    A11yNode { role, children: Vec::new() }
}

#[test]
fn line_head_root() {
    assert_eq!(line_head(ASCII, &vec![]), "-- ");
}

#[test]
fn line_head_columns() {
    assert_eq!(line_head(ASCII, &vec![false]), "+-- ");
    assert_eq!(line_head(ASCII, &vec![true]), "`-- ");
    assert_eq!(line_head(ASCII, &vec![false, true]), "|   `-- ");
    assert_eq!(line_head(ASCII, &vec![true, false]), "    +-- ");
}

#[test]
fn outline_rows_in_drawing_order() {
    let tree = A11yNode {
        role: Role::Frame,
        children: vec![
            A11yNode { role: Role::Panel, children: vec![leaf(Role::Label)] },
            leaf(Role::Button),
        ],
    };
    let rows = outline_rows(&tree);
    assert_eq!(
        rows,
        vec![
            (vec![], Role::Frame),
            (vec![false], Role::Panel),
            (vec![false, true], Role::Label),
            (vec![true], Role::Button),
        ]
    );
}

#[test]
fn outline_rows_of_deep_chain() {
    let mut tree = leaf(Role::Label);
    for _ in 0..999 {
        tree = A11yNode { role: Role::Panel, children: vec![tree] };
    }
    let rows = outline_rows(&tree);
    assert_eq!(rows.len(), 1000);
    assert_eq!(rows[999].0.len(), 999);
    assert_eq!(rows[999].1, Role::Label);
}
