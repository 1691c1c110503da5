//! The property table of one accessible object: how each fetched value is
//! shown, and how label/value rows are laid out in a bordered table.
use vstd::prelude::*;

verus! {

/// Shown in place of an empty text property.
pub const NO_VALUE: &'static str = "--- No value ---";

/// Shown before the message of a failed fetch.
pub const ERROR_PREFIX: &'static str = "Error: ";

/// How a fetched text property is shown: the text itself, the placeholder
/// for an empty text, or the failure's message after the error prefix.
pub open spec fn shown_text_spec(fetched: Result<Seq<char>, Seq<char>>) -> Seq<char> {
    match fetched {
        Ok(t) => if t.len() == 0 { NO_VALUE@ } else { t },
        Err(e) => ERROR_PREFIX@ + e,
    }
}

pub open spec fn result_view(r: Result<String, String>) -> Result<Seq<char>, Seq<char>> {
    match r {
        Ok(t) => Ok(t@),
        Err(e) => Err(e@),
    }
}

/// Shows a fetched text property; `Err` holds the failure's message.
pub fn shown_text(fetched: Result<String, String>) -> (r: String)
    ensures
        r@ == shown_text_spec(result_view(fetched)),
{
    match fetched {
        Ok(t) => if t.as_str().is_empty() {
            String::from_str(NO_VALUE)
        } else {
            t
        },
        Err(e) => shown_failure(e),
    }
}

/// Shows a property that has no placeholder; `Err` holds the failure's message.
pub fn shown_value(fetched: Result<String, String>) -> (r: String)
    ensures
        fetched matches Ok(t) ==> r@ == t@,
        fetched matches Err(e) ==> r@ == ERROR_PREFIX@ + e@,
{
    match fetched {
        Ok(t) => t,
        Err(e) => shown_failure(e),
    }
}

fn shown_failure(e: String) -> (r: String)
    ensures
        r@ == ERROR_PREFIX@ + e@,
{
    let mut s = String::from_str(ERROR_PREFIX);
    s.append(e.as_str());
    s
}

/// The widest label (or value) among the first `k` rows.
pub open spec fn width_upto(rows: Seq<(String, String)>, label: bool, k: int) -> nat
    decreases k,
{
    if k <= 0 || k > rows.len() {
        0
    } else {
        let w = if label { rows[k - 1].0@.len() } else { rows[k - 1].1@.len() };
        let m = width_upto(rows, label, k - 1);
        if w > m { w } else { m }
    }
}

pub open spec fn width(rows: Seq<(String, String)>, label: bool) -> nat {
    width_upto(rows, label, rows.len() as int)
}

pub open spec fn repeated(c: char, n: nat) -> Seq<char> {
    Seq::new(n, |i: int| c)
}

/// `s` padded with spaces on the right to `w` characters.
pub open spec fn padded(s: Seq<char>, w: nat) -> Seq<char> {
    if s.len() >= w { s } else { s + repeated(' ', (w - s.len()) as nat) }
}

/// The border line for columns `lw` and `vw` wide.
pub open spec fn border(lw: nat, vw: nat) -> Seq<char> {
    seq!['+'] + repeated('-', lw + 2) + seq!['+'] + repeated('-', vw + 2) + seq!['+']
}

/// The line of one row.
pub open spec fn row_line(label: Seq<char>, value: Seq<char>, lw: nat, vw: nat) -> Seq<char> {
    seq!['|', ' '] + padded(label, lw) + seq![' ', '|', ' '] + padded(value, vw) + seq![' ', '|']
}

/// The table's lines: a border, one line per row in order, a border.
pub open spec fn table_spec(rows: Seq<(String, String)>) -> Seq<Seq<char>> {
    let lw = width(rows, true);
    let vw = width(rows, false);
    seq![border(lw, vw)] + Seq::new(rows.len(), |i: int| row_line(rows[i].0@, rows[i].1@, lw, vw))
        + seq![border(lw, vw)]
}

fn column_width(rows: &Vec<(String, String)>, label: bool) -> (w: usize)
    ensures
        w == width(rows@, label),
{
    let mut w: usize = 0;
    let mut i: usize = 0;
    while i < rows.len()
        invariant
            i <= rows@.len(),
            w == width_upto(rows@, label, i as int),
        decreases rows@.len() - i,
    {
        let n = if label {
            rows[i].0.as_str().unicode_len()
        } else {
            rows[i].1.as_str().unicode_len()
        };
        if n > w {
            w = n;
        }
        i = i + 1;
    }
    w
}

fn append_repeated(s: &mut String, c: &str, n: usize)
    requires
        c@.len() == 1,
    ensures
        final(s)@ == old(s)@ + repeated(c@[0], n as nat),
{
    let mut i: usize = 0;
    while i < n
        invariant
            c@.len() == 1,
            i <= n,
            s@ == old(s)@ + repeated(c@[0], i as nat),
        decreases n - i,
    {
        s.append(c);
        i = i + 1;
        assert(s@ =~= old(s)@ + repeated(c@[0], i as nat));
    }
}

fn border_line(lw: usize, vw: usize) -> (r: String)
    ensures
        r@ == border(lw as nat, vw as nat),
{
    proof {
        reveal_strlit("+");
        reveal_strlit("-");
    }
    let mut s = String::from_str("+");
    append_repeated(&mut s, "-", lw);
    append_repeated(&mut s, "-", 2);
    s.append("+");
    append_repeated(&mut s, "-", vw);
    append_repeated(&mut s, "-", 2);
    s.append("+");
    assert(s@ =~= border(lw as nat, vw as nat));
    s
}

fn append_padded(s: &mut String, t: &String, w: usize)
    ensures
        final(s)@ == old(s)@ + padded(t@, w as nat),
{
    proof {
        reveal_strlit(" ");
    }
    s.append(t.as_str());
    let n = t.as_str().unicode_len();
    if n < w {
        append_repeated(s, " ", w - n);
    }
    assert(final(s)@ =~= old(s)@ + padded(t@, w as nat));
}

fn row_text(label: &String, value: &String, lw: usize, vw: usize) -> (r: String)
    ensures
        r@ == row_line(label@, value@, lw as nat, vw as nat),
{
    proof {
        reveal_strlit("| ");
        reveal_strlit(" | ");
        reveal_strlit(" |");
    }
    let mut s = String::from_str("| ");
    append_padded(&mut s, label, lw);
    s.append(" | ");
    append_padded(&mut s, value, vw);
    s.append(" |");
    assert(s@ =~= row_line(label@, value@, lw as nat, vw as nat));
    s
}

/// Lays out label/value rows as a table: each column as wide as its widest
/// entry, every entry padded to that width, a border above and below.
pub fn property_table(rows: &Vec<(String, String)>) -> (lines: Vec<String>)
    ensures
        lines@.len() == rows@.len() + 2,
        forall|i: int| 0 <= i < lines@.len() ==> #[trigger] lines@[i]@ == table_spec(rows@)[i],
{
    let lw = column_width(rows, true);
    let vw = column_width(rows, false);
    let mut lines: Vec<String> = Vec::new();
    lines.push(border_line(lw, vw));
    let mut i: usize = 0;
    while i < rows.len()
        invariant
            i <= rows@.len(),
            lw == width(rows@, true),
            vw == width(rows@, false),
            lines@.len() == i + 1,
            forall|j: int| 0 <= j < lines@.len() ==> #[trigger] lines@[j]@ == table_spec(rows@)[j],
        decreases rows@.len() - i,
    {
        let line = row_text(&rows[i].0, &rows[i].1, lw, vw);
        lines.push(line);
        i = i + 1;
    }
    lines.push(border_line(lw, vw));
    lines
}

} // verus!
