use vstd::prelude::*;
use vstd::string::*;
use vstd::utf8::encode_utf8;

verus! {

/// One element of a listing as the client received it; a field is `None`
/// where the element lacks it or holds a value of another type.
#[derive(Debug, PartialEq, Eq)]
pub struct TableItem {
    pub name: Option<String>,
    pub kind: Option<String>,
    pub value: Option<i64>,
    pub step: Option<i64>,
    pub initial: Option<i64>,
}

/// The character of decimal digit `d`.
pub open spec fn digit_char(d: int) -> char {
    (d + 48) as char
}

/// The decimal digits of `m`, without leading zeros.
pub open spec fn digits_text(m: nat) -> Seq<char>
    decreases m,
{
    if m < 10 {
        seq![digit_char(m as int)]
    } else {
        digits_text(m / 10) + seq![digit_char((m % 10) as int)]
    }
}

/// `n` written in decimal, with a leading `-` when negative.
pub open spec fn decimal_text(n: int) -> Seq<char> {
    if n < 0 {
        seq!['-'] + digits_text((-n) as nat)
    } else {
        digits_text(n as nat)
    }
}

/// The number of bytes of the UTF-8 encoding of `s`.
pub open spec fn byte_len(s: Seq<char>) -> nat {
    encode_utf8(s).len()
}

pub open spec fn name_cell(it: TableItem) -> Seq<char> {
    match it.name {
        Some(s) => s@,
        None => "?"@,
    }
}

pub open spec fn kind_cell(it: TableItem) -> Seq<char> {
    match it.kind {
        Some(s) => s@,
        None => "?"@,
    }
}

/// `value=.. step=.. initial=..` for a counter (0 where a number is
/// missing), `-` for anything else.
pub open spec fn details_cell(it: TableItem) -> Seq<char> {
    if kind_cell(it) == "counter"@ {
        "value="@ + decimal_text(it.value.unwrap_or(0) as int) + " step="@ + decimal_text(
            it.step.unwrap_or(0) as int,
        ) + " initial="@ + decimal_text(it.initial.unwrap_or(0) as int)
    } else {
        "-"@
    }
}

/// The width of a column: the longest cell in bytes, at least 4 (the
/// width of its heading).
pub open spec fn column_width(cells: Seq<Seq<char>>) -> nat
    decreases cells.len(),
{
    if cells.len() == 0 {
        4
    } else {
        let w = column_width(cells.drop_last());
        let b = byte_len(cells.last());
        if b > w {
            b
        } else {
            w
        }
    }
}

/// `s` followed by spaces up to `width` characters.
pub open spec fn padded(s: Seq<char>, width: nat) -> Seq<char> {
    if s.len() < width {
        s + Seq::new((width - s.len()) as nat, |i: int| ' ')
    } else {
        s
    }
}

pub open spec fn table_line(
    a: Seq<char>,
    b: Seq<char>,
    c: Seq<char>,
    name_width: nat,
    type_width: nat,
) -> Seq<char> {
    padded(a, name_width) + "  "@ + padded(b, type_width) + "  "@ + c
}

/// The lines of a listing printed as a table: a heading, then one line
/// per element, the first two columns padded to a common width.
pub open spec fn table_lines(items: Seq<TableItem>) -> Seq<Seq<char>> {
    if items.len() == 0 {
        seq!["(no pools)"@]
    } else {
        let nw = column_width(items.map_values(|it: TableItem| name_cell(it)));
        let tw = column_width(items.map_values(|it: TableItem| kind_cell(it)));
        seq![table_line("NAME"@, "TYPE"@, "DETAILS"@, nw, tw)] + items.map_values(
            |it: TableItem| table_line(name_cell(it), kind_cell(it), details_cell(it), nw, tw),
        )
    }
}

/// The width of a column is at least 4 and at least the byte length of
/// every cell in it, and it is 4 or the byte length of one of its cells:
/// the widest cell decides.
pub proof fn column_width_is_widest_cell(cells: Seq<Seq<char>>)
    ensures
        column_width(cells) >= 4,
        forall|i: int| 0 <= i < cells.len() ==> column_width(cells) >= byte_len(#[trigger] cells[i]),
        column_width(cells) == 4 || exists|i: int|
            0 <= i < cells.len() && column_width(cells) == byte_len(#[trigger] cells[i]),
    decreases cells.len(),
{
    if cells.len() > 0 {
        let init = cells.drop_last();
        column_width_is_widest_cell(init);
        assert forall|i: int| 0 <= i < cells.len() implies column_width(cells) >= byte_len(
            #[trigger] cells[i],
        ) by {
            if i < cells.len() - 1 {
                assert(cells[i] == init[i]);
            }
        }
        if column_width(cells) != 4 {
            if column_width(cells) == byte_len(cells.last()) {
                assert(cells[cells.len() - 1] == cells.last());
            } else {
                let i = choose|i: int|
                    0 <= i < init.len() && column_width(init) == byte_len(#[trigger] init[i]);
                assert(cells[i] == init[i]);
            }
        }
    }
}

/// In a table, every line is laid out with the same two column widths, each
/// at least as wide as the heading and as every cell of its column, and no
/// wider than needed.
pub proof fn table_columns_are_aligned(items: Seq<TableItem>)
    requires
        items.len() > 0,
    ensures
        exists|nw: nat, tw: nat|
            {
                &&& nw >= 4 && tw >= 4
                &&& forall|j: int|
                    0 <= j < items.len() ==> nw >= byte_len(name_cell(#[trigger] items[j])) && tw
                        >= byte_len(kind_cell(items[j]))
                &&& (nw == 4 || exists|j: int|
                    0 <= j < items.len() && nw == byte_len(name_cell(#[trigger] items[j])))
                &&& (tw == 4 || exists|j: int|
                    0 <= j < items.len() && tw == byte_len(kind_cell(#[trigger] items[j])))
                &&& table_lines(items).len() == items.len() + 1
                &&& table_lines(items)[0] == table_line("NAME"@, "TYPE"@, "DETAILS"@, nw, tw)
                &&& forall|j: int|
                    0 <= j < items.len() ==> table_lines(items)[j + 1] == table_line(
                        name_cell(#[trigger] items[j]),
                        kind_cell(items[j]),
                        details_cell(items[j]),
                        nw,
                        tw,
                    )
            },
{
    let names = items.map_values(|it: TableItem| name_cell(it));
    let kinds = items.map_values(|it: TableItem| kind_cell(it));
    let nw = column_width(names);
    let tw = column_width(kinds);
    column_width_is_widest_cell(names);
    column_width_is_widest_cell(kinds);
    assert forall|j: int| 0 <= j < items.len() implies nw >= byte_len(
        name_cell(#[trigger] items[j]),
    ) && tw >= byte_len(kind_cell(items[j])) by {
        assert(names[j] == name_cell(items[j]));
        assert(kinds[j] == kind_cell(items[j]));
    }
    if nw != 4 {
        let j = choose|j: int| 0 <= j < names.len() && nw == byte_len(#[trigger] names[j]);
        assert(names[j] == name_cell(items[j]));
    }
    if tw != 4 {
        let j = choose|j: int| 0 <= j < kinds.len() && tw == byte_len(#[trigger] kinds[j]);
        assert(kinds[j] == kind_cell(items[j]));
    }
    assert forall|j: int| 0 <= j < items.len() implies table_lines(items)[j + 1] == table_line(
        name_cell(#[trigger] items[j]),
        kind_cell(items[j]),
        details_cell(items[j]),
        nw,
        tw,
    ) by {}
}

fn digit_str(d: u64) -> (s: &'static str)
    requires
        d < 10,
    ensures
        s@ == seq![digit_char(d as int)],
{
    proof {
        reveal_strlit("0");
        reveal_strlit("1");
        reveal_strlit("2");
        reveal_strlit("3");
        reveal_strlit("4");
        reveal_strlit("5");
        reveal_strlit("6");
        reveal_strlit("7");
        reveal_strlit("8");
        reveal_strlit("9");
    }
    if d == 0 {
        "0"
    } else if d == 1 {
        "1"
    } else if d == 2 {
        "2"
    } else if d == 3 {
        "3"
    } else if d == 4 {
        "4"
    } else if d == 5 {
        "5"
    } else if d == 6 {
        "6"
    } else if d == 7 {
        "7"
    } else if d == 8 {
        "8"
    } else {
        "9"
    }
}

fn digits_of(m: u64) -> (s: String)
    ensures
        s@ == digits_text(m as nat),
    decreases m,
{
    if m < 10 {
        digit_str(m).to_owned()
    } else {
        let mut s = digits_of(m / 10);
        s.append(digit_str(m % 10));
        s
    }
}

/// `n` in decimal, as `format!("{}", n)` writes it.
pub fn decimal(n: i64) -> (s: String)
    ensures
        s@ == decimal_text(n as int),
{
    if n < 0 {
        let magnitude: u64 = if n == i64::MIN {
            9223372036854775808u64
        } else {
            (-n) as u64
        };
        let mut s = "-".to_owned();
        proof {
            reveal_strlit("-");
        }
        s.append(digits_of(magnitude).as_str());
        s
    } else {
        digits_of(n as u64)
    }
}

fn text_or_unknown(s: &Option<String>) -> (r: String)
    ensures
        r@ == match *s {
            Some(t) => t@,
            None => "?"@,
        },
{
    match s {
        Some(t) => t.clone(),
        None => "?".to_owned(),
    }
}

fn details_of(it: &TableItem, kind: &String) -> (r: String)
    requires
        kind@ == kind_cell(*it),
    ensures
        r@ == details_cell(*it),
{
    if *kind == "counter".to_owned() {
        let mut r = "value=".to_owned();
        r.append(decimal(it.value.unwrap_or(0)).as_str());
        r.append(" step=");
        r.append(decimal(it.step.unwrap_or(0)).as_str());
        r.append(" initial=");
        r.append(decimal(it.initial.unwrap_or(0)).as_str());
        r
    } else {
        "-".to_owned()
    }
}

/// The width of a column made of `cells`.
fn width_of(cells: &Vec<String>) -> (w: usize)
    ensures
        w == column_width(cells@.map_values(|s: String| s@)),
        w >= 4,
        forall|i: int| 0 <= i < cells@.len() ==> w >= byte_len(#[trigger] cells@[i]@),
        w == 4 || exists|i: int| 0 <= i < cells@.len() && w == byte_len(#[trigger] cells@[i]@),
{
    let ghost all = cells@.map_values(|s: String| s@);
    let mut w: usize = 4;
    let mut i: usize = 0;
    while i < cells.len()
        invariant
            i <= cells@.len(),
            all == cells@.map_values(|s: String| s@),
            w == column_width(all.take(i as int)),
        decreases cells@.len() - i,
    {
        let b = cells[i].as_str().as_bytes().len();
        proof {
            assert(all.take(i + 1).drop_last() =~= all.take(i as int));
            assert(all.take(i + 1).last() == cells@[i as int]@);
        }
        if b > w {
            w = b;
        }
        i = i + 1;
    }
    proof {
        assert(all.take(cells@.len() as int) =~= all);
        column_width_is_widest_cell(all);
        assert forall|i: int| 0 <= i < cells@.len() implies w >= byte_len(#[trigger] cells@[i]@) by {
            assert(all[i] == cells@[i]@);
        }
        if w != 4 {
            let i = choose|i: int| 0 <= i < all.len() && w == byte_len(#[trigger] all[i]);
            assert(all[i] == cells@[i]@);
        }
    }
    w
}

/// `s` followed by spaces up to `width` characters.
fn pad(s: &String, width: usize) -> (r: String)
    ensures
        r@ == padded(s@, width as nat),
{
    let n = s.as_str().unicode_len();
    let mut r = s.clone();
    proof {
        reveal_strlit(" ");
    }
    if n < width {
        let mut k: usize = n;
        while k < width
            invariant
                n <= k <= width,
                n == s@.len(),
                r@ == s@ + Seq::new((k - n) as nat, |i: int| ' '),
            decreases width - k,
        {
            proof {
                reveal_strlit(" ");
            }
            r.append(" ");
            k = k + 1;
            assert(r@ =~= s@ + Seq::new((k - n) as nat, |i: int| ' '));
        }
    }
    r
}

fn line_of(a: &String, b: &String, c: &String, nw: usize, tw: usize) -> (r: String)
    ensures
        r@ == table_line(a@, b@, c@, nw as nat, tw as nat),
{
    let mut r = pad(a, nw);
    r.append("  ");
    r.append(pad(b, tw).as_str());
    r.append("  ");
    r.append(c.as_str());
    r
}

/// The lines that print a listing as a table.
pub fn render_table(items: &Vec<TableItem>) -> (lines: Vec<String>)
    ensures
        lines@.map_values(|s: String| s@) == table_lines(items@),
{
    if items.len() == 0 {
        let mut lines = Vec::new();
        lines.push("(no pools)".to_owned());
        assert(lines@.map_values(|s: String| s@) =~= table_lines(items@));
        return lines;
    }
    let ghost its = items@;
    let mut names: Vec<String> = Vec::new();
    let mut kinds: Vec<String> = Vec::new();
    let mut details: Vec<String> = Vec::new();
    let mut i: usize = 0;
    while i < items.len()
        invariant
            its == items@,
            i <= its.len(),
            names@.len() == i,
            kinds@.len() == i,
            details@.len() == i,
            forall|j: int| 0 <= j < i ==> #[trigger] names@[j]@ == name_cell(its[j]),
            forall|j: int| 0 <= j < i ==> #[trigger] kinds@[j]@ == kind_cell(its[j]),
            forall|j: int| 0 <= j < i ==> #[trigger] details@[j]@ == details_cell(its[j]),
        decreases its.len() - i,
    {
        let it = &items[i];
        let name = text_or_unknown(&it.name);
        let kind = text_or_unknown(&it.kind);
        let det = details_of(it, &kind);
        names.push(name);
        kinds.push(kind);
        details.push(det);
        i = i + 1;
    }
    assert(names@.map_values(|s: String| s@) =~= its.map_values(|it: TableItem| name_cell(it)));
    assert(kinds@.map_values(|s: String| s@) =~= its.map_values(|it: TableItem| kind_cell(it)));
    let nw = width_of(&names);
    let tw = width_of(&kinds);
    let mut lines: Vec<String> = Vec::new();
    let heading = line_of(&"NAME".to_owned(), &"TYPE".to_owned(), &"DETAILS".to_owned(), nw, tw);
    lines.push(heading);
    let mut j: usize = 0;
    while j < names.len()
        invariant
            names@.len() == its.len(),
            kinds@.len() == its.len(),
            details@.len() == its.len(),
            j <= its.len(),
            lines@.len() == j + 1,
            lines@[0]@ == table_line("NAME"@, "TYPE"@, "DETAILS"@, nw as nat, tw as nat),
            forall|k: int|
                0 <= k < j ==> #[trigger] lines@[k + 1]@ == table_line(
                    names@[k]@,
                    kinds@[k]@,
                    details@[k]@,
                    nw as nat,
                    tw as nat,
                ),
        decreases its.len() - j,
    {
        let l = line_of(&names[j], &kinds[j], &details[j], nw, tw);
        lines.push(l);
        j = j + 1;
    }
    proof {
        let want = table_lines(its);
        let got = lines@.map_values(|s: String| s@);
        assert(got.len() == want.len());
        assert forall|k: int| 0 <= k < got.len() implies got[k] == want[k] by {
            if k > 0 {
                assert(lines@[(k - 1) + 1]@ == table_line(
                    names@[k - 1]@,
                    kinds@[k - 1]@,
                    details@[k - 1]@,
                    nw as nat,
                    tw as nat,
                ));
            }
        }
        assert(got =~= want);
    }
    lines
}

} // verus!
