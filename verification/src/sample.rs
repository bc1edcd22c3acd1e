//! A synthetic result of many rows, shown when the user runs `test 100k`, to
//! exercise the results grid without a database.

use std::sync::Arc;

use vstd::prelude::*;

use crate::state::{rows_view, row_view, cell_view, strings_view, PagedTableData, CHUNK_SIZE};
use crate::text::{decimal, push_decimal, push_zero_padded, zero_padded, all_ascii_digits, digits_value, lemma_decimal_denotes, lemma_zero_padded};

verus! {

/// The number of rows of the synthetic result.
pub const SAMPLE_ROWS: u64 = 100000;

/// The `value` cell of row `i`: `i × 1.337` written with four decimals.
/// `i × 1.337` is `i × 1337 / 1000`, which has at most three decimals, so the
/// fourth is always `0`.
pub open spec fn sample_value(i: nat) -> Seq<char> {
    decimal(i * 1337 / 1000) + seq!['.'] + zero_padded((i * 1337 % 1000) * 10, 4)
}

/// The `value` cell of row `i` is `i × 1.337` with four decimals: digits,
/// a point, then four digits, and read as a number with four decimals it is
/// exactly `i × 1.337` (`i × 13370` ten-thousandths).
pub proof fn lemma_sample_value(i: nat)
    ensures
        ({
            let v = sample_value(i);
            let k = decimal(i * 1337 / 1000).len() as int;
            &&& v.len() == k + 5
            &&& v[k] == '.'
            &&& all_ascii_digits(v.subrange(0, k))
            &&& all_ascii_digits(v.subrange(k + 1, k + 5))
            &&& digits_value(v.subrange(0, k)) * 10000 + digits_value(v.subrange(k + 1, k + 5)) == i * 13370
        }),
{
    let q = i * 1337 / 1000;
    let r = i * 1337 % 1000;
    lemma_decimal_denotes(q);
    lemma_zero_padded(r * 10, 4);
    lemma_decimal_denotes(r * 10);
    assert(r * 10 < 10000);
    assert(decimal(r * 10).len() <= 4) by {
        reveal_with_fuel(pow10, 5);
        assert(pow10(4) == 10000);
        lemma_decimal_len_bound(r * 10, 4);
    }
    let v = sample_value(i);
    let k = decimal(q).len() as int;
    let z = zero_padded(r * 10, 4);
    assert(z.len() == 4);
    assert(v =~= decimal(q) + seq!['.'] + z);
    assert(v.subrange(0, k) =~= decimal(q));
    assert(v.subrange(k + 1, k + 5) =~= z);
    assert(q * 1000 + r == i * 1337) by (nonlinear_arith)
        requires q == i * 1337 / 1000, r == i * 1337 % 1000;
    assert(q * 10000 + r * 10 == i * 13370) by (nonlinear_arith)
        requires q * 1000 + r == i * 1337;
}

proof fn lemma_decimal_len_bound(n: nat, digits: nat)
    requires
        digits >= 1,
        n < pow10(digits),
    ensures
        decimal(n).len() <= digits,
    decreases digits,
{
    if n >= 10 {
        assert(n / 10 < pow10((digits - 1) as nat)) by (nonlinear_arith)
            requires n < pow10(digits), digits >= 1, pow10(digits) == 10 * pow10((digits - 1) as nat), n >= 10;
        assert(digits >= 2) by {
            if digits == 1 {
                assert(pow10(1) == 10 * pow10(0));
            }
        }
        lemma_decimal_len_bound(n / 10, (digits - 1) as nat);
    }
}

spec fn pow10(k: nat) -> nat
    decreases k,
{
    if k == 0 { 1 } else { 10 * pow10((k - 1) as nat) }
}

/// The `created_at` cell of row `i`: a 2024 date whose month cycles through
/// 1..=12 and whose day cycles through 1..=28.
pub open spec fn sample_date(i: nat) -> Seq<char> {
    "2024-"@ + zero_padded(i % 12 + 1, 2) + "-"@ + zero_padded(i % 28 + 1, 2)
}

/// Row `i` of the synthetic result: id, name (NULL every 50th row), value,
/// status (`active` every third row) and creation date.
pub open spec fn sample_row(i: nat) -> Seq<Option<Seq<char>>> {
    seq![
        Some(decimal(i)),
        if i % 50 == 0 { None } else { Some("Item "@ + decimal(i)) },
        Some(sample_value(i)),
        Some(if i % 3 == 0 { "active"@ } else { "inactive"@ }),
        Some(sample_date(i)),
    ]
}

/// Row `i` of the synthetic result: its id is `i`, its name is NULL
/// exactly on every 50th row and `Item <i>` otherwise, its status is
/// `active` exactly on every third row, and its date is in 2024 with a month
/// and day that cycle through 1..=12 and 1..=28.
pub proof fn lemma_sample_row(i: nat)
    ensures
        sample_row(i).len() == 5,
        sample_row(i)[0] == Some(decimal(i)),
        sample_row(i)[1] is None <==> i % 50 == 0,
        i % 50 != 0 ==> sample_row(i)[1] == Some("Item "@ + decimal(i)),
        sample_row(i)[2] == Some(sample_value(i)),
        sample_row(i)[3] == Some(if i % 3 == 0 { "active"@ } else { "inactive"@ }),
        sample_row(i)[4] == Some("2024-"@ + zero_padded(i % 12 + 1, 2) + "-"@ + zero_padded(i % 28 + 1, 2)),
{
}

/// Whether `p` is the synthetic result: its columns and types, `SAMPLE_ROWS`
/// rows given by `sample_row`, no query to page through, and everything
/// loaded.
pub open spec fn is_sample_data(p: PagedTableData) -> bool {
    &&& strings_view(p.columns@) == seq!["id"@, "name"@, "value"@, "status"@, "created_at"@]
    &&& strings_view(p.column_types@) == seq!["int8"@, "text"@, "float8"@, "text"@, "date"@]
    &&& rows_view(p.rows@) == Seq::new(SAMPLE_ROWS as nat, |k: int| sample_row(k as nat))
    &&& p.query@ == Seq::<char>::empty()
    &&& p.chunk_size == CHUNK_SIZE
    &&& p.all_loaded
    &&& !p.loading_next
}

fn text(s: &str) -> (t: String)
    ensures
        t@ == s@,
{
    String::from_str(s)
}

fn sample_row_cells(i: u64) -> (r: Vec<Option<String>>)
    requires
        i < SAMPLE_ROWS,
    ensures
        row_view(r) == sample_row(i as nat),
{
    proof {
        reveal_strlit("Item ");
        reveal_strlit(".");
        reveal_strlit("active");
        reveal_strlit("inactive");
        reveal_strlit("2024-");
        reveal_strlit("-");
    }
    let mut id = String::new();
    push_decimal(&mut id, i);
    let name = if i % 50 == 0 {
        None
    } else {
        let mut n = text("Item ");
        push_decimal(&mut n, i);
        Some(n)
    };
    let scaled: u64 = i * 1337;
    let mut value = String::new();
    push_decimal(&mut value, scaled / 1000);
    value.append(".");
    push_zero_padded(&mut value, (scaled % 1000) * 10, 4);
    let status = if i % 3 == 0 { text("active") } else { text("inactive") };
    let mut date = text("2024-");
    push_zero_padded(&mut date, i % 12 + 1, 2);
    date.append("-");
    push_zero_padded(&mut date, i % 28 + 1, 2);
    let ghost gname = if i % 50 == 0 { None } else { Some("Item "@ + decimal(i as nat)) };
    assert(cell_view(name) == gname);
    assert(value@ =~= sample_value(i as nat));
    assert(date@ =~= sample_date(i as nat));
    let mut r: Vec<Option<String>> = Vec::new();
    r.push(Some(id));
    r.push(name);
    r.push(Some(value));
    r.push(Some(status));
    r.push(Some(date));
    assert(row_view(r) =~= sample_row(i as nat));
    r
}

/// The synthetic result shown for the `test 100k` query.
pub fn sample_data() -> (p: PagedTableData)
    ensures
        is_sample_data(p),
{
    let columns = vec![text("id"), text("name"), text("value"), text("status"), text("created_at")];
    let column_types = vec![text("int8"), text("text"), text("float8"), text("text"), text("date")];
    assert(strings_view(columns@) =~= seq!["id"@, "name"@, "value"@, "status"@, "created_at"@]);
    assert(strings_view(column_types@) =~= seq!["int8"@, "text"@, "float8"@, "text"@, "date"@]);
    let mut rows: Vec<Vec<Option<String>>> = Vec::new();
    let mut i: u64 = 0;
    while i < SAMPLE_ROWS
        invariant
            i <= SAMPLE_ROWS,
            rows_view(rows@) == Seq::new(i as nat, |k: int| sample_row(k as nat)),
        decreases SAMPLE_ROWS - i,
    {
        let ghost before = rows@;
        let r = sample_row_cells(i);
        rows.push(r);
        assert(rows_view(rows@) =~= rows_view(before).push(row_view(r)));
        assert(rows_view(rows@) =~= Seq::new((i + 1) as nat, |k: int| sample_row(k as nat)));
        i = i + 1;
    }
    PagedTableData {
        columns,
        column_types,
        query: String::new(),
        rows: Arc::new(rows),
        chunk_size: CHUNK_SIZE,
        all_loaded: true,
        loading_next: false,
    }
}

} // verus!
