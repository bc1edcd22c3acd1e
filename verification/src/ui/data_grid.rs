//! The results grid's footer line.

use vstd::prelude::*;

use crate::text::{decimal, push_decimal};

verus! {

/// The footer under the results grid: the row count and the lazy-load status.
/// While a page loads: `N rows — loading more…`; when everything is loaded:
/// `1 row` or `N rows`; otherwise `N rows — scroll for more`.
pub open spec fn footer(row_count: nat, loading_next: bool, all_loaded: bool) -> Seq<char> {
    if loading_next {
        decimal(row_count) + " rows \u{2014} loading more\u{2026}"@
    } else if all_loaded {
        decimal(row_count) + " row"@ + (if row_count == 1 { Seq::empty() } else { "s"@ })
    } else {
        decimal(row_count) + " rows \u{2014} scroll for more"@
    }
}

/// The footer starts with the number of rows in decimal; it says "row"
/// without an "s" only for exactly one fully loaded row, and mentions
/// loading or scrolling exactly when not everything is loaded.
pub proof fn lemma_footer(row_count: nat, loading_next: bool, all_loaded: bool)
    ensures
        footer(row_count, loading_next, all_loaded).subrange(0, decimal(row_count).len() as int) == decimal(row_count),
        !loading_next && all_loaded ==> footer(row_count, loading_next, all_loaded) == decimal(row_count)
            + (if row_count == 1 { " row"@ } else { " rows"@ }),
        loading_next ==> footer(row_count, loading_next, all_loaded) == decimal(row_count)
            + " rows \u{2014} loading more\u{2026}"@,
        !loading_next && !all_loaded ==> footer(row_count, loading_next, all_loaded) == decimal(row_count)
            + " rows \u{2014} scroll for more"@,
{
    reveal_strlit(" row");
    reveal_strlit(" rows");
    reveal_strlit("s");
    let f = footer(row_count, loading_next, all_loaded);
    assert(f.subrange(0, decimal(row_count).len() as int) =~= decimal(row_count));
    if !loading_next && all_loaded && row_count != 1 {
        assert(" row"@ + "s"@ =~= " rows"@);
        assert(f =~= decimal(row_count) + " rows"@);
    }
    if !loading_next && all_loaded && row_count == 1 {
        assert(f =~= decimal(row_count) + " row"@);
    }
}

/// The footer text described by `footer`.
pub fn footer_text(row_count: usize, loading_next: bool, all_loaded: bool) -> (t: String)
    ensures
        t@ == footer(row_count as nat, loading_next, all_loaded),
{
    let mut t = String::new();
    push_decimal(&mut t, row_count as u64);
    if loading_next {
        t.append(" rows \u{2014} loading more\u{2026}");
    } else if all_loaded {
        t.append(" row");
        if row_count != 1 {
            t.append("s");
        }
    } else {
        t.append(" rows \u{2014} scroll for more");
    }
    assert(t@ =~= footer(row_count as nat, loading_next, all_loaded));
    t
}

} // verus!
