//! ORDER BY synthesis: columns are canonicalized alphabetically by name,
//! and a duplicated column name keeps only its first occurrence.

use crate::text::{eq_ci, join_sep, lex_lt, str_eq_ci, str_lt};
use vstd::prelude::*;

verus! {

/// Sort direction.
#[derive(Debug, Clone, Copy, PartialEq, Eq, Structural)]
pub enum SortOrder {
    Asc,
    Desc,
}

/// One column to sort by, with its direction.
#[derive(Debug)]
pub struct SortedColumn {
    pub column: String,
    pub order: SortOrder,
}

impl Clone for SortedColumn {
    /// A clone equals the original.
    fn clone(&self) -> (r: Self)
        ensures
            r == *self,
    {
        SortedColumn { column: self.column.clone(), order: self.order }
    }
}

/// The direction an order token denotes: `desc` in any ASCII case means
/// descending, anything else ascending.
pub open spec fn spec_sort_order(order: Seq<char>) -> SortOrder {
    if eq_ci(order, seq!['d', 'e', 's', 'c']) {
        SortOrder::Desc
    } else {
        SortOrder::Asc
    }
}

impl SortedColumn {
    /// A sort column from a name and an order token.
    pub fn new(column: &str, order: &str) -> (r: SortedColumn)
        ensures
            r.column@ == column@,
            r.order == spec_sort_order(order@),
    {
        proof {
            reveal_strlit("desc");
            assert("desc"@ =~= seq!['d', 'e', 's', 'c']);
        }
        let is_desc = str_eq_ci(order, "desc");
        SortedColumn {
            column: column.to_owned(),
            order: if is_desc {
                SortOrder::Desc
            } else {
                SortOrder::Asc
            },
        }
    }
}

/// The ORDER BY fragment of one column.
pub open spec fn col_sql(c: SortedColumn) -> Seq<char> {
    c.column@ + (match c.order {
        SortOrder::Asc => " ASC"@,
        SortOrder::Desc => " DESC"@,
    })
}

/// The whole ORDER BY clause of a canonicalized column list.
pub open spec fn order_by_sql(cols: Seq<SortedColumn>) -> Seq<char> {
    if cols.len() == 0 {
        Seq::empty()
    } else {
        " ORDER BY "@ + join_sep(cols.map_values(|c: SortedColumn| col_sql(c)), ", "@)
    }
}

/// Whether the columns are strictly sorted by name.
pub open spec fn strictly_sorted(s: Seq<SortedColumn>) -> bool {
    forall|i: int, j: int|
        0 <= i < j < s.len() ==> lex_lt(#[trigger] s[i].column@, #[trigger] s[j].column@)
}

/// Whether some column of `s` carries `name`.
pub open spec fn has_col(s: Seq<SortedColumn>, name: Seq<char>) -> bool {
    exists|i: int| 0 <= i < s.len() && #[trigger] s[i].column@ == name
}

/// The index of the first column of `s` at or after `i` carrying `name`,
/// or `-1`.
pub open spec fn first_col(s: Seq<SortedColumn>, name: Seq<char>, i: int) -> int
    decreases s.len() - i,
{
    if i < 0 || i >= s.len() {
        -1
    } else if s[i].column@ == name {
        i
    } else {
        first_col(s, name, i + 1)
    }
}

/// When no column before `k` carries the name and `s[k]` does, `k` is the
/// first occurrence.
pub proof fn lemma_first_col_at(s: Seq<SortedColumn>, name: Seq<char>, i: int, k: int)
    requires
        0 <= i <= k < s.len(),
        forall|j: int| i <= j < k ==> #[trigger] s[j].column@ != name,
        s[k].column@ == name,
    ensures
        first_col(s, name, i) == k,
    decreases k - i,
{
    if i < k {
        lemma_first_col_at(s, name, i + 1, k);
    }
}

/// Strict lexicographic order is irreflexive, total and transitive.
pub proof fn lemma_lex_total(a: Seq<char>, b: Seq<char>)
    ensures
        a == b ==> !lex_lt(a, b),
        !lex_lt(a, b) && !lex_lt(b, a) ==> a == b,
    decreases a.len(),
{
    if a.len() == 0 && b.len() == 0 {
        assert(a =~= b);
    } else if a.len() > 0 && b.len() > 0 && a[0] == b[0] {
        lemma_lex_total(a.drop_first(), b.drop_first());
        if !lex_lt(a, b) && !lex_lt(b, a) {
            assert(a.drop_first() == b.drop_first());
            assert(a.len() == b.len());
            assert forall|i: int| 0 <= i < a.len() implies a[i] == b[i] by {
                if i > 0 {
                    assert(a[i] == a.drop_first()[i - 1]);
                    assert(b[i] == b.drop_first()[i - 1]);
                }
            }
            assert(a =~= b);
        }
        if a == b {
            assert(a.drop_first() == b.drop_first());
        }
    } else if a.len() > 0 && b.len() > 0 {
        assert(a[0] as u32 != b[0] as u32) by {
            vstd::utf8::char_u32_cast(a[0], a[0] as u32);
            vstd::utf8::char_u32_cast(b[0], b[0] as u32);
        }
        assert(lex_lt(a, b) || lex_lt(b, a));
    }
}

/// Strict lexicographic order is transitive.
pub proof fn lemma_lex_trans(a: Seq<char>, b: Seq<char>, c: Seq<char>)
    requires
        lex_lt(a, b),
        lex_lt(b, c),
    ensures
        lex_lt(a, c),
    decreases a.len(),
{
    if c.len() > 0 && a.len() > 0 && b.len() > 0 {
        if a[0] == b[0] && b[0] == c[0] {
            lemma_lex_trans(a.drop_first(), b.drop_first(), c.drop_first());
        }
    }
}

/// A complete ORDER BY clause over canonicalized columns.
#[derive(Debug)]
pub struct Sorting {
    /// The canonicalized columns: alphabetical by name, first occurrence of
    /// each name kept.
    pub columns: Vec<SortedColumn>,
    /// The rendered clause.
    pub sql: String,
}

impl Sorting {
    /// Canonicalizes the columns (alphabetical by name; of duplicated names
    /// only the first given occurrence survives) and renders the clause.
    #[verifier::loop_isolation(false)]
    #[verifier::rlimit(100)]
    pub fn new(columns: Vec<SortedColumn>) -> (r: Sorting)
        ensures
            strictly_sorted(r.columns@),
            forall|j: int|
                0 <= j < r.columns@.len() ==> first_col(columns@, #[trigger] r.columns@[j].column@, 0)
                    >= 0 && r.columns@[j] == columns@[first_col(columns@, r.columns@[j].column@, 0)],
            forall|i: int| 0 <= i < columns@.len() ==> has_col(r.columns@, #[trigger] columns@[i].column@),
            r.sql@ == order_by_sql(r.columns@),
    {
        let ghost orig = columns@;
        let mut input = columns;
        let n0 = input.len();
        proof {
            assert(orig.len() == n0);
        }
        let mut out: Vec<SortedColumn> = Vec::new();
        let mut t: usize = 0;
        while input.len() > 0
            invariant
                t == orig.len() - input.len(),
                input@ == orig.subrange(t as int, orig.len() as int),
                orig.len() <= usize::MAX,
                strictly_sorted(out@),
                forall|j: int|
                    0 <= j < out@.len() ==> {
                        let idx = first_col(orig, #[trigger] out@[j].column@, 0);
                        0 <= idx < t && out@[j] == orig[idx]
                    },
                forall|i: int| 0 <= i < t ==> has_col(out@, #[trigger] orig[i].column@),
            decreases input.len(),
        {
            let c = input.remove(0);
            proof {
                assert(c == orig[t as int]);
                assert(input@ =~= orig.subrange(t as int + 1, orig.len() as int));
            }
            let mut k: usize = 0;
            while k < out.len() && str_lt(out[k].column.as_str(), c.column.as_str())
                invariant
                    0 <= k <= out@.len(),
                    forall|m: int| 0 <= m < k ==> lex_lt(#[trigger] out@[m].column@, c.column@),
                decreases out@.len() - k,
            {
                k = k + 1;
            }
            let is_dup = k < out.len() && out[k].column == c.column;
            if is_dup {
                proof {
                    assert(out@[k as int].column@ == orig[t as int].column@);
                    assert(has_col(out@, orig[t as int].column@));
                }
            } else {
                proof {
                    // c's name is not in out: before k the names are smaller,
                    // at k and after they are larger.
                    if k < out@.len() {
                        lemma_lex_total(out@[k as int].column@, c.column@);
                        assert(lex_lt(c.column@, out@[k as int].column@));
                    }
                    assert forall|m: int| 0 <= m < out@.len() implies #[trigger] out@[m].column@
                        != c.column@ by {
                        if m < k {
                            lemma_lex_total(out@[m].column@, c.column@);
                        } else if m > k {
                            lemma_lex_trans(
                                c.column@,
                                out@[k as int].column@,
                                out@[m].column@,
                            );
                            lemma_lex_total(c.column@, out@[m].column@);
                        } else {
                            lemma_lex_total(out@[m].column@, c.column@);
                        }
                    }
                    // hence no earlier input occurrence of the name either
                    assert forall|j: int| 0 <= j < t implies #[trigger] orig[j].column@
                        != c.column@ by {
                        if orig[j].column@ == c.column@ {
                            assert(has_col(out@, orig[j].column@));
                        }
                    }
                    lemma_first_col_at(orig, c.column@, 0, t as int);
                }
                let ghost out_old = out@;
                out.insert(k, c);
                proof {
                    assert(out@ =~= out_old.subrange(0, k as int).push(c) + out_old.subrange(
                        k as int,
                        out_old.len() as int,
                    ));
                    assert forall|i: int, j: int|
                        0 <= i < j < out@.len() implies lex_lt(
                        #[trigger] out@[i].column@,
                        #[trigger] out@[j].column@,
                    ) by {
                        if i < k && j > k {
                            assert(out@[i] == out_old[i]);
                            assert(out@[j] == out_old[j - 1]);
                        }
                        if i == k && j > k {
                            assert(out@[j] == out_old[j - 1]);
                            if j - 1 > k {
                                lemma_lex_trans(
                                    c.column@,
                                    out_old[k as int].column@,
                                    out_old[j - 1].column@,
                                );
                            }
                        }
                        if i < k && j == k {
                            assert(out@[i] == out_old[i]);
                        }
                    }
                    assert(out@[k as int] == c);
                    assert forall|i: int| 0 <= i < t + 1 implies has_col(
                        out@,
                        #[trigger] orig[i].column@,
                    ) by {
                        if i < t {
                            let m = choose|m: int|
                                0 <= m < out_old.len() && #[trigger] out_old[m].column@
                                    == orig[i].column@;
                            if m < k {
                                assert(out@[m] == out_old[m]);
                                assert(out@[m].column@ == orig[i].column@);
                            } else {
                                assert(out@[m + 1] == out_old[m]);
                                assert(out@[m + 1].column@ == orig[i].column@);
                            }
                        } else {
                            assert(out@[k as int].column@ == orig[i].column@);
                        }
                    }
                }
            }
            t = t + 1;
        }
        // render the clause
        let ghost cols = out@;
        let ghost mapped = cols.map_values(|c: SortedColumn| col_sql(c));
        let mut sql = String::new();
        if out.len() > 0 {
            sql.append(" ORDER BY ");
        }
        let mut i: usize = 0;
        while i < out.len()
            invariant
                cols == out@,
                mapped == cols.map_values(|c: SortedColumn| col_sql(c)),
                mapped.len() == cols.len(),
                0 <= i <= cols.len(),
                cols.len() > 0 ==> sql@ == " ORDER BY "@ + join_sep(
                    mapped.subrange(0, i as int),
                    ", "@,
                ),
                cols.len() == 0 ==> sql@ == Seq::<char>::empty(),
            decreases out@.len() - i,
        {
            if i > 0 {
                sql.append(", ");
            }
            let ghost before = sql@;
            sql.append(out[i].column.as_str());
            match out[i].order {
                SortOrder::Asc => sql.append(" ASC"),
                SortOrder::Desc => sql.append(" DESC"),
            }
            proof {
                assert(mapped[i as int] == col_sql(cols[i as int]));
                assert(sql@ =~= before + mapped[i as int]);
                assert(mapped.subrange(0, i as int + 1) =~= mapped.subrange(0, i as int).push(
                    mapped[i as int],
                ));
                crate::text::lemma_join_push(mapped.subrange(0, i as int), ", "@, mapped[i as int]);
                assert(sql@ =~= " ORDER BY "@ + join_sep(mapped.subrange(0, i as int + 1), ", "@));
            }
            i = i + 1;
        }
        proof {
            assert(mapped.subrange(0, cols.len() as int) =~= mapped);
            assert(sql@ =~= order_by_sql(cols));
        }
        Sorting { columns: out, sql }
    }
}

} // verus!
