//! LIMIT/OFFSET synthesis and page-metadata arithmetic.

use crate::text::{dec_int, i64_str};
use vstd::prelude::*;

verus! {

/// Page metadata around a current page.
#[derive(Debug, Clone, Copy)]
pub struct Pagination {
    pub current_page: i64,
    pub previous_page: i64,
    pub next_page: i64,
    pub total_pages: i64,
    pub per_page: i64,
    pub total_records: i64,
}

/// The page before `current`, never below 1.
pub open spec fn spec_prev_page(current: int) -> int {
    if current > 1 {
        current - 1
    } else {
        1
    }
}

/// The page after `current`, never beyond `total_pages` when pages exist.
pub open spec fn spec_next_page(current: int, total_pages: int) -> int {
    if current < total_pages && total_pages > 0 {
        current + 1
    } else if current < total_pages {
        total_pages
    } else {
        current
    }
}

impl Pagination {
    /// Page metadata for the given page and totals: the previous page stops
    /// at 1 and the next page stops at the last page.
    pub fn new(current_page: i64, per_page: i64, total_pages: i64, total_records: i64) -> (r:
        Pagination)
        ensures
            r.current_page == current_page,
            r.per_page == per_page,
            r.total_pages == total_pages,
            r.total_records == total_records,
            r.previous_page == spec_prev_page(current_page as int),
            r.next_page == spec_next_page(current_page as int, total_pages as int),
    {
        let previous_page: i64 = if current_page > 1 {
            current_page - 1
        } else {
            1
        };
        let next_page: i64 = if current_page < total_pages && total_pages > 0 {
            current_page + 1
        } else if current_page < total_pages {
            total_pages
        } else {
            current_page
        };
        Pagination { current_page, previous_page, next_page, total_pages, per_page, total_records }
    }
}

/// The LIMIT/OFFSET clause with its page metadata.
#[derive(Debug, Clone)]
pub struct Paginate {
    pub pagination: Pagination,
    pub sql: String,
}

/// The effective page-size cap: the given limit, or 10 when invalid.
pub open spec fn spec_page_cap(per_page_limit: int) -> int {
    if per_page_limit > 0 {
        per_page_limit
    } else {
        10
    }
}

/// The effective page size: clamped to the cap, or 10 when invalid.
pub open spec fn spec_per_page(per_page: int, per_page_limit: int) -> int {
    let cap = spec_page_cap(per_page_limit);
    let p = if per_page > cap {
        cap
    } else {
        per_page
    };
    if p > 0 {
        p
    } else {
        10
    }
}

/// The effective record total: negative totals count as zero.
pub open spec fn spec_total_records(total: int) -> int {
    if total > 0 {
        total
    } else {
        0
    }
}

/// The page count: the ceiling of records over page size, zero when empty.
pub open spec fn spec_total_pages(total: int, pp: int) -> int {
    let t = spec_total_records(total);
    if t > 0 {
        t / pp + if t % pp == 0 {
            0int
        } else {
            1int
        }
    } else {
        0
    }
}

/// The effective current page: clamped into `[1, total_pages]`, or 1 when
/// there are no pages.
pub open spec fn spec_current_page(current: int, total_pages: int) -> int {
    if total_pages > 0 {
        let c = if current < 1 {
            1
        } else {
            current
        };
        if c > total_pages {
            total_pages
        } else {
            c
        }
    } else {
        1
    }
}

/// The row offset of the effective current page.
pub open spec fn spec_offset(pp: int, cp: int) -> int {
    pp * (cp - 1)
}

impl Paginate {
    /// Validates the inputs, computes the effective page size, page count,
    /// current page and offset, and renders `LIMIT <n> OFFSET <m>`.
    pub fn new(current_page: i64, per_page: i64, per_page_limit: i64, total_records: i64) -> (r:
        Paginate)
        ensures
            ({
                let pp = spec_per_page(per_page as int, per_page_limit as int);
                let tr = spec_total_records(total_records as int);
                let tp = spec_total_pages(total_records as int, pp);
                let cp = spec_current_page(current_page as int, tp);
                &&& r.pagination.per_page == pp
                &&& r.pagination.total_records == tr
                &&& r.pagination.total_pages == tp
                &&& r.pagination.current_page == cp
                &&& r.pagination.previous_page == spec_prev_page(cp)
                &&& r.pagination.next_page == spec_next_page(cp, tp)
                &&& r.sql@ == "LIMIT "@ + dec_int(pp) + " OFFSET "@ + dec_int(spec_offset(pp, cp))
            }),
    {
        let cap: i64 = if per_page_limit > 0 {
            per_page_limit
        } else {
            10
        };
        let pp0: i64 = if per_page > cap {
            cap
        } else {
            per_page
        };
        let pp: i64 = if pp0 > 0 {
            pp0
        } else {
            10
        };
        let tr: i64 = if total_records > 0 {
            total_records
        } else {
            0
        };
        let tp: i64 = if tr > 0 {
            proof {
                assert(tr / pp >= 0 && tr / pp <= tr) by (nonlinear_arith)
                    requires
                        tr >= 1,
                        pp >= 1,
                ;
                assert(tr % pp != 0 ==> tr / pp < tr) by (nonlinear_arith)
                    requires
                        tr >= 1,
                        pp >= 1,
                ;
            }
            tr / pp + if tr % pp != 0 {
                1
            } else {
                0
            }
        } else {
            0
        };
        let cp: i64 = if tp > 0 {
            let cp0: i64 = if current_page < 1 {
                1
            } else {
                current_page
            };
            if cp0 > tp {
                tp
            } else {
                cp0
            }
        } else {
            1
        };
        proof {
            assert(pp * (cp - 1) >= 0) by (nonlinear_arith)
                requires
                    pp >= 1,
                    cp >= 1,
            ;
            // the offset of a clamped page stays below the record total
            if tp > 0 {
                vstd::arithmetic::div_mod::lemma_fundamental_div_mod(tr as int, pp as int);
                vstd::arithmetic::div_mod::lemma_mod_division_less_than_divisor(
                    tr as int,
                    pp as int,
                );
                assert(pp * (cp - 1) <= tr - 1) by (nonlinear_arith)
                    requires
                        pp >= 1,
                        tr >= 1,
                        1 <= cp <= tp,
                        tp == tr / pp + (if tr % pp == 0 {
                            0int
                        } else {
                            1int
                        }),
                        tr == pp * (tr / pp) + tr % pp,
                        0 <= tr % pp < pp,
                ;
            } else {
                assert(pp * (cp - 1) == 0) by (nonlinear_arith)
                    requires
                        cp == 1,
                ;
            }
        }
        let offset: i64 = pp * (cp - 1);
        let pagination = Pagination::new(cp, pp, tp, tr);
        let mut sql = String::new();
        sql.append("LIMIT ");
        let pps = i64_str(pp);
        sql.append(pps.as_str());
        sql.append(" OFFSET ");
        let offs = i64_str(offset);
        sql.append(offs.as_str());
        proof {
            assert(sql@ =~= "LIMIT "@ + dec_int(pp as int) + " OFFSET "@ + dec_int(offset as int));
        }
        Paginate { pagination, sql }
    }
}

} // verus!
