//! Parsing of 1-based, inclusive line ranges, as used by the print, delete
//! and format commands.

use vstd::prelude::*;
use crate::text::{spec_trim, spec_parse_usize, find_idx, trim, find_char, parse_usize,
    lemma_find_idx_props};

verus! {

/// What a range token denotes over a buffer of `nlines` lines, after
/// trimming.  Empty means the whole buffer; `N` means the single line `N`;
/// `A-B` means the inclusive range with `A` defaulting to 1 and `B` to
/// `nlines`.  The upper bound is clamped to `nlines`; a non-numeric part, a
/// zero bound, or a lower bound above the (clamped) upper bound is invalid.
pub open spec fn spec_parse_range(t: Seq<char>, nlines: usize) -> Option<(usize, usize)> {
    if t.len() == 0 {
        Some((1usize, nlines))
    } else if find_idx(t, '-') != -1 {
        let i = find_idx(t, '-');
        let left = t.take(i);
        let right = t.skip(i + 1);
        let lo_o = if left.len() == 0 {
            Some(1usize)
        } else {
            spec_parse_usize(left)
        };
        let hi_o = if right.len() == 0 {
            Some(nlines)
        } else {
            spec_parse_usize(right)
        };
        match (lo_o, hi_o) {
            (Some(lo), Some(hi)) => {
                if lo == 0 || hi == 0 || lo > hi {
                    None
                } else {
                    let hic = if hi <= nlines {
                        hi
                    } else {
                        nlines
                    };
                    if lo > hic {
                        None
                    } else {
                        Some((lo, hic))
                    }
                }
            },
            _ => None,
        }
    } else {
        match spec_parse_usize(t) {
            Some(n) => if n == 0 || n > nlines {
                None
            } else {
                Some((n, n))
            },
            None => None,
        }
    }
}

/// Parse a line-range token against a buffer of `nlines` lines.
pub fn parse_range(s: &str, nlines: usize) -> (r: Option<(usize, usize)>)
    ensures
        r == spec_parse_range(spec_trim(s@), nlines),
{
    let t = trim(s);
    let ts = t.as_str();
    let n = ts.unicode_len();
    if n == 0 {
        return Some((1, nlines));
    }
    proof {
        lemma_find_idx_props(ts@, '-');
    }
    match find_char(ts, '-') {
        Some(i) => {
            let left = ts.substring_char(0, i);
            let right = ts.substring_char(i + 1, n);
            proof {
                assert(left@ =~= ts@.take(i as int));
                assert(right@ =~= ts@.skip(i + 1));
            }
            let lo_o = if left.unicode_len() == 0 {
                Some(1usize)
            } else {
                parse_usize(left)
            };
            let hi_o = if right.unicode_len() == 0 {
                Some(nlines)
            } else {
                parse_usize(right)
            };
            match (lo_o, hi_o) {
                (Some(lo), Some(hi)) => {
                    if lo == 0 || hi == 0 || lo > hi {
                        None
                    } else {
                        let hic = if hi <= nlines {
                            hi
                        } else {
                            nlines
                        };
                        if lo > hic {
                            None
                        } else {
                            Some((lo, hic))
                        }
                    }
                },
                _ => None,
            }
        },
        None => {
            match parse_usize(ts) {
                Some(nv) => if nv == 0 || nv > nlines {
                    None
                } else {
                    Some((nv, nv))
                },
                None => None,
            }
        },
    }
}

} // verus!
