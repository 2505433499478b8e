//! Filesystem completion over a listed directory: prefix filtering, the
//! directories-only restriction, display formatting, and lexicographic
//! sorting of the candidate set.

use vstd::prelude::*;
use vstd::multiset::Multiset;
use crate::text::{is_prefix, lex_le, lemma_lex_refl, lemma_lex_total, lemma_lex_trans,
    starts_with, str_eq, str_lex_le};

verus! {

broadcast use vstd::seq_lib::group_to_multiset_ensures;

/// How a matching directory entry is displayed: prefixed with the directory
/// unless listing the current one, and suffixed with a separator when the
/// entry is itself a directory.
pub open spec fn spec_shown(dir: Seq<char>, name: Seq<char>, is_dir: bool) -> Seq<char> {
    (if dir == "."@ {
        name
    } else {
        dir + "/"@ + name
    }) + (if is_dir {
        "/"@
    } else {
        Seq::<char>::empty()
    })
}

/// An entry is a candidate when it survives the directories-only filter and
/// its name starts with the typed base.
pub open spec fn spec_included(base: Seq<char>, e: (Seq<char>, bool), dirs_only: bool) -> bool {
    (!dirs_only || e.1) && is_prefix(base, e.0)
}

/// The unsorted candidate list for entries `es`, in listing order.
pub open spec fn spec_candidates(
    dir: Seq<char>,
    base: Seq<char>,
    es: Seq<(Seq<char>, bool)>,
    dirs_only: bool,
) -> Seq<Seq<char>>
    decreases es.len(),
{
    if es.len() == 0 {
        Seq::<Seq<char>>::empty()
    } else {
        let rest = spec_candidates(dir, base, es.drop_last(), dirs_only);
        if spec_included(base, es.last(), dirs_only) {
            rest.push(spec_shown(dir, es.last().0, es.last().1))
        } else {
            rest
        }
    }
}

/// Non-decreasing in lexicographic order.
pub open spec fn sorted_lex(s: Seq<Seq<char>>) -> bool {
    forall|i: int, j: int| 0 <= i < j < s.len() ==> lex_le(#[trigger] s[i], #[trigger] s[j])
}

fn shown(dir: &str, name: &str, is_dir: bool) -> (r: String)
    ensures
        r@ == spec_shown(dir@, name@, is_dir),
{
    let head = if str_eq(dir, ".") {
        name.to_owned()
    } else {
        dir.to_owned().concat("/").concat(name)
    };
    if is_dir {
        head.concat("/")
    } else {
        let ghost h = head@;
        proof {
            assert(h + Seq::<char>::empty() =~= h);
        }
        head
    }
}

/// Sort candidate strings lexicographically; the result holds exactly the
/// same strings (with multiplicity).
pub fn sort_candidates(v: Vec<String>) -> (r: Vec<String>)
    ensures
        sorted_lex(r.deep_view()),
        r.deep_view().to_multiset() == v.deep_view().to_multiset(),
{
    let ghost orig = v.deep_view();
    let mut src = v;
    let mut out: Vec<String> = Vec::new();
    proof {
        assert(out.deep_view() =~= Seq::<Seq<char>>::empty());
        assert(out.deep_view().to_multiset().add(src.deep_view().to_multiset())
            =~= orig.to_multiset());
    }
    while src.len() > 0
        invariant
            out.deep_view().to_multiset().add(src.deep_view().to_multiset())
                == orig.to_multiset(),
            sorted_lex(out.deep_view()),
            forall|i: int, j: int|
                0 <= i < out.deep_view().len() && 0 <= j < src.deep_view().len() ==> lex_le(
                    #[trigger] out.deep_view()[i], #[trigger] src.deep_view()[j]),
        decreases src.len(),
    {
        let n = src.len();
        let mut mi: usize = 0;
        let mut k: usize = 1;
        proof {
            lemma_lex_refl(src.deep_view()[0]);
        }
        while k < n
            invariant
                0 <= mi < k <= n == src.deep_view().len(),
                n == src@.len(),
                forall|j: int| 0 <= j < k ==> lex_le(src.deep_view()[mi as int],
                    #[trigger] src.deep_view()[j]),
            decreases n - k,
        {
            let ghost dv = src.deep_view();
            if str_lex_le(src[k].as_str(), src[mi].as_str()) {
                proof {
                    lemma_lex_refl(dv[k as int]);
                    assert forall|j: int| 0 <= j < k + 1 implies lex_le(dv[k as int],
                        #[trigger] dv[j]) by {
                        if j < k {
                            lemma_lex_trans(dv[k as int], dv[mi as int], dv[j]);
                        }
                    }
                }
                mi = k;
            } else {
                proof {
                    lemma_lex_total(dv[k as int], dv[mi as int]);
                }
            }
            k = k + 1;
        }
        let ghost predv = src.deep_view();
        let ghost preout = out.deep_view();
        let x = src.remove(mi);
        out.push(x);
        proof {
            assert(src.deep_view() =~= predv.remove(mi as int));
            assert(predv.remove(mi as int).to_multiset() =~= predv.to_multiset().remove(
                predv[mi as int]));
            assert(out.deep_view() =~= preout.push(predv[mi as int]));
            assert(out.deep_view().to_multiset() =~= preout.to_multiset().insert(
                predv[mi as int]));
            assert(predv.to_multiset().count(predv[mi as int]) > 0);
            assert(out.deep_view().to_multiset().add(src.deep_view().to_multiset())
                =~= preout.to_multiset().add(predv.to_multiset()));
            assert forall|i: int, j: int|
                0 <= i < j < out.deep_view().len() implies lex_le(out.deep_view()[i],
                out.deep_view()[j]) by {}
        }
    }
    proof {
        assert(src.deep_view().to_multiset() =~= Multiset::<Seq<char>>::empty());
        assert(out.deep_view().to_multiset().add(Multiset::<Seq<char>>::empty())
            =~= out.deep_view().to_multiset());
    }
    out
}

/// The candidate grid from index `i` on: each candidate followed by two
/// spaces, with a newline after every sixth candidate.
pub open spec fn grid_from(os: Seq<Seq<char>>, i: int) -> Seq<char>
    decreases os.len() - i when 0 <= i <= os.len()
{
    if i >= os.len() {
        Seq::<char>::empty()
    } else {
        os[i] + "  "@ + (if (i + 1) % 6 == 0 {
            "\n"@
        } else {
            Seq::<char>::empty()
        }) + grid_from(os, i + 1)
    }
}

/// The fixed 6-per-row grid in which several completion candidates are
/// shown, closed by a final newline when the last row is partial.
pub open spec fn spec_grid(os: Seq<Seq<char>>) -> Seq<char> {
    grid_from(os, 0) + (if os.len() % 6 != 0 {
        "\n"@
    } else {
        Seq::<char>::empty()
    })
}

/// Render the candidate grid exactly as it is printed below the prompt.
pub fn render_grid(opts: &Vec<String>) -> (r: String)
    ensures
        r@ == spec_grid(opts.deep_view()),
{
    let ghost os = opts.deep_view();
    let n = opts.len();
    let mut out = String::new();
    let mut i: usize = 0;
    proof {
        assert(out@ + grid_from(os, 0) =~= grid_from(os, 0));
    }
    while i < n
        invariant
            0 <= i <= n == os.len(),
            n == opts@.len(),
            os == opts.deep_view(),
            out@ + grid_from(os, i as int) == grid_from(os, 0),
        decreases n - i,
    {
        let ghost pre = out@;
        out.append(opts[i].as_str());
        out.append("  ");
        if (i + 1) % 6 == 0 {
            out.append("\n");
        }
        proof {
            if (i + 1) % 6 == 0 {
                assert(out@ =~= pre + os[i as int] + "  "@ + "\n"@);
            } else {
                assert(out@ =~= pre + os[i as int] + "  "@);
            }
            assert(out@ + grid_from(os, i + 1) =~= pre + grid_from(os, i as int));
        }
        i = i + 1;
    }
    proof {
        assert(out@ + grid_from(os, n as int) =~= out@);
    }
    if n % 6 != 0 {
        out.concat("\n")
    } else {
        let ghost o = out@;
        proof {
            assert(o + Seq::<char>::empty() =~= o);
        }
        out
    }
}

/// The completion candidates among the listed `entries` of `dir` for the
/// typed base `base`: matching entries, formatted for display and sorted
/// lexicographically.  Each entry is a name paired with whether it is a
/// directory; with `dirs_only` only directories are offered.
pub fn complete_entries(
    dir: &str,
    base: &str,
    entries: &Vec<(String, bool)>,
    dirs_only: bool,
) -> (r: Vec<String>)
    ensures
        sorted_lex(r.deep_view()),
        r.deep_view().to_multiset() == spec_candidates(dir@, base@, entries.deep_view(),
            dirs_only).to_multiset(),
{
    let mut raw: Vec<String> = Vec::new();
    let m = entries.len();
    let mut i: usize = 0;
    proof {
        assert(raw.deep_view() =~= spec_candidates(dir@, base@, entries.deep_view().take(0),
            dirs_only));
    }
    while i < m
        invariant
            0 <= i <= m == entries.deep_view().len(),
            m == entries@.len(),
            raw.deep_view() == spec_candidates(dir@, base@, entries.deep_view().take(i as int),
                dirs_only),
        decreases m - i,
    {
        let ghost es = entries.deep_view();
        let ghost pre = raw.deep_view();
        let e = &entries[i];
        if (!dirs_only || e.1) && starts_with(e.0.as_str(), base) {
            let s = shown(dir, e.0.as_str(), e.1);
            raw.push(s);
        }
        proof {
            assert(es.take(i + 1).drop_last() =~= es.take(i as int));
            assert(es.take(i + 1).last() == es[i as int]);
            assert(es[i as int].0 == entries@[i as int].0@);
            assert(es[i as int].1 == entries@[i as int].1);
            if spec_included(base@, es[i as int], dirs_only) {
                assert(raw.deep_view() =~= pre.push(spec_shown(dir@, es[i as int].0,
                    es[i as int].1)));
            } else {
                assert(raw.deep_view() =~= pre);
            }
        }
        i = i + 1;
    }
    proof {
        assert(entries.deep_view().take(m as int) =~= entries.deep_view());
    }
    sort_candidates(raw)
}

} // verus!
