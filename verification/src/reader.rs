//! The line reader's persistent state: submitted-line history with bounded
//! capacity and adjacent-duplicate suppression, the registered command list,
//! and the completion-source decision for a partially typed line.

use vstd::prelude::*;
use crate::text::{is_ws, is_prefix, ws_char, starts_with, str_eq, clone_lines};

verus! {

/// History capacity: oldest entries are evicted beyond this.
pub open spec fn hist_cap() -> nat {
    800
}

/// Abstract value of a [`LineReader`].
pub struct LineReaderView {
    pub history: Seq<Seq<char>>,
    pub commands: Seq<Seq<char>>,
    pub input_color: Seq<char>,
}

pub struct LineReader {
    pub history: Vec<String>,
    pub hist_max: usize,
    pub commands: Vec<String>,
    pub input_color: String,
}

impl View for LineReader {
    type V = LineReaderView;

    open spec fn view(&self) -> LineReaderView {
        LineReaderView {
            history: self.history.deep_view(),
            commands: self.commands.deep_view(),
            input_color: self.input_color@,
        }
    }
}

/// What remembering a submitted line does to the history: empty lines and
/// lines equal to the most recent entry are skipped; otherwise the line is
/// appended, evicting the oldest entry at capacity.
pub open spec fn spec_remember(h: Seq<Seq<char>>, s: Seq<char>) -> Seq<Seq<char>> {
    if s.len() == 0 {
        h
    } else if h.len() > 0 && h.last() == s {
        h
    } else if h.len() >= hist_cap() {
        h.drop_first().push(s)
    } else {
        h.push(s)
    }
}

/// No two identical consecutive entries.
pub open spec fn no_adjacent_dups(h: Seq<Seq<char>>) -> bool {
    forall|i: int| 0 <= i < h.len() - 1 ==> #[trigger] h[i] != h[i + 1]
}

/// Remembering a line preserves the history invariants: never two identical
/// consecutive entries, and never more than the capacity.
pub proof fn lemma_remember_invariants(h: Seq<Seq<char>>, s: Seq<char>)
    requires
        no_adjacent_dups(h),
        h.len() <= hist_cap(),
    ensures
        no_adjacent_dups(spec_remember(h, s)),
        spec_remember(h, s).len() <= hist_cap(),
{
    let r = spec_remember(h, s);
    if s.len() == 0 || (h.len() > 0 && h.last() == s) {
    } else if h.len() >= hist_cap() {
        assert forall|i: int| 0 <= i < r.len() - 1 implies #[trigger] r[i] != r[i + 1] by {
            if i < r.len() - 2 {
                assert(r[i] == h[i + 1] && r[i + 1] == h[i + 2]);
            } else {
                assert(r[i] == h[i + 1] && r[i + 1] == s);
                assert(h[i + 1] == h.last());
            }
        }
    } else {
        assert forall|i: int| 0 <= i < r.len() - 1 implies #[trigger] r[i] != r[i + 1] by {
            if i < r.len() - 2 {
                assert(r[i] == h[i] && r[i + 1] == h[i + 1]);
            }
        }
    }
}

/// The registered commands that start with `p`, in registration order.
pub open spec fn prefix_filter(cs: Seq<Seq<char>>, p: Seq<char>) -> Seq<Seq<char>> {
    cs.filter(|c: Seq<char>| is_prefix(p, c))
}

/// First index at or after `i` holding a non-whitespace character.
pub open spec fn skip_ws_idx(s: Seq<char>, i: int) -> int
    decreases s.len() - i when 0 <= i <= s.len()
{
    if i >= s.len() {
        i
    } else if is_ws(s[i]) {
        skip_ws_idx(s, i + 1)
    } else {
        i
    }
}

/// First index at or after `i` holding whitespace (or the end).
pub open spec fn end_word_idx(s: Seq<char>, i: int) -> int
    decreases s.len() - i when 0 <= i <= s.len()
{
    if i >= s.len() {
        i
    } else if !is_ws(s[i]) {
        end_word_idx(s, i + 1)
    } else {
        i
    }
}

proof fn lemma_skip_ws_bounds(s: Seq<char>, i: int)
    requires
        0 <= i <= s.len(),
    ensures
        i <= skip_ws_idx(s, i) <= s.len(),
        skip_ws_idx(s, i) < s.len() ==> !is_ws(s[skip_ws_idx(s, i)]),
    decreases s.len() - i,
{
    if i < s.len() && is_ws(s[i]) {
        lemma_skip_ws_bounds(s, i + 1);
    }
}

proof fn lemma_end_word_bounds(s: Seq<char>, i: int)
    requires
        0 <= i <= s.len(),
    ensures
        i <= end_word_idx(s, i) <= s.len(),
        i < s.len() && !is_ws(s[i]) ==> end_word_idx(s, i) > i,
    decreases s.len() - i,
{
    if i < s.len() && !is_ws(s[i]) {
        lemma_end_word_bounds(s, i + 1);
    }
}

proof fn lemma_skip_ws_at(s: Seq<char>, i: int, a: int)
    requires
        0 <= i <= a <= s.len(),
        forall|j: int| i <= j < a ==> is_ws(s[j]),
        a < s.len() ==> !is_ws(s[a]),
    ensures
        skip_ws_idx(s, i) == a,
    decreases a - i,
{
    if i < a {
        lemma_skip_ws_at(s, i + 1, a);
    }
}

proof fn lemma_end_word_at(s: Seq<char>, i: int, b: int)
    requires
        0 <= i <= b <= s.len(),
        forall|j: int| i <= j < b ==> !is_ws(s[j]),
        b < s.len() ==> is_ws(s[b]),
    ensures
        end_word_idx(s, i) == b,
    decreases b - i,
{
    if i < b {
        lemma_end_word_at(s, i + 1, b);
    }
}

#[via_fn]
proof fn split_from_decreases(s: Seq<char>, i: int) {
    lemma_skip_ws_bounds(s, i);
    let a = skip_ws_idx(s, i);
    if a < s.len() {
        lemma_end_word_bounds(s, a);
    }
}

/// The whitespace-separated words of `s` starting at index `i`.
pub open spec fn split_from(s: Seq<char>, i: int) -> Seq<Seq<char>>
    decreases s.len() - i when 0 <= i <= s.len() via split_from_decreases
{
    let a = skip_ws_idx(s, i);
    if a >= s.len() {
        Seq::<Seq<char>>::empty()
    } else {
        let b = end_word_idx(s, a);
        seq![s.subrange(a, b)] + split_from(s, b)
    }
}

/// The whitespace-separated words of `s`.
pub open spec fn spec_split_words(s: Seq<char>) -> Seq<Seq<char>> {
    split_from(s, 0)
}

fn words_from(s: &str, i: usize) -> (r: Vec<String>)
    requires
        i <= s@.len(),
    ensures
        r.deep_view() == split_from(s@, i as int),
    decreases s@.len() - i,
{
    let n = s.unicode_len();
    let mut a: usize = i;
    while a < n && ws_char(s.get_char(a))
        invariant
            i <= a <= n == s@.len(),
            forall|j: int| i <= j < a ==> is_ws(s@[j]),
        decreases n - a,
    {
        a = a + 1;
    }
    proof {
        lemma_skip_ws_at(s@, i as int, a as int);
    }
    if a >= n {
        let r: Vec<String> = Vec::new();
        proof {
            assert(r.deep_view() =~= split_from(s@, i as int));
        }
        return r;
    }
    let mut b: usize = a;
    while b < n && !ws_char(s.get_char(b))
        invariant
            a <= b <= n == s@.len(),
            forall|j: int| a <= j < b ==> !is_ws(s@[j]),
        decreases n - b,
    {
        b = b + 1;
    }
    proof {
        lemma_end_word_at(s@, a as int, b as int);
        assert(b > a);
    }
    let w = s.substring_char(a, b).to_owned();
    let mut r = words_from(s, b);
    r.insert(0, w);
    proof {
        assert(r.deep_view() =~= seq![s@.subrange(a as int, b as int)] + split_from(s@, b as int));
    }
    r
}

/// Where completion candidates for the current line come from: either a
/// ready candidate list (from the registered commands), or a request to list
/// the filesystem for the given token.
pub enum Completion {
    Candidates(Vec<String>),
    Fs { token: String, dirs_only: bool },
}

impl LineReader {
    pub open spec fn wf(&self) -> bool {
        self@.history.len() <= hist_cap() && self.hist_max == hist_cap()
    }

    /// A reader with empty history, no registered commands and no color.
    pub fn new() -> (r: LineReader)
        ensures
            r@.history == Seq::<Seq<char>>::empty(),
            r@.commands == Seq::<Seq<char>>::empty(),
            r@.input_color == Seq::<char>::empty(),
            r.wf(),
    {
        let r = LineReader {
            history: Vec::new(),
            hist_max: 800,
            commands: Vec::new(),
            input_color: String::new(),
        };
        proof {
            assert(r@.history =~= Seq::<Seq<char>>::empty());
            assert(r@.commands =~= Seq::<Seq<char>>::empty());
        }
        r
    }

    /// Replace the registered command names.
    pub fn set_commands(&mut self, cmds: Vec<String>)
        ensures
            final(self)@ == (LineReaderView { commands: cmds.deep_view(), ..old(self)@ }),
            final(self).wf() == old(self).wf(),
    {
        self.commands = cmds;
    }

    /// Set the escape sequence used to color typed input.
    pub fn set_input_color(&mut self, c: &str)
        ensures
            final(self)@ == (LineReaderView { input_color: c@, ..old(self)@ }),
            final(self).wf() == old(self).wf(),
    {
        self.input_color = c.to_owned();
    }

    /// Record a submitted line in the history.
    pub fn remember(&mut self, s: &str)
        requires
            old(self).wf(),
        ensures
            final(self)@ == (LineReaderView {
                history: spec_remember(old(self)@.history, s@),
                ..old(self)@
            }),
            final(self).wf(),
    {
        if s.unicode_len() == 0 {
            return;
        }
        let hl = self.history.len();
        if hl > 0 && str_eq(self.history[hl - 1].as_str(), s) {
            return;
        }
        if hl >= self.hist_max {
            let ghost pre = self.history.deep_view();
            self.history.remove(0);
            proof {
                assert(self.history.deep_view() =~= pre.drop_first());
            }
        }
        let ghost mid = self.history.deep_view();
        self.history.push(s.to_owned());
        proof {
            assert(self.history.deep_view() =~= mid.push(s@));
            assert(self@.history =~= spec_remember(old(self)@.history, s@));
        }
    }

    /// Tokenize a line on whitespace.
    pub fn split_words(s: &str) -> (r: Vec<String>)
        ensures
            r.deep_view() == spec_split_words(s@),
    {
        words_from(s, 0)
    }

    /// Expand a leading `~` to the given home path.
    pub fn expand_home(token: &str, home: &str) -> (r: String)
        ensures
            r@ == if token@ == "~"@ {
                home@
            } else if is_prefix("~/"@, token@) {
                home@ + "/"@ + token@.skip(2)
            } else {
                token@
            },
    {
        if str_eq(token, "~") {
            return home.to_owned();
        }
        if starts_with(token, "~/") {
            proof {
                reveal_strlit("~/");
            }
            let n = token.unicode_len();
            let rest = token.substring_char(2, n);
            let r = home.to_owned().concat("/").concat(rest);
            proof {
                assert(token@.skip(2) =~= token@.subrange(2, token@.len() as int));
            }
            return r;
        }
        token.to_owned()
    }

    /// Decide where completion candidates for `buf` come from, and compute
    /// them when the source is the registered command list: an empty line
    /// offers every command; a single unfinished word offers the commands it
    /// prefixes; otherwise the last token is completed from the filesystem,
    /// restricted to directories when the command is `cd`.
    pub fn complete(&self, buf: &str) -> (r: Completion)
        ensures
            ({
                let toks = spec_split_words(buf@);
                let fresh = buf@.len() > 0 && is_ws(buf@.last());
                if toks.len() == 0 {
                    r matches Completion::Candidates(cs) && cs.deep_view() == self@.commands
                } else if toks.len() == 1 && !fresh {
                    r matches Completion::Candidates(cs) && cs.deep_view() == prefix_filter(
                        self@.commands, toks[0])
                } else {
                    r matches Completion::Fs { token, dirs_only } && token@ == (if fresh {
                        Seq::<char>::empty()
                    } else {
                        toks.last()
                    }) && dirs_only == (toks[0] == "cd"@)
                }
            }),
    {
        let toks = Self::split_words(buf);
        let n = buf.unicode_len();
        let fresh = n > 0 && ws_char(buf.get_char(n - 1));
        if toks.len() == 0 {
            return Completion::Candidates(clone_lines(&self.commands));
        }
        if toks.len() == 1 && !fresh {
            let prefix = toks[0].clone();
            let mut out: Vec<String> = Vec::new();
            let m = self.commands.len();
            let mut i: usize = 0;
            proof {
                reveal(Seq::filter);
                assert(out.deep_view() =~= prefix_filter(self@.commands.take(0), prefix@));
            }
            while i < m
                invariant
                    0 <= i <= m == self@.commands.len(),
                    m == self.commands@.len(),
                    out.deep_view() == prefix_filter(self@.commands.take(i as int), prefix@),
                decreases m - i,
            {
                let ghost pre = out.deep_view();
                let ghost cmds = self@.commands;
                if starts_with(self.commands[i].as_str(), prefix.as_str()) {
                    out.push(self.commands[i].clone());
                }
                proof {
                    reveal(Seq::filter);
                    let p = prefix@;
                    assert(cmds.take(i + 1).drop_last() =~= cmds.take(i as int));
                    assert(cmds.take(i + 1).last() == cmds[i as int]);
                    if is_prefix(p, cmds[i as int]) {
                        assert(out.deep_view() =~= pre.push(cmds[i as int]));
                    } else {
                        assert(out.deep_view() =~= pre);
                    }
                }
                i = i + 1;
            }
            proof {
                assert(self@.commands.take(m as int) =~= self@.commands);
                assert(prefix@ == toks.deep_view()[0]);
            }
            return Completion::Candidates(out);
        }
        let dirs_only = str_eq(toks[0].as_str(), "cd");
        let token = if fresh {
            String::new()
        } else {
            toks[toks.len() - 1].clone()
        };
        proof {
            assert(toks.deep_view()[0] == toks@[0]@);
            assert(toks.deep_view().last() == toks@[toks@.len() - 1]@);
        }
        Completion::Fs { token, dirs_only }
    }
}

} // verus!
