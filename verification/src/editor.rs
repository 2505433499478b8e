//! The editor: the active buffer, its bounded undo/redo stacks, side
//! buffers, theme and palette, aliases and the line reader.  Every
//! buffer-mutating operation snapshots the old lines for undo and clears
//! redo; undo and redo are exact mirrors over the abstract history state.

use vstd::prelude::*;
use crate::buffer::{Buffer, BufferView};
use crate::reader::{LineReader, LineReaderView};
use crate::theme::{Theme, Palette, PaletteView, spec_palette, spec_theme_from_name, palette_for,
    theme_from_name, gradient_prompt_text, grad_chars};
use crate::undo::{Stack, LinesView, HistState, spec_stack_push, spec_undo, spec_redo, spec_edit};
use crate::text::{lower, lower_seq, str_contains, spec_contains, str_eq};

verus! {

/// Abstract value of an [`Editor`].
pub struct EditorView {
    pub buf: BufferView,
    pub undo: Seq<LinesView>,
    pub redo: Seq<LinesView>,
    pub others: Seq<BufferView>,
    pub theme: Theme,
    pub pal: PaletteView,
    pub last_search: Seq<char>,
    pub last_icase: bool,
    pub autosave_sec: u64,
    pub aliases: Seq<(Seq<char>, Seq<char>)>,
    pub wrap_long: bool,
    pub truncate_long: bool,
    pub lr: LineReaderView,
}

pub struct Editor {
    pub buf: Buffer,
    pub undo: Stack,
    pub redo: Stack,
    pub others: Vec<Buffer>,
    pub theme: Theme,
    pub pal: Palette,
    pub last_search: String,
    pub last_icase: bool,
    pub autosave_sec: u64,
    pub aliases: Vec<(String, String)>,
    pub wrap_long: bool,
    pub truncate_long: bool,
    pub lr: LineReader,
}

impl View for Editor {
    type V = EditorView;

    open spec fn view(&self) -> EditorView {
        EditorView {
            buf: self.buf@,
            undo: self.undo@,
            redo: self.redo@,
            others: self.others@.map_values(|b: Buffer| b@),
            theme: self.theme,
            pal: self.pal@,
            last_search: self.last_search@,
            last_icase: self.last_icase,
            autosave_sec: self.autosave_sec,
            aliases: self.aliases.deep_view(),
            wrap_long: self.wrap_long,
            truncate_long: self.truncate_long,
            lr: self.lr@,
        }
    }
}

/// The undo/redo-relevant projection of an editor.
pub open spec fn ed_hist(v: EditorView) -> HistState {
    HistState { lines: v.buf.lines, undo: v.undo, redo: v.redo }
}

/// The command names registered with the line reader.
pub open spec fn spec_command_list() -> Seq<Seq<char>> {
    seq![
        "help"@, "open"@, "info"@, "write"@, "w"@, "wq"@, "quit"@, "q"@, "print"@, "p"@, "r"@,
        "append"@, "a"@, "insert"@, "i"@, "delete"@, "d"@, "find"@, "findi"@, "number"@,
        "theme"@, "alias"@, "new"@, "bnext"@, "bprev"@, "lsb"@, "pwd"@, "cd"@, "ls"@, "undo"@,
        "u"@, "redo"@, "rustfmt"@, "cargo"@, "cargo-run"@, "cargo-check"@, "cargo-build"@,
        "rs-snip"@, "rs-detect"@, "rs-explain"@, "version"@, "clear"@, "goto"@, "rs-run"@,
    ]
}

/// The value of an alias key: the most recently added binding wins.
pub open spec fn spec_alias_val(al: Seq<(Seq<char>, Seq<char>)>, k: Seq<char>) -> Option<
    Seq<char>,
>
    decreases al.len(),
{
    if al.len() == 0 {
        None
    } else if al.last().0 == k {
        Some(al.last().1)
    } else {
        spec_alias_val(al.drop_last(), k)
    }
}

/// Does a buffer line match the query, with optional ASCII case folding?
pub open spec fn line_matches(line: Seq<char>, q: Seq<char>, icase: bool) -> bool {
    if icase {
        spec_contains(lower_seq(line), lower_seq(q))
    } else {
        spec_contains(line, q)
    }
}

impl Editor {
    pub open spec fn wf(&self) -> bool {
        self.undo.wf() && self.redo.wf() && self.lr.wf()
    }

    /// A fresh editor: empty unnamed buffer, empty stacks, default theme,
    /// the full command list registered, a two-minute autosave interval.
    pub fn new() -> (r: Editor)
        ensures
            r.wf(),
            r@.buf.path.is_none(),
            r@.buf.lines == Seq::<Seq<char>>::empty(),
            !r@.buf.dirty,
            r@.undo == Seq::<LinesView>::empty(),
            r@.redo == Seq::<LinesView>::empty(),
            r@.others == Seq::<BufferView>::empty(),
            r@.theme matches Theme::Default,
            r@.pal == spec_palette(Theme::Default, true) || r@.pal == spec_palette(
                Theme::Default, false),
            r@.lr.commands == spec_command_list(),
            r@.lr.history == Seq::<Seq<char>>::empty(),
            r@.lr.input_color == r@.pal.input,
            r@.autosave_sec == 120,
            r@.aliases == Seq::<(Seq<char>, Seq<char>)>::empty(),
            r@.wrap_long,
            !r@.truncate_long,
    {
        let theme = Theme::Default;
        let pal = palette_for(theme);
        let mut lr = LineReader::new();
        let cmds: Vec<String> = vec![
            "help".to_owned(), "open".to_owned(), "info".to_owned(), "write".to_owned(),
            "w".to_owned(), "wq".to_owned(), "quit".to_owned(), "q".to_owned(),
            "print".to_owned(), "p".to_owned(), "r".to_owned(), "append".to_owned(),
            "a".to_owned(), "insert".to_owned(), "i".to_owned(), "delete".to_owned(),
            "d".to_owned(), "find".to_owned(), "findi".to_owned(), "number".to_owned(),
            "theme".to_owned(), "alias".to_owned(), "new".to_owned(), "bnext".to_owned(),
            "bprev".to_owned(), "lsb".to_owned(), "pwd".to_owned(), "cd".to_owned(),
            "ls".to_owned(), "undo".to_owned(), "u".to_owned(), "redo".to_owned(),
            "rustfmt".to_owned(), "cargo".to_owned(), "cargo-run".to_owned(),
            "cargo-check".to_owned(), "cargo-build".to_owned(), "rs-snip".to_owned(),
            "rs-detect".to_owned(), "rs-explain".to_owned(), "version".to_owned(),
            "clear".to_owned(), "goto".to_owned(), "rs-run".to_owned(),
        ];
        proof {
            assert(cmds.deep_view() =~= spec_command_list());
        }
        lr.set_commands(cmds);
        lr.set_input_color(pal.input);
        let r = Editor {
            buf: Buffer::new(),
            undo: Stack::new(),
            redo: Stack::new(),
            others: Vec::new(),
            theme,
            pal,
            last_search: String::new(),
            last_icase: false,
            autosave_sec: 120,
            aliases: Vec::new(),
            wrap_long: true,
            truncate_long: false,
            lr,
        };
        proof {
            assert(r@.others =~= Seq::<BufferView>::empty());
            assert(r@.aliases =~= Seq::<(Seq<char>, Seq<char>)>::empty());
        }
        r
    }

    /// The prompt string, starred when the buffer is dirty.
    pub fn prompt(&self) -> (r: String)
        ensures
            ({
                let base = if self@.buf.dirty {
                    "*trust>"@
                } else {
                    "trust>"@
                };
                r@ == base + " "@ || r@ == grad_chars(base, seq![self@.pal.title,
                    self@.pal.accent, self@.pal.help_cmd, self@.pal.input], 0) + " "@
            }),
    {
        gradient_prompt_text(self.buf.dirty, &self.pal)
    }

    /// Record the current lines for undo and clear redo, as every mutation
    /// must before it changes the buffer.
    pub fn push_undo(&mut self)
        requires
            old(self).wf(),
        ensures
            final(self)@ == (EditorView {
                undo: spec_stack_push(old(self)@.undo, old(self)@.buf.lines),
                redo: Seq::<LinesView>::empty(),
                ..old(self)@
            }),
            final(self).wf(),
    {
        self.undo.push(&self.buf);
        self.redo.clear();
    }

    /// Replace the buffer's lines wholesale, guarded by an undo snapshot.
    pub fn apply_edit(&mut self, new_lines: Vec<String>)
        requires
            old(self).wf(),
        ensures
            ed_hist(final(self)@) == spec_edit(ed_hist(old(self)@), new_lines.deep_view()),
            final(self)@ == (EditorView {
                buf: (BufferView {
                    lines: new_lines.deep_view(),
                    dirty: true,
                    ..old(self)@.buf
                }),
                undo: spec_stack_push(old(self)@.undo, old(self)@.buf.lines),
                redo: Seq::<LinesView>::empty(),
                ..old(self)@
            }),
            final(self).wf(),
    {
        self.push_undo();
        self.buf.lines = new_lines;
        self.buf.dirty = true;
    }

    /// Replace the 1-based inclusive line range `lo..=hi` with new content
    /// (as range formatting does), guarded by an undo snapshot.
    pub fn replace_range(&mut self, lo: usize, hi: usize, new_lines: Vec<String>)
        requires
            old(self).wf(),
            1 <= lo <= hi <= old(self)@.buf.lines.len(),
        ensures
            ed_hist(final(self)@) == spec_edit(ed_hist(old(self)@), old(self)@.buf.lines.take(
                lo - 1) + new_lines.deep_view() + old(self)@.buf.lines.skip(hi as int)),
            final(self)@ == (EditorView {
                buf: (BufferView {
                    lines: old(self)@.buf.lines.take(lo - 1) + new_lines.deep_view() + old(
                        self)@.buf.lines.skip(hi as int),
                    dirty: true,
                    ..old(self)@.buf
                }),
                undo: spec_stack_push(old(self)@.undo, old(self)@.buf.lines),
                redo: Seq::<LinesView>::empty(),
                ..old(self)@
            }),
            final(self).wf(),
    {
        self.push_undo();
        let ghost lines0 = self@.buf.lines;
        let ghost mid = self@;
        let mut out: Vec<String> = Vec::new();
        let mut i: usize = 0;
        while i < lo - 1
            invariant
                0 <= i <= lo - 1 <= self.buf.lines@.len(),
                self@ == mid,
                lines0 == self@.buf.lines,
                out.deep_view() == lines0.take(i as int),
            decreases lo - 1 - i,
        {
            let ghost pre = out.deep_view();
            out.push(self.buf.lines[i].clone());
            proof {
                assert(out.deep_view() =~= pre.push(lines0[i as int]));
                assert(lines0.take(i + 1) =~= lines0.take(i as int).push(lines0[i as int]));
            }
            i = i + 1;
        }
        let mut mids = new_lines;
        out.append(&mut mids);
        let n = self.buf.lines.len();
        let mut j: usize = hi;
        proof {
            assert(out.deep_view() =~= lines0.take(lo - 1) + new_lines.deep_view()
                + lines0.subrange(hi as int, hi as int));
        }
        while j < n
            invariant
                hi <= j <= n == self.buf.lines@.len(),
                self@ == mid,
                lines0 == self@.buf.lines,
                out.deep_view() == lines0.take(lo - 1) + new_lines.deep_view()
                    + lines0.subrange(hi as int, j as int),
                1 <= lo,
                lo - 1 <= hi <= lines0.len(),
            decreases n - j,
        {
            let ghost pre = out.deep_view();
            out.push(self.buf.lines[j].clone());
            proof {
                assert(out.deep_view() =~= pre.push(lines0[j as int]));
                assert(lines0.subrange(hi as int, j + 1) =~= lines0.subrange(hi as int,
                    j as int).push(lines0[j as int]));
                assert(out.deep_view() =~= lines0.take(lo - 1) + new_lines.deep_view()
                    + lines0.subrange(hi as int, j + 1));
            }
            j = j + 1;
        }
        self.buf.lines = out;
        self.buf.dirty = true;
        proof {
            assert(lines0.subrange(hi as int, lines0.len() as int) =~= lines0.skip(hi as int));
        }
    }

    /// Delete the 1-based inclusive line range `lo..=hi`, guarded by an
    /// undo snapshot.
    pub fn delete_range(&mut self, lo: usize, hi: usize)
        requires
            old(self).wf(),
            1 <= lo <= hi <= old(self)@.buf.lines.len(),
        ensures
            ed_hist(final(self)@) == spec_edit(ed_hist(old(self)@), old(self)@.buf.lines.take(
                lo - 1) + old(self)@.buf.lines.skip(hi as int)),
            final(self)@ == (EditorView {
                buf: (BufferView {
                    lines: old(self)@.buf.lines.take(lo - 1) + old(self)@.buf.lines.skip(
                        hi as int),
                    dirty: true,
                    ..old(self)@.buf
                }),
                undo: spec_stack_push(old(self)@.undo, old(self)@.buf.lines),
                redo: Seq::<LinesView>::empty(),
                ..old(self)@
            }),
            final(self).wf(),
    {
        self.push_undo();
        let ghost lines0 = self@.buf.lines;
        let ghost mid = self@;
        let mut k: usize = 0;
        let count = hi - lo + 1;
        proof {
            assert(lines0.take(lo - 1) + lines0.skip(lo - 1 + 0) =~= lines0);
        }
        while k < count
            invariant
                0 <= k <= count,
                lo - 1 + (count - k) <= self.buf.lines@.len(),
                self.buf.lines@.len() == self@.buf.lines.len(),
                self.buf.lines.deep_view() == lines0.take(lo - 1) + lines0.skip(lo - 1 + k),
                self@ == (EditorView {
                    buf: (BufferView { lines: self@.buf.lines, ..mid.buf }),
                    ..mid
                }),
                self.lr.wf(),
                count == hi - lo + 1,
                1 <= lo,
                lo - 1 + count <= lines0.len(),
            decreases count - k,
        {
            let ghost pre = self.buf.lines.deep_view();
            self.buf.lines.remove(lo - 1);
            proof {
                assert(self.buf.lines.deep_view() =~= pre.remove(lo - 1));
                assert(pre.remove(lo - 1) =~= lines0.take(lo - 1) + lines0.skip(lo - 1 + k + 1));
            }
            k = k + 1;
        }
        self.buf.dirty = true;
        proof {
            assert(self@.buf.lines =~= lines0.take(lo - 1) + lines0.skip(hi as int));
        }
    }

    /// Insert lines before 1-based line `n` (clamped to the end), guarded
    /// by an undo snapshot.
    pub fn insert_lines(&mut self, n: usize, added: Vec<String>)
        requires
            old(self).wf(),
        ensures
            ({
                let idx = if n == 0 {
                    0int
                } else if n - 1 <= old(self)@.buf.lines.len() {
                    n - 1
                } else {
                    old(self)@.buf.lines.len() as int
                };
                ed_hist(final(self)@) == spec_edit(ed_hist(old(self)@), old(
                    self)@.buf.lines.take(idx) + added.deep_view() + old(self)@.buf.lines.skip(
                    idx)) && final(self)@ == (EditorView {
                    buf: (BufferView {
                        lines: old(self)@.buf.lines.take(idx) + added.deep_view() + old(
                            self)@.buf.lines.skip(idx),
                        dirty: true,
                        ..old(self)@.buf
                    }),
                    undo: spec_stack_push(old(self)@.undo, old(self)@.buf.lines),
                    redo: Seq::<LinesView>::empty(),
                    ..old(self)@
                })
            }),
            final(self).wf(),
    {
        self.push_undo();
        let ghost lines0 = self@.buf.lines;
        let len = self.buf.lines.len();
        let start = if n == 0 {
            0
        } else if n - 1 <= len {
            n - 1
        } else {
            len
        };
        let m = added.len();
        let mut added_v = added;
        let ghost mid = self@;
        let mut k: usize = 0;
        proof {
            assert(lines0.take(start as int) + added_v.deep_view().take(0) + lines0.skip(
                start as int) =~= lines0);
        }
        while k < m
            invariant
                0 <= k <= m == added_v.deep_view().len(),
                m == added_v@.len(),
                start + k <= self.buf.lines@.len(),
                start <= lines0.len(),
                self.buf.lines.deep_view() == lines0.take(start as int)
                    + added_v.deep_view().take(k as int) + lines0.skip(start as int),
                self@ == (EditorView {
                    buf: (BufferView { lines: self@.buf.lines, ..mid.buf }),
                    ..mid
                }),
                self.lr.wf(),
            decreases m - k,
        {
            let ghost pre = self.buf.lines.deep_view();
            let item = added_v[k].clone();
            let cl = self.buf.lines.len();
            proof {
                assert(start + k <= cl);
            }
            self.buf.lines.insert(start + k, item);
            proof {
                assert(self.buf.lines.deep_view() =~= pre.insert(start + k,
                    added_v.deep_view()[k as int]));
                assert(pre.insert(start + k, added_v.deep_view()[k as int]) =~= lines0.take(
                    start as int) + added_v.deep_view().take(k + 1) + lines0.skip(start as int));
            }
            k = k + 1;
        }
        self.buf.dirty = true;
        proof {
            assert(added_v.deep_view().take(m as int) =~= added_v.deep_view());
            assert(added_v.deep_view() == added.deep_view());
        }
    }

    /// Append lines at the end of the buffer, guarded by an undo snapshot.
    pub fn append_lines(&mut self, added: Vec<String>)
        requires
            old(self).wf(),
        ensures
            ed_hist(final(self)@) == spec_edit(ed_hist(old(self)@), old(self)@.buf.lines
                + added.deep_view()),
            final(self)@ == (EditorView {
                buf: (BufferView {
                    lines: old(self)@.buf.lines + added.deep_view(),
                    dirty: true,
                    ..old(self)@.buf
                }),
                undo: spec_stack_push(old(self)@.undo, old(self)@.buf.lines),
                redo: Seq::<LinesView>::empty(),
                ..old(self)@
            }),
            final(self).wf(),
    {
        self.push_undo();
        let ghost lines0 = self@.buf.lines;
        let mut added_v = added;
        self.buf.lines.append(&mut added_v);
        self.buf.dirty = true;
        proof {
            assert(self@.buf.lines =~= lines0 + added.deep_view());
        }
    }

    /// Undo the most recent mutation, if any: the current lines move to the
    /// redo stack and the popped snapshot becomes current.
    pub fn undo(&mut self) -> (r: bool)
        requires
            old(self).wf(),
        ensures
            ed_hist(final(self)@) == spec_undo(ed_hist(old(self)@)),
            r == (old(self)@.undo.len() > 0),
            r ==> final(self)@ == (EditorView {
                buf: (BufferView { lines: old(self)@.undo.last(), dirty: true, ..old(self)@.buf }),
                undo: old(self)@.undo.drop_last(),
                redo: spec_stack_push(old(self)@.redo, old(self)@.buf.lines),
                ..old(self)@
            }),
            !r ==> final(self)@ == old(self)@,
            final(self).wf(),
    {
        match self.undo.pop() {
            Some(s) => {
                self.redo.push(&self.buf);
                self.buf.lines = s.lines;
                self.buf.dirty = true;
                true
            },
            None => false,
        }
    }

    /// Redo the most recently undone mutation, if any: the mirror of undo.
    pub fn redo(&mut self) -> (r: bool)
        requires
            old(self).wf(),
        ensures
            ed_hist(final(self)@) == spec_redo(ed_hist(old(self)@)),
            r == (old(self)@.redo.len() > 0),
            r ==> final(self)@ == (EditorView {
                buf: (BufferView { lines: old(self)@.redo.last(), dirty: true, ..old(self)@.buf }),
                redo: old(self)@.redo.drop_last(),
                undo: spec_stack_push(old(self)@.undo, old(self)@.buf.lines),
                ..old(self)@
            }),
            !r ==> final(self)@ == old(self)@,
            final(self).wf(),
    {
        match self.redo.pop() {
            Some(s) => {
                self.undo.push(&self.buf);
                self.buf.lines = s.lines;
                self.buf.dirty = true;
                true
            },
            None => false,
        }
    }

    /// Adopt freshly loaded file content: the buffer's lines are replaced,
    /// the path adopted, and the buffer is clean.  Undo history is kept.
    pub fn load_into(&mut self, path: String, lines: Vec<String>)
        ensures
            final(self)@ == (EditorView {
                buf: (BufferView {
                    path: Some(path@),
                    lines: lines.deep_view(),
                    dirty: false,
                    ..old(self)@.buf
                }),
                ..old(self)@
            }),
            final(self).wf() == old(self).wf(),
    {
        self.buf.lines = lines;
        self.buf.path = Some(path);
        self.buf.dirty = false;
    }

    /// Adopt a path that could not be read: a fresh buffer named by it.
    pub fn load_fresh(&mut self, path: String)
        ensures
            final(self)@ == (EditorView {
                buf: (BufferView {
                    path: Some(path@),
                    lines: Seq::<Seq<char>>::empty(),
                    dirty: false,
                    number: true,
                    backup: true,
                    highlight: false,
                }),
                ..old(self)@
            }),
            final(self).wf() == old(self).wf(),
    {
        self.buf = Buffer::new();
        self.buf.path = Some(path);
        proof {
            assert(self@.buf.lines =~= Seq::<Seq<char>>::empty());
        }
    }

    /// After a successful save: adopt the target path and clear dirty.
    pub fn mark_saved(&mut self, path: String)
        ensures
            final(self)@ == (EditorView {
                buf: (BufferView { path: Some(path@), dirty: false, ..old(self)@.buf }),
                ..old(self)@
            }),
            final(self).wf() == old(self).wf(),
    {
        self.buf.path = Some(path);
        self.buf.dirty = false;
    }

    /// Remember the last search query.
    pub fn set_last_search(&mut self, q: &str, icase: bool)
        ensures
            final(self)@ == (EditorView { last_search: q@, last_icase: icase, ..old(self)@ }),
            final(self).wf() == old(self).wf(),
    {
        self.last_search = q.to_owned();
        self.last_icase = icase;
    }

    /// The 1-based numbers of the lines that match `q`, in order.
    pub fn search_matches(&self, q: &str, icase: bool) -> (r: Vec<usize>)
        ensures
            forall|k: int| 0 <= k < r@.len() ==> 1 <= #[trigger] r@[k] <= self@.buf.lines.len()
                && line_matches(self@.buf.lines[r@[k] - 1], q@, icase),
            forall|k1: int, k2: int| 0 <= k1 < k2 < r@.len() ==> #[trigger] r@[k1]
                < #[trigger] r@[k2],
            forall|j: int| 0 <= j < self@.buf.lines.len() && line_matches(
                #[trigger] self@.buf.lines[j], q@, icase) ==> r@.contains((j + 1) as usize),
    {
        let qn: String = if icase {
            lower(q)
        } else {
            q.to_owned()
        };
        let mut r: Vec<usize> = Vec::new();
        let n = self.buf.lines.len();
        let mut i: usize = 0;
        while i < n
            invariant
                0 <= i <= n == self@.buf.lines.len(),
                n == self.buf.lines@.len(),
                qn@ == if icase {
                    lower_seq(q@)
                } else {
                    q@
                },
                forall|k: int| 0 <= k < r@.len() ==> 1 <= #[trigger] r@[k] <= i && line_matches(
                    self@.buf.lines[r@[k] - 1], q@, icase),
                forall|k1: int, k2: int| 0 <= k1 < k2 < r@.len() ==> #[trigger] r@[k1]
                    < #[trigger] r@[k2],
                forall|j: int| 0 <= j < i && line_matches(#[trigger] self@.buf.lines[j], q@,
                    icase) ==> r@.contains((j + 1) as usize),
            decreases n - i,
        {
            let ghost pre = r@;
            let hit = if icase {
                let low = lower(self.buf.lines[i].as_str());
                str_contains(low.as_str(), qn.as_str())
            } else {
                str_contains(self.buf.lines[i].as_str(), qn.as_str())
            };
            if hit {
                r.push(i + 1);
            }
            proof {
                assert forall|j: int| 0 <= j < i + 1 && line_matches(
                    #[trigger] self@.buf.lines[j], q@, icase) implies r@.contains((j
                    + 1) as usize) by {
                    if j < i {
                        assert(pre.contains((j + 1) as usize));
                        let w = choose|w: int| 0 <= w < pre.len() && pre[w] == (j + 1) as usize;
                        assert(r@[w] == (j + 1) as usize);
                    } else {
                        assert(r@.last() == (i + 1) as usize);
                    }
                }
            }
            i = i + 1;
        }
        r
    }

    /// Rotate to the next buffer: the current one goes to the bottom of the
    /// side list and the most recent side buffer becomes current.  With no
    /// side buffers nothing happens.
    pub fn bnext(&mut self) -> (r: bool)
        ensures
            r == (old(self)@.others.len() > 0),
            r ==> final(self)@ == (EditorView {
                buf: old(self)@.others.last(),
                others: seq![old(self)@.buf] + old(self)@.others.drop_last(),
                ..old(self)@
            }),
            !r ==> final(self)@ == old(self)@,
            final(self).wf() == old(self).wf(),
    {
        if self.others.len() == 0 {
            return false;
        }
        let ghost others0 = self@.others;
        let cur = self.buf.clone();
        self.others.insert(0, cur);
        let last = self.others.pop();
        match last {
            Some(b) => {
                self.buf = b;
            },
            None => {},
        }
        proof {
            assert(self@.others =~= seq![old(self)@.buf] + others0.drop_last());
        }
        true
    }

    /// Rotate to the previous buffer.  The side list is rotated the same
    /// way as by `bnext`: the most recent side buffer becomes current and
    /// the old current buffer goes to the bottom of the list.
    pub fn bprev(&mut self) -> (r: bool)
        ensures
            r == (old(self)@.others.len() > 0),
            r ==> final(self)@ == (EditorView {
                buf: old(self)@.others.last(),
                others: seq![old(self)@.buf] + old(self)@.others.drop_last(),
                ..old(self)@
            }),
            !r ==> final(self)@ == old(self)@,
            final(self).wf() == old(self).wf(),
    {
        if self.others.len() == 0 {
            return false;
        }
        let ghost others0 = self@.others;
        let last = self.others.pop();
        let cur = self.buf.clone();
        self.others.insert(0, cur);
        match last {
            Some(b) => {
                self.buf = b;
            },
            None => {},
        }
        proof {
            assert(self@.others =~= seq![old(self)@.buf] + others0.drop_last());
        }
        true
    }

    /// Stash the current buffer and start a fresh unnamed one.
    pub fn new_buffer(&mut self)
        ensures
            final(self)@ == (EditorView {
                buf: (BufferView {
                    path: None,
                    lines: Seq::<Seq<char>>::empty(),
                    dirty: false,
                    number: true,
                    backup: true,
                    highlight: false,
                }),
                others: old(self)@.others.push(old(self)@.buf),
                ..old(self)@
            }),
            final(self).wf() == old(self).wf(),
    {
        let ghost others0 = self@.others;
        let cur = self.buf.clone();
        self.others.push(cur);
        self.buf = Buffer::new();
        proof {
            assert(self@.others =~= others0.push(old(self)@.buf));
            assert(self@.buf.lines =~= Seq::<Seq<char>>::empty());
        }
    }

    /// Select a theme by name; unknown names select the default.  The
    /// palette and the reader's input color follow.
    pub fn set_theme(&mut self, name: &str)
        requires
            old(self).wf(),
        ensures
            ({
                let t = spec_theme_from_name(name@);
                final(self)@.theme == t && (final(self)@.pal == spec_palette(t, true) || final(
                    self)@.pal == spec_palette(t, false)) && final(self)@ == (EditorView {
                    theme: t,
                    pal: final(self)@.pal,
                    lr: (LineReaderView { input_color: final(self)@.pal.input, ..old(self)@.lr }),
                    ..old(self)@
                })
            }),
            final(self).wf(),
    {
        let t = theme_from_name(name);
        self.theme = t;
        self.pal = palette_for(t);
        self.lr.set_input_color(self.pal.input);
    }

    /// Whether an autosave is due now, given the seconds elapsed since the
    /// last autosave check.
    pub fn autosave_needed(&self, elapsed_secs: u64) -> (r: bool)
        ensures
            r == (self@.autosave_sec != 0 && self@.buf.dirty && elapsed_secs
                >= self@.autosave_sec),
    {
        crate::persist::autosave_due(self.autosave_sec, self.buf.dirty, elapsed_secs)
    }

    /// Expand a leading `~` in a user-supplied path against the given home.
    pub fn expand_path(&self, s: &str, home: &str) -> (r: String)
        ensures
            r@ == if s@ == "~"@ {
                home@
            } else if crate::text::is_prefix("~/"@, s@) {
                home@ + "/"@ + s@.skip(2)
            } else {
                s@
            },
    {
        LineReader::expand_home(s, home)
    }

    /// Bind an alias; a later binding for the same key shadows an earlier
    /// one.
    pub fn add_alias(&mut self, from: &str, to: &str)
        ensures
            final(self)@ == (EditorView {
                aliases: old(self)@.aliases.push((lower_seq(from@), to@)),
                ..old(self)@
            }),
            final(self).wf() == old(self).wf(),
    {
        let ghost al0 = self@.aliases;
        let key = lower(from);
        self.aliases.push((key, to.to_owned()));
        proof {
            assert(self@.aliases =~= al0.push((lower_seq(from@), to@)));
        }
    }

    /// Look an alias up by its (case-folded) key.
    pub fn alias_lookup(&self, cmd: &str) -> (r: Option<String>)
        ensures
            match r {
                Some(v) => spec_alias_val(self@.aliases, lower_seq(cmd@)) == Some(v@),
                None => spec_alias_val(self@.aliases, lower_seq(cmd@)).is_none(),
            },
    {
        let key = lower(cmd);
        let n = self.aliases.len();
        let mut i: usize = n;
        proof {
            assert(self@.aliases.take(n as int) =~= self@.aliases);
        }
        while i > 0
            invariant
                0 <= i <= n == self@.aliases.len(),
                n == self.aliases@.len(),
                key@ == lower_seq(cmd@),
                spec_alias_val(self@.aliases, lower_seq(cmd@)) == spec_alias_val(
                    self@.aliases.take(i as int), lower_seq(cmd@)),
            decreases i,
        {
            let ghost al = self@.aliases;
            proof {
                assert(al.take(i as int).last() == al[i - 1]);
                assert(al.take(i as int).drop_last() =~= al.take(i - 1));
                assert(al[i - 1].0 == self.aliases@[i - 1].0@);
            }
            if str_eq(self.aliases[i - 1].0.as_str(), key.as_str()) {
                return Some(self.aliases[i - 1].1.clone());
            }
            i = i - 1;
        }
        proof {
            assert(self@.aliases.take(0) =~= Seq::<(Seq<char>, Seq<char>)>::empty());
        }
        None
    }
}

} // verus!
