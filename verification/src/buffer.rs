//! The in-memory text buffer: an ordered sequence of lines with a source
//! path, a dirty flag and per-buffer display/save flags.

use vstd::prelude::*;

verus! {

/// Abstract value of a [`Buffer`].
pub struct BufferView {
    pub path: Option<Seq<char>>,
    pub lines: Seq<Seq<char>>,
    pub dirty: bool,
    pub number: bool,
    pub backup: bool,
    pub highlight: bool,
}

pub struct Buffer {
    pub path: Option<String>,
    pub lines: Vec<String>,
    pub dirty: bool,
    pub number: bool,
    pub backup: bool,
    pub highlight: bool,
}

impl View for Buffer {
    type V = BufferView;

    open spec fn view(&self) -> BufferView {
        BufferView {
            path: self.path.deep_view(),
            lines: self.lines.deep_view(),
            dirty: self.dirty,
            number: self.number,
            backup: self.backup,
            highlight: self.highlight,
        }
    }
}

/// The name a buffer is reported under: its path, or a placeholder.
pub open spec fn spec_buffer_name(b: BufferView) -> Seq<char> {
    match b.path {
        Some(p) => p,
        None => "(unnamed)"@,
    }
}

/// Character count of a buffer: each line plus one line terminator.
pub open spec fn spec_char_count(lines: Seq<Seq<char>>) -> nat
    decreases lines.len(),
{
    if lines.len() == 0 {
        0
    } else {
        lines[0].len() + 1 + spec_char_count(lines.drop_first())
    }
}

proof fn lemma_char_count_snoc(lines: Seq<Seq<char>>, x: Seq<char>)
    ensures
        spec_char_count(lines.push(x)) == spec_char_count(lines) + x.len() + 1,
    decreases lines.len(),
{
    if lines.len() == 0 {
        assert(lines.push(x)[0] == x);
        assert(lines.push(x).drop_first() =~= Seq::<Seq<char>>::empty());
        assert(spec_char_count(Seq::<Seq<char>>::empty()) == 0);
    } else {
        assert(lines.push(x)[0] == lines[0]);
        assert(lines.push(x).drop_first() =~= lines.drop_first().push(x));
        lemma_char_count_snoc(lines.drop_first(), x);
        assert(spec_char_count(lines.push(x)) == lines[0].len() + 1 + spec_char_count(
            lines.drop_first().push(x)));
    }
}

impl Buffer {
    /// A fresh, unnamed, empty buffer with default flags.
    pub fn new() -> (r: Buffer)
        ensures
            r@.path.is_none(),
            r@.lines == Seq::<Seq<char>>::empty(),
            !r@.dirty,
            r@.number,
            r@.backup,
            !r@.highlight,
    {
        Buffer {
            path: None,
            lines: Vec::new(),
            dirty: false,
            number: true,
            backup: true,
            highlight: false,
        }
    }

    /// The buffer's display name.
    pub fn name(&self) -> (r: String)
        ensures
            r@ == spec_buffer_name(self@),
    {
        match &self.path {
            Some(p) => p.clone(),
            None => "(unnamed)".to_owned(),
        }
    }

    /// Total characters held, counting one terminator per line; saturates
    /// at the machine limit.
    pub fn char_count(&self) -> (r: usize)
        ensures
            r == if spec_char_count(self@.lines) <= usize::MAX {
                spec_char_count(self@.lines) as usize
            } else {
                usize::MAX
            },
    {
        let n = self.lines.len();
        let mut acc: usize = 0;
        let mut i: usize = 0;
        while i < n
            invariant
                0 <= i <= n == self@.lines.len(),
                n == self.lines@.len(),
                acc == if spec_char_count(self@.lines.take(i as int)) <= usize::MAX {
                    spec_char_count(self@.lines.take(i as int)) as usize
                } else {
                    usize::MAX
                },
            decreases n - i,
        {
            proof {
                lemma_char_count_snoc(self@.lines.take(i as int), self@.lines[i as int]);
                assert(self@.lines.take(i as int).push(self@.lines[i as int]) =~= self@.lines.take(
                    i + 1));
            }
            let ln = self.lines[i].as_str().unicode_len();
            acc = acc.saturating_add(ln).saturating_add(1);
            i = i + 1;
        }
        proof {
            assert(self@.lines.take(n as int) =~= self@.lines);
        }
        acc
    }
}

impl Clone for Buffer {
    /// A buffer copy with the same abstract value.
    fn clone(&self) -> (res: Buffer)
        ensures
            res@ == self@,
    {
        let path = match &self.path {
            Some(p) => Some(p.clone()),
            None => None,
        };
        let lines = crate::text::clone_lines(&self.lines);
        let res = Buffer {
            path,
            lines,
            dirty: self.dirty,
            number: self.number,
            backup: self.backup,
            highlight: self.highlight,
        };
        proof {
            assert(res@.lines =~= self@.lines);
        }
        res
    }
}

} // verus!
