//! The raw-mode line-edit session: a per-byte state machine that turns an
//! unbuffered byte stream into an edited, history-aware line, with escape
//! sequence decoding, and with the guarantee that every terminating input
//! (Enter, end of stream, cancellation) ends raw mode exactly once.

use vstd::prelude::*;
use crate::reader::{LineReader, spec_remember, spec_split_words};
use crate::text::{rfind_idx, str_to_chars, chars_to_string, lemma_rfind_idx_props, rfind_char};

verus! {

/// Escape-sequence decoding state: nothing pending, a lone ESC seen, or
/// ESC `[` seen.
pub enum EscState {
    Idle,
    Esc,
    Csi,
}

/// Abstract value of an [`EditSession`].
pub struct SessionView {
    pub buf: Seq<char>,
    pub cursor: int,
    pub hist_idx: int,
    pub esc: EscState,
    pub raw: bool,
}

/// Edit state for one `read_line` call: the line under construction, the
/// cursor within it, the history-browse index, the escape decoder state and
/// whether the terminal is still in raw mode.
pub struct EditSession {
    pub buf: Vec<char>,
    pub cursor: usize,
    pub hist_idx: usize,
    pub esc: EscState,
    pub raw: bool,
}

impl View for EditSession {
    type V = SessionView;

    open spec fn view(&self) -> SessionView {
        SessionView {
            buf: self.buf@,
            cursor: self.cursor as int,
            hist_idx: self.hist_idx as int,
            esc: self.esc,
            raw: self.raw,
        }
    }
}

pub open spec fn session_wf(v: SessionView, hlen: int) -> bool {
    0 <= v.cursor <= v.buf.len() && 0 <= v.hist_idx <= hlen
}

/// The kind of outcome a step has, as a specification value.
pub enum StepKind {
    Pending { redraw: bool },
    Tab,
    Submit,
    Cancel,
}

/// What a step reports back to the driving loop.
pub enum StepEffect {
    /// Keep reading; redraw the line first if asked to.
    Pending { redraw: bool },
    /// Run completion for the current line.
    Tab,
    /// The line was submitted with Enter.
    Submitted(String),
    /// End of stream or cancellation: no line.
    Cancelled,
}

/// The transition relation of the per-byte editor state machine.  `None`
/// models end of stream (or an interrupted read); any terminating input
/// clears `raw`.
pub open spec fn spec_step(v: SessionView, hist: Seq<Seq<char>>, input: Option<u8>) -> (
    SessionView,
    StepKind,
) {
    match input {
        None => (SessionView { raw: false, ..v }, StepKind::Cancel),
        Some(b) => match v.esc {
            EscState::Idle => {
                if b == 13 || b == 10 {
                    (SessionView { raw: false, ..v }, StepKind::Submit)
                } else if b == 127 || b == 8 {
                    if v.cursor > 0 {
                        (
                            SessionView {
                                buf: v.buf.remove(v.cursor - 1),
                                cursor: v.cursor - 1,
                                ..v
                            },
                            StepKind::Pending { redraw: true },
                        )
                    } else {
                        (v, StepKind::Pending { redraw: false })
                    }
                } else if b == 9 {
                    (v, StepKind::Tab)
                } else if b == 27 {
                    (SessionView { esc: EscState::Esc, ..v }, StepKind::Pending { redraw: false })
                } else {
                    (
                        SessionView { buf: v.buf.insert(v.cursor, b as char), cursor: v.cursor + 1, ..v },
                        StepKind::Pending { redraw: true },
                    )
                }
            },
            EscState::Esc => {
                if b == 91 {
                    (SessionView { esc: EscState::Csi, ..v }, StepKind::Pending { redraw: false })
                } else {
                    (SessionView { esc: EscState::Idle, ..v }, StepKind::Pending { redraw: false })
                }
            },
            EscState::Csi => {
                let vi = SessionView { esc: EscState::Idle, ..v };
                if b == 65 {
                    if v.hist_idx > 0 {
                        (
                            SessionView {
                                buf: hist[v.hist_idx - 1],
                                cursor: hist[v.hist_idx - 1].len() as int,
                                hist_idx: v.hist_idx - 1,
                                esc: EscState::Idle,
                                ..v
                            },
                            StepKind::Pending { redraw: true },
                        )
                    } else {
                        (vi, StepKind::Pending { redraw: false })
                    }
                } else if b == 66 {
                    if v.hist_idx + 1 < hist.len() {
                        (
                            SessionView {
                                buf: hist[v.hist_idx + 1],
                                cursor: hist[v.hist_idx + 1].len() as int,
                                hist_idx: v.hist_idx + 1,
                                esc: EscState::Idle,
                                ..v
                            },
                            StepKind::Pending { redraw: true },
                        )
                    } else {
                        (
                            SessionView {
                                buf: Seq::<char>::empty(),
                                cursor: 0,
                                hist_idx: hist.len() as int,
                                esc: EscState::Idle,
                                ..v
                            },
                            StepKind::Pending { redraw: true },
                        )
                    }
                } else if b == 67 {
                    if v.cursor < v.buf.len() {
                        (
                            SessionView { cursor: v.cursor + 1, esc: EscState::Idle, ..v },
                            StepKind::Pending { redraw: true },
                        )
                    } else {
                        (vi, StepKind::Pending { redraw: false })
                    }
                } else if b == 68 {
                    if v.cursor > 0 {
                        (
                            SessionView { cursor: v.cursor - 1, esc: EscState::Idle, ..v },
                            StepKind::Pending { redraw: true },
                        )
                    } else {
                        (vi, StepKind::Pending { redraw: false })
                    }
                } else {
                    (vi, StepKind::Pending { redraw: false })
                }
            },
        },
    }
}

/// Does an exec effect agree with a spec step kind, for a session whose
/// line was `buf0` when the step happened?
pub open spec fn effect_matches(r: StepEffect, kind: StepKind, buf0: Seq<char>) -> bool {
    match kind {
        StepKind::Pending { redraw } => r matches StepEffect::Pending { redraw: rr } && rr
            == redraw,
        StepKind::Tab => r matches StepEffect::Tab,
        StepKind::Submit => r matches StepEffect::Submitted(line) && line@ == buf0,
        StepKind::Cancel => r matches StepEffect::Cancelled,
    }
}

/// Every terminating step (Enter, end of stream) of a live session clears
/// `raw` — the model of restoring the saved terminal attributes — and every
/// other step leaves the session live; a session that is no longer live
/// cannot be stepped again, so the restoration happens exactly once.
pub proof fn lemma_step_restores_once(v: SessionView, hist: Seq<Seq<char>>, input: Option<u8>)
    requires
        v.raw,
    ensures
        ({
            let (sv, k) = spec_step(v, hist, input);
            sv.raw == !(k matches StepKind::Submit || k matches StepKind::Cancel)
        }),
{
}

impl EditSession {
    /// Start a read: empty line, cursor at 0, history browsing past the
    /// newest entry, raw mode engaged.
    pub fn begin(hist_len: usize) -> (r: EditSession)
        ensures
            r@ == (SessionView {
                buf: Seq::<char>::empty(),
                cursor: 0,
                hist_idx: hist_len as int,
                esc: EscState::Idle,
                raw: true,
            }),
    {
        let r = EditSession {
            buf: Vec::new(),
            cursor: 0,
            hist_idx: hist_len,
            esc: EscState::Idle,
            raw: true,
        };
        proof {
            assert(r@.buf =~= Seq::<char>::empty());
        }
        r
    }

    /// The line as typed so far.
    pub fn current_line(&self) -> (r: String)
        ensures
            r@ == self@.buf,
    {
        chars_to_string(&self.buf)
    }
}

impl LineReader {
    /// Feed one input (a byte, or end of stream) to a live session.  The
    /// session steps exactly as [`spec_step`] says; on submission the line
    /// is recorded in the history and raw mode is left, on cancellation raw
    /// mode is left with nothing recorded.
    pub fn step(&mut self, s: &mut EditSession, input: Option<u8>) -> (r: StepEffect)
        requires
            old(s)@.raw,
            session_wf(old(s)@, old(self)@.history.len() as int),
            old(self).wf(),
            old(s)@.buf.len() < usize::MAX,
        ensures
            final(s)@ == spec_step(old(s)@, old(self)@.history, input).0,
            effect_matches(r, spec_step(old(s)@, old(self)@.history, input).1, old(s)@.buf),
            final(self)@.commands == old(self)@.commands,
            final(self)@.input_color == old(self)@.input_color,
            final(self)@.history == (if (spec_step(old(s)@, old(self)@.history, input).1 matches
                StepKind::Submit) {
                spec_remember(old(self)@.history, old(s)@.buf)
            } else {
                old(self)@.history
            }),
            final(self).wf(),
            session_wf(final(s)@, final(self)@.history.len() as int),
    {
        let input_b = match input {
            Some(b) => b,
            None => {
                s.raw = false;
                return StepEffect::Cancelled;
            },
        };
        match s.esc {
            EscState::Idle => {
                if input_b == 13 || input_b == 10 {
                    let line = chars_to_string(&s.buf);
                    self.remember(line.as_str());
                    s.raw = false;
                    StepEffect::Submitted(line)
                } else if input_b == 127 || input_b == 8 {
                    if s.cursor > 0 {
                        s.buf.remove(s.cursor - 1);
                        s.cursor = s.cursor - 1;
                        StepEffect::Pending { redraw: true }
                    } else {
                        StepEffect::Pending { redraw: false }
                    }
                } else if input_b == 9 {
                    StepEffect::Tab
                } else if input_b == 27 {
                    s.esc = EscState::Esc;
                    StepEffect::Pending { redraw: false }
                } else {
                    s.buf.insert(s.cursor, input_b as char);
                    s.cursor = s.cursor + 1;
                    StepEffect::Pending { redraw: true }
                }
            },
            EscState::Esc => {
                if input_b == 91 {
                    s.esc = EscState::Csi;
                } else {
                    s.esc = EscState::Idle;
                }
                StepEffect::Pending { redraw: false }
            },
            EscState::Csi => {
                s.esc = EscState::Idle;
                if input_b == 65 {
                    if s.hist_idx > 0 {
                        s.hist_idx = s.hist_idx - 1;
                        s.buf = str_to_chars(self.history[s.hist_idx].as_str());
                        s.cursor = s.buf.len();
                        StepEffect::Pending { redraw: true }
                    } else {
                        StepEffect::Pending { redraw: false }
                    }
                } else if input_b == 66 {
                    if s.hist_idx + 1 < self.history.len() {
                        s.hist_idx = s.hist_idx + 1;
                        s.buf = str_to_chars(self.history[s.hist_idx].as_str());
                        s.cursor = s.buf.len();
                        StepEffect::Pending { redraw: true }
                    } else {
                        s.hist_idx = self.history.len();
                        s.buf = Vec::new();
                        s.cursor = 0;
                        proof {
                            assert(s@.buf =~= Seq::<char>::empty());
                        }
                        StepEffect::Pending { redraw: true }
                    }
                } else if input_b == 67 {
                    if s.cursor < s.buf.len() {
                        s.cursor = s.cursor + 1;
                        StepEffect::Pending { redraw: true }
                    } else {
                        StepEffect::Pending { redraw: false }
                    }
                } else if input_b == 68 {
                    if s.cursor > 0 {
                        s.cursor = s.cursor - 1;
                        StepEffect::Pending { redraw: true }
                    } else {
                        StepEffect::Pending { redraw: false }
                    }
                } else {
                    StepEffect::Pending { redraw: false }
                }
            },
        }
    }
}

/// What a full redraw writes: return to column one and erase the line,
/// reprint the prompt, the input color and the whole line, reset the
/// color, then move the terminal cursor left by the distance from the end
/// of the line to the logical cursor.
pub open spec fn spec_redraw(
    prompt: Seq<char>,
    color: Seq<char>,
    line: Seq<char>,
    cursor: int,
) -> Seq<char> {
    "\r\u{1b}[2K"@ + prompt + color + line + "\u{1b}[0m"@ + (if cursor < line.len() {
        "\u{1b}["@ + crate::persist::spec_dec((line.len() - cursor) as nat) + "D"@
    } else {
        Seq::<char>::empty()
    })
}

/// The exact byte sequence a full redraw of the edit line emits.
pub fn render_redraw(prompt: &str, color: &str, s: &EditSession) -> (r: String)
    requires
        s@.cursor <= s@.buf.len(),
    ensures
        r@ == spec_redraw(prompt@, color@, s@.buf, s@.cursor),
{
    let line = s.current_line();
    let head = "\r\u{1b}[2K".to_owned().concat(prompt).concat(color).concat(line.as_str())
        .concat("\u{1b}[0m");
    let tail = s.buf.len() - s.cursor;
    if tail > 0 {
        head.concat("\u{1b}[").concat(crate::persist::dec_string(tail as u64).as_str()).concat(
            "D")
    } else {
        let ghost h = head@;
        proof {
            assert(h + Seq::<char>::empty() =~= h);
        }
        head
    }
}

/// The line after a single completion candidate is accepted: it replaces
/// the last space-delimited token, or the whole line when the line holds no
/// space or only whitespace.
pub open spec fn spec_complete_buf(buf: Seq<char>, opt: Seq<char>) -> Seq<char> {
    if spec_split_words(buf).len() == 0 {
        opt
    } else if rfind_idx(buf, ' ') == -1 {
        opt
    } else {
        buf.take(rfind_idx(buf, ' ') + 1) + opt
    }
}

/// What applying a computed candidate set to the session did.
pub enum CompEffect {
    /// No candidate: leave the line alone.
    NoMatch,
    /// Exactly one candidate: it was accepted into the line.
    Replaced,
    /// Several candidates: show them; the line is unchanged.
    ShowAll,
}

impl EditSession {
    /// Apply a completion candidate set: nothing on no candidates, accept a
    /// unique candidate into the line with the cursor at its end, and with
    /// several candidates leave the line for the caller to display them.
    pub fn apply_completion(&mut self, opts: &Vec<String>) -> (r: CompEffect)
        requires
            old(self)@.cursor <= old(self)@.buf.len(),
        ensures
            opts@.len() == 0 ==> ((r matches CompEffect::NoMatch) && final(self)@ == old(self)@),
            opts@.len() == 1 ==> ((r matches CompEffect::Replaced) && final(self)@ == (SessionView {
                buf: spec_complete_buf(old(self)@.buf, opts.deep_view()[0]),
                cursor: spec_complete_buf(old(self)@.buf, opts.deep_view()[0]).len() as int,
                ..old(self)@
            })),
            opts@.len() > 1 ==> ((r matches CompEffect::ShowAll) && final(self)@ == old(self)@),
    {
        if opts.len() == 0 {
            return CompEffect::NoMatch;
        }
        if opts.len() > 1 {
            return CompEffect::ShowAll;
        }
        let line = chars_to_string(&self.buf);
        let toks = LineReader::split_words(line.as_str());
        let empty_line = toks.len() == 0;
        proof {
            lemma_rfind_idx_props(line@, ' ');
        }
        let new_buf: Vec<char> = if empty_line {
            str_to_chars(opts[0].as_str())
        } else {
            match rfind_char(line.as_str(), ' ') {
                Some(idx) => {
                    let blen = self.buf.len();
                    proof {
                        assert(idx < blen);
                    }
                    let mut nb: Vec<char> = Vec::new();
                    let mut i: usize = 0;
                    while i < idx + 1
                        invariant
                            idx < blen == self@.buf.len(),
                            0 <= i <= idx + 1 <= self@.buf.len(),
                            self@.buf == line@,
                            nb@ == self@.buf.take(i as int),
                        decreases idx + 1 - i,
                    {
                        nb.push(self.buf[i]);
                        proof {
                            assert(self@.buf.take(i + 1) =~= self@.buf.take(i as int).push(
                                self@.buf[i as int]));
                        }
                        i = i + 1;
                    }
                    let mut tail = str_to_chars(opts[0].as_str());
                    nb.append(&mut tail);
                    proof {
                        assert(nb@ =~= line@.take(idx + 1) + opts.deep_view()[0]);
                    }
                    nb
                },
                None => str_to_chars(opts[0].as_str()),
            }
        };
        self.buf = new_buf;
        self.cursor = self.buf.len();
        CompEffect::Replaced
    }
}

} // verus!
