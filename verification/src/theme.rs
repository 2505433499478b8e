//! Themes and palettes: the escape-sequence palette each theme selects (or
//! an all-empty palette when output is not a terminal), gradient rendering
//! of banner and prompt text, language detection from a path's extension,
//! and the gutter-width helper.

use vstd::prelude::*;
use crate::term::use_color;
use crate::text::{lower_seq, lower, rfind_idx, rfind_char, str_eq, chars_to_string};

verus! {

#[derive(Clone, Copy, Debug)]
pub enum Theme {
    Default,
    Dark,
    Neon,
    Matrix,
    Paper,
}

/// Abstract value of a [`Palette`]: the view of each escape string.
pub struct PaletteView {
    pub accent: Seq<char>,
    pub ok: Seq<char>,
    pub warn: Seq<char>,
    pub err: Seq<char>,
    pub dim: Seq<char>,
    pub prompt: Seq<char>,
    pub input: Seq<char>,
    pub gutter: Seq<char>,
    pub title: Seq<char>,
    pub help_cmd: Seq<char>,
    pub help_arg: Seq<char>,
    pub help_text: Seq<char>,
}

pub struct Palette {
    pub accent: &'static str,
    pub ok: &'static str,
    pub warn: &'static str,
    pub err: &'static str,
    pub dim: &'static str,
    pub prompt: &'static str,
    pub input: &'static str,
    pub gutter: &'static str,
    pub title: &'static str,
    pub help_cmd: &'static str,
    pub help_arg: &'static str,
    pub help_text: &'static str,
}

impl View for Palette {
    type V = PaletteView;

    open spec fn view(&self) -> PaletteView {
        PaletteView {
            accent: self.accent@,
            ok: self.ok@,
            warn: self.warn@,
            err: self.err@,
            dim: self.dim@,
            prompt: self.prompt@,
            input: self.input@,
            gutter: self.gutter@,
            title: self.title@,
            help_cmd: self.help_cmd@,
            help_arg: self.help_arg@,
            help_text: self.help_text@,
        }
    }
}

/// The palette a theme selects; with `color` false every entry is empty.
pub open spec fn spec_palette(t: Theme, color: bool) -> PaletteView {
    if !color {
        PaletteView {
            accent: ""@,
            ok: ""@,
            warn: ""@,
            err: ""@,
            dim: ""@,
            prompt: ""@,
            input: ""@,
            gutter: ""@,
            title: ""@,
            help_cmd: ""@,
            help_arg: ""@,
            help_text: ""@,
        }
    } else {
        match t {
            Theme::Dark => PaletteView {
                accent: "\x1b[36m"@,
                ok: "\x1b[32m"@,
                warn: "\x1b[33m"@,
                err: "\x1b[31m"@,
                dim: "\x1b[90m"@,
                prompt: "\x1b[96m"@,
                input: "\x1b[90m"@,
                gutter: "\x1b[90m"@,
                title: "\x1b[1;36m"@,
                help_cmd: "\x1b[96m"@,
                help_arg: "\x1b[90m"@,
                help_text: "\x1b[90m"@,
            },
            Theme::Neon => PaletteView {
                accent: "\x1b[95m"@,
                ok: "\x1b[92m"@,
                warn: "\x1b[93m"@,
                err: "\x1b[91m"@,
                dim: "\x1b[90m"@,
                prompt: "\x1b[95m"@,
                input: "\x1b[96m"@,
                gutter: "\x1b[90m"@,
                title: "\x1b[1;95m"@,
                help_cmd: "\x1b[95m"@,
                help_arg: "\x1b[90m"@,
                help_text: "\x1b[90m"@,
            },
            Theme::Matrix => PaletteView {
                accent: "\x1b[32m"@,
                ok: "\x1b[92m"@,
                warn: "\x1b[33m"@,
                err: "\x1b[31m"@,
                dim: "\x1b[90m"@,
                prompt: "\x1b[92m"@,
                input: "\x1b[92m"@,
                gutter: "\x1b[90m"@,
                title: "\x1b[1;32m"@,
                help_cmd: "\x1b[92m"@,
                help_arg: "\x1b[90m"@,
                help_text: "\x1b[90m"@,
            },
            Theme::Paper => PaletteView {
                accent: "\x1b[90m"@,
                ok: "\x1b[32m"@,
                warn: "\x1b[33m"@,
                err: "\x1b[31m"@,
                dim: "\x1b[90m"@,
                prompt: "\x1b[90m"@,
                input: "\x1b[90m"@,
                gutter: "\x1b[90m"@,
                title: "\x1b[1;90m"@,
                help_cmd: "\x1b[90m"@,
                help_arg: "\x1b[90m"@,
                help_text: "\x1b[90m"@,
            },
            Theme::Default => PaletteView {
                accent: "\x1b[36m"@,
                ok: "\x1b[32m"@,
                warn: "\x1b[33m"@,
                err: "\x1b[31m"@,
                dim: "\x1b[2m"@,
                prompt: "\x1b[36m"@,
                input: "\x1b[97m"@,
                gutter: "\x1b[90m"@,
                title: "\x1b[1;36m"@,
                help_cmd: "\x1b[36m"@,
                help_arg: "\x1b[2m"@,
                help_text: "\x1b[2m"@,
            },
        }
    }
}

/// The palette for a theme under a known color decision.
pub fn palette_for_mode(t: Theme, color: bool) -> (r: Palette)
    ensures
        r@ == spec_palette(t, color),
{
    if !color {
        return Palette {
            accent: "",
            ok: "",
            warn: "",
            err: "",
            dim: "",
            prompt: "",
            input: "",
            gutter: "",
            title: "",
            help_cmd: "",
            help_arg: "",
            help_text: "",
        };
    }
    match t {
        Theme::Dark => Palette {
            accent: "\x1b[36m",
            ok: "\x1b[32m",
            warn: "\x1b[33m",
            err: "\x1b[31m",
            dim: "\x1b[90m",
            prompt: "\x1b[96m",
            input: "\x1b[90m",
            gutter: "\x1b[90m",
            title: "\x1b[1;36m",
            help_cmd: "\x1b[96m",
            help_arg: "\x1b[90m",
            help_text: "\x1b[90m",
        },
        Theme::Neon => Palette {
            accent: "\x1b[95m",
            ok: "\x1b[92m",
            warn: "\x1b[93m",
            err: "\x1b[91m",
            dim: "\x1b[90m",
            prompt: "\x1b[95m",
            input: "\x1b[96m",
            gutter: "\x1b[90m",
            title: "\x1b[1;95m",
            help_cmd: "\x1b[95m",
            help_arg: "\x1b[90m",
            help_text: "\x1b[90m",
        },
        Theme::Matrix => Palette {
            accent: "\x1b[32m",
            ok: "\x1b[92m",
            warn: "\x1b[33m",
            err: "\x1b[31m",
            dim: "\x1b[90m",
            prompt: "\x1b[92m",
            input: "\x1b[92m",
            gutter: "\x1b[90m",
            title: "\x1b[1;32m",
            help_cmd: "\x1b[92m",
            help_arg: "\x1b[90m",
            help_text: "\x1b[90m",
        },
        Theme::Paper => Palette {
            accent: "\x1b[90m",
            ok: "\x1b[32m",
            warn: "\x1b[33m",
            err: "\x1b[31m",
            dim: "\x1b[90m",
            prompt: "\x1b[90m",
            input: "\x1b[90m",
            gutter: "\x1b[90m",
            title: "\x1b[1;90m",
            help_cmd: "\x1b[90m",
            help_arg: "\x1b[90m",
            help_text: "\x1b[90m",
        },
        Theme::Default => Palette {
            accent: "\x1b[36m",
            ok: "\x1b[32m",
            warn: "\x1b[33m",
            err: "\x1b[31m",
            dim: "\x1b[2m",
            prompt: "\x1b[36m",
            input: "\x1b[97m",
            gutter: "\x1b[90m",
            title: "\x1b[1;36m",
            help_cmd: "\x1b[36m",
            help_arg: "\x1b[2m",
            help_text: "\x1b[2m",
        },
    }
}

/// The palette for a theme, empty when output is not a terminal.
pub fn palette_for(t: Theme) -> (r: Palette)
    ensures
        r@ == spec_palette(t, true) || r@ == spec_palette(t, false),
{
    let color = use_color();
    palette_for_mode(t, color)
}

/// The theme a user-supplied name selects; unknown names mean the default.
pub open spec fn spec_theme_from_name(s: Seq<char>) -> Theme {
    if lower_seq(s) == "dark"@ {
        Theme::Dark
    } else if lower_seq(s) == "neon"@ {
        Theme::Neon
    } else if lower_seq(s) == "matrix"@ {
        Theme::Matrix
    } else if lower_seq(s) == "paper"@ {
        Theme::Paper
    } else {
        Theme::Default
    }
}

pub fn theme_from_name(name: &str) -> (r: Theme)
    ensures
        r == spec_theme_from_name(name@),
{
    let low = lower(name);
    let l = low.as_str();
    if str_eq(l, "dark") {
        Theme::Dark
    } else if str_eq(l, "neon") {
        Theme::Neon
    } else if str_eq(l, "matrix") {
        Theme::Matrix
    } else if str_eq(l, "paper") {
        Theme::Paper
    } else {
        Theme::Default
    }
}

/// Text with a 4-color gradient: before the character at index `i`, the
/// color with index `i` modulo 4 is emitted.
pub open spec fn grad_chars(s: Seq<char>, cols: Seq<Seq<char>>, i: int) -> Seq<char>
    decreases s.len() - i when 0 <= i <= s.len() && cols.len() == 4
{
    if i >= s.len() {
        Seq::<char>::empty()
    } else {
        cols[i % 4] + seq![s[i]] + grad_chars(s, cols, i + 1)
    }
}

fn grad_build(s: &str, c0: &str, c1: &str, c2: &str, c3: &str) -> (r: Vec<char>)
    ensures
        r@ == grad_chars(s@, seq![c0@, c1@, c2@, c3@], 0),
{
    let ghost cols = seq![c0@, c1@, c2@, c3@];
    let n = s.unicode_len();
    let mut out: Vec<char> = Vec::new();
    let mut i: usize = 0;
    proof {
        assert(out@ + grad_chars(s@, cols, 0) =~= grad_chars(s@, cols, 0));
    }
    while i < n
        invariant
            0 <= i <= n == s@.len(),
            cols == seq![c0@, c1@, c2@, c3@],
            out@ + grad_chars(s@, cols, i as int) == grad_chars(s@, cols, 0),
        decreases n - i,
    {
        let ghost pre = out@;
        let m = i % 4;
        let col = if m == 0 {
            c0
        } else if m == 1 {
            c1
        } else if m == 2 {
            c2
        } else {
            c3
        };
        let mut cv = crate::text::str_to_chars(col);
        out.append(&mut cv);
        out.push(s.get_char(i));
        proof {
            assert(col@ == cols[i as int % 4]);
            assert(out@ =~= pre + cols[i as int % 4] + seq![s@[i as int]]);
            assert(out@ + grad_chars(s@, cols, i + 1) =~= pre + grad_chars(s@, cols, i as int));
        }
        i = i + 1;
    }
    proof {
        assert(out@ + grad_chars(s@, cols, n as int) =~= out@);
    }
    out
}

/// Render `s` with the theme's title/accent/help gradient and a final color
/// reset, or unchanged when output is not a terminal.
pub fn gradient_str(s: &str, pal: &Palette) -> (r: String)
    ensures
        r@ == grad_chars(s@, seq![pal@.title, pal@.accent, pal@.help_cmd, pal@.help_text], 0)
            + "\x1b[0m"@ || r@ == s@,
{
    if !use_color() {
        return s.to_owned();
    }
    let v = grad_build(s, pal.title, pal.accent, pal.help_cmd, pal.help_text);
    chars_to_string(&v).concat("\x1b[0m")
}

/// The prompt text: `trust>` (starred when the buffer is dirty) and a
/// space, gradient-colored on a terminal.  No reset is emitted: the line
/// reader's input color follows it.
pub fn gradient_prompt_text(dirty: bool, pal: &Palette) -> (r: String)
    ensures
        ({
            let base = if dirty {
                "*trust>"@
            } else {
                "trust>"@
            };
            r@ == base + " "@ || r@ == grad_chars(base, seq![pal@.title, pal@.accent,
                pal@.help_cmd, pal@.input], 0) + " "@
        }),
{
    let base: &str = if dirty {
        "*trust>"
    } else {
        "trust>"
    };
    if !use_color() {
        return base.to_owned().concat(" ");
    }
    let v = grad_build(base, pal.title, pal.accent, pal.help_cmd, pal.input);
    chars_to_string(&v).concat(" ")
}

/// The extension of a path, with the semantics of the standard library's
/// path handling: the part of the final component after its last dot, and
/// none when the component has no dot past its first character.
pub open spec fn spec_ext_of(p: Seq<char>) -> Option<Seq<char>> {
    let name = p.skip(rfind_idx(p, '/') + 1);
    let d = rfind_idx(name, '.');
    if d <= 0 {
        None
    } else {
        Some(name.skip(d + 1))
    }
}

/// The language a path's extension indicates.
pub open spec fn spec_lang_of(path: Option<Seq<char>>) -> Seq<char> {
    match path {
        None => "plain"@,
        Some(p) => match spec_ext_of(p) {
            None => "plain"@,
            Some(e0) => {
                let e = lower_seq(e0);
                if e == "rs"@ {
                    "rust"@
                } else if e == "c"@ || e == "cc"@ || e == "cpp"@ || e == "cxx"@ || e == "h"@
                    || e == "hpp"@ {
                    "cpp"@
                } else if e == "py"@ {
                    "python"@
                } else if e == "sh"@ || e == "bash"@ || e == "zsh"@ {
                    "shell"@
                } else if e == "js"@ || e == "ts"@ {
                    "js"@
                } else if e == "html"@ || e == "htm"@ {
                    "html"@
                } else if e == "css"@ {
                    "css"@
                } else if e == "json"@ {
                    "json"@
                } else {
                    "plain"@
                }
            },
        },
    }
}

/// Detect the language of the file a buffer's path points at.
pub fn detect_lang_from_path(path: Option<&String>) -> (r: &'static str)
    ensures
        r@ == spec_lang_of(match path {
            Some(p) => Some(p@),
            None => None,
        }),
{
    let p = match path {
        Some(p) => p.as_str(),
        None => {
            return "plain";
        },
    };
    let n = p.unicode_len();
    proof {
        crate::text::lemma_rfind_idx_props(p@, '/');
    }
    let name_start = match rfind_char(p, '/') {
        Some(i) => i + 1,
        None => 0,
    };
    let name = p.substring_char(name_start, n);
    proof {
        assert(name@ =~= p@.skip(rfind_idx(p@, '/') + 1));
        crate::text::lemma_rfind_idx_props(name@, '.');
    }
    let m = name.unicode_len();
    let d = match rfind_char(name, '.') {
        Some(i) => i,
        None => {
            return "plain";
        },
    };
    if d == 0 {
        return "plain";
    }
    let ext = name.substring_char(d + 1, m);
    proof {
        assert(ext@ =~= name@.skip(rfind_idx(name@, '.') + 1));
    }
    let low = lower(ext);
    let e = low.as_str();
    if str_eq(e, "rs") {
        "rust"
    } else if str_eq(e, "c") || str_eq(e, "cc") || str_eq(e, "cpp") || str_eq(e, "cxx") || str_eq(
        e, "h") || str_eq(e, "hpp") {
        "cpp"
    } else if str_eq(e, "py") {
        "python"
    } else if str_eq(e, "sh") || str_eq(e, "bash") || str_eq(e, "zsh") {
        "shell"
    } else if str_eq(e, "js") || str_eq(e, "ts") {
        "js"
    } else if str_eq(e, "html") || str_eq(e, "htm") {
        "html"
    } else if str_eq(e, "css") {
        "css"
    } else if str_eq(e, "json") {
        "json"
    } else {
        "plain"
    }
}

/// How many decimal digits a line number needs.
pub open spec fn spec_digits_for(n: nat) -> nat
    decreases n,
{
    if n < 10 {
        1
    } else {
        1 + spec_digits_for(n / 10)
    }
}

proof fn lemma_digits_for_small(n: nat)
    ensures
        spec_digits_for(n) <= 1 + n,
    decreases n,
{
    if n >= 10 {
        lemma_digits_for_small(n / 10);
    }
}

/// Width of the widest line number.
pub fn digits_for(n: usize) -> (r: usize)
    ensures
        r == spec_digits_for(n as nat),
    decreases n,
{
    if n < 10 {
        1
    } else {
        proof {
            lemma_digits_for_small((n / 10) as nat);
        }
        1 + digits_for(n / 10)
    }
}

} // verus!
