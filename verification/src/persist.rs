//! The pure heart of persistence: the exact text a save writes (every line
//! followed by exactly one newline, in order), the backup and temporary
//! file names a save uses, the recovery file name derived from the FNV-1a
//! hash of the source path, and the autosave gate.

use vstd::prelude::*;
use crate::hash::{hash64, spec_fnv1a};
use crate::text::{rfind_idx, rfind_char, chars_to_string};
use vstd::string::StringSliceAdditionalSpecFns;

verus! {

/// The saved form of a buffer: each line followed by exactly one newline,
/// in order — including the final line.
pub open spec fn spec_render(lines: Seq<Seq<char>>) -> Seq<char>
    decreases lines.len(),
{
    if lines.len() == 0 {
        Seq::<char>::empty()
    } else {
        lines[0] + "\n"@ + spec_render(lines.drop_first())
    }
}

/// Render a buffer's lines as the exact text an atomic save writes to the
/// temporary file before renaming it over the target.
pub fn render_file(lines: &Vec<String>) -> (r: String)
    ensures
        r@ == spec_render(lines.deep_view()),
{
    let ghost dv = lines.deep_view();
    let n = lines.len();
    let mut out = String::new();
    let mut i: usize = 0;
    proof {
        assert(dv.skip(0) =~= dv);
        assert(out@ + spec_render(dv.skip(0)) =~= spec_render(dv));
    }
    while i < n
        invariant
            0 <= i <= n == dv.len(),
            n == lines@.len(),
            dv == lines.deep_view(),
            out@ + spec_render(dv.skip(i as int)) == spec_render(dv),
        decreases n - i,
    {
        let ghost pre = out@;
        out.append(lines[i].as_str());
        out.append("\n");
        proof {
            assert(dv.skip(i as int).drop_first() =~= dv.skip(i + 1));
            assert(dv.skip(i as int)[0] == dv[i as int]);
            assert(out@ =~= pre + dv[i as int] + "\n"@);
            assert(out@ + spec_render(dv.skip(i + 1)) =~= pre + spec_render(dv.skip(i as int)));
        }
        i = i + 1;
    }
    proof {
        assert(out@ + spec_render(dv.skip(n as int)) =~= out@);
    }
    out
}

/// The sibling backup name of a save target: its extension replaced by `~`
/// (appended as `.~` when the final component has no extension).
pub open spec fn spec_backup_path(p: Seq<char>) -> Seq<char> {
    let sl = rfind_idx(p, '/');
    let name = p.skip(sl + 1);
    let d = rfind_idx(name, '.');
    if d <= 0 {
        p + ".~"@
    } else {
        p.take(sl + 1 + d) + ".~"@
    }
}

/// The path the pre-save backup copy goes to.
pub fn backup_path_for(path: &str) -> (r: String)
    ensures
        r@ == spec_backup_path(path@),
{
    let n = path.unicode_len();
    proof {
        crate::text::lemma_rfind_idx_props(path@, '/');
    }
    let name_start = match rfind_char(path, '/') {
        Some(i) => i + 1,
        None => 0,
    };
    let name = path.substring_char(name_start, n);
    proof {
        assert(name@ =~= path@.skip(rfind_idx(path@, '/') + 1));
        crate::text::lemma_rfind_idx_props(name@, '.');
    }
    let d = match rfind_char(name, '.') {
        Some(i) => i,
        None => 0,
    };
    if d == 0 {
        path.to_owned().concat(".~")
    } else {
        let stem = path.substring_char(0, name_start + d);
        proof {
            assert(stem@ =~= path@.take(rfind_idx(path@, '/') + 1 + rfind_idx(name@, '.')));
        }
        stem.to_owned().concat(".~")
    }
}

/// A decimal rendering of `n`, most significant digit first.
pub open spec fn spec_dec(n: nat) -> Seq<char>
    decreases n,
{
    if n < 10 {
        seq![((48 + n) as u8) as char]
    } else {
        spec_dec(n / 10).push(((48 + n % 10) as u8) as char)
    }
}

fn dec_chars(n: u64) -> (r: Vec<char>)
    ensures
        r@ == spec_dec(n as nat),
    decreases n,
{
    if n < 10 {
        let c = ((48 + n) as u8) as char;
        let mut r: Vec<char> = Vec::new();
        r.push(c);
        proof {
            assert(r@ =~= seq![((48 + n as nat) as u8) as char]);
        }
        r
    } else {
        let mut r = dec_chars(n / 10);
        r.push(((48 + (n % 10)) as u8) as char);
        r
    }
}

/// Decimal rendering of a number, for process ids and counters.
pub fn dec_string(n: u64) -> (r: String)
    ensures
        r@ == spec_dec(n as nat),
{
    let v = dec_chars(n);
    chars_to_string(&v)
}

/// The temporary file name a save writes before the atomic rename,
/// disambiguated by process id.
pub fn tmp_file_name(pid: u64) -> (r: String)
    ensures
        r@ == ".trust.tmp."@ + spec_dec(pid as nat),
{
    ".trust.tmp.".to_owned().concat(dec_string(pid).as_str())
}

/// A hexadecimal digit character (lower case).
pub open spec fn spec_hex_char(d: nat) -> char {
    if d < 10 {
        ((48 + d) as u8) as char
    } else {
        ((87 + d) as u8) as char
    }
}

/// `k` hexadecimal digits of `h`, most significant first, zero-padded.
pub open spec fn spec_hex_digits(h: nat, k: nat) -> Seq<char>
    decreases k,
{
    if k == 0 {
        Seq::<char>::empty()
    } else {
        spec_hex_digits(h / 16, (k - 1) as nat).push(spec_hex_char(h % 16))
    }
}

fn hex_chars(h: u64, k: usize) -> (r: Vec<char>)
    ensures
        r@ == spec_hex_digits(h as nat, k as nat),
    decreases k,
{
    if k == 0 {
        let r: Vec<char> = Vec::new();
        proof {
            assert(r@ =~= Seq::<char>::empty());
        }
        r
    } else {
        let mut r = hex_chars(h / 16, k - 1);
        let d = h % 16;
        let c = if d < 10 {
            ((48 + d) as u8) as char
        } else {
            ((87 + d) as u8) as char
        };
        r.push(c);
        r
    }
}

/// The 16-hex-digit, zero-padded rendering of a 64-bit hash.
pub fn hex16(h: u64) -> (r: String)
    ensures
        r@ == spec_hex_digits(h as nat, 16),
{
    let v = hex_chars(h, 16);
    chars_to_string(&v)
}

/// The recovery file name for a buffer whose source path is `path`:
/// a fixed prefix followed by the 16 hex digits of the path's FNV-1a hash.
/// The file lives in a well-known directory the caller prepends.
pub fn recovery_file_name(path: &str) -> (r: String)
    ensures
        r@ == ".trust-recover-"@ + spec_hex_digits(spec_fnv1a(path.spec_bytes()) as nat, 16),
{
    let h = hash64(path.as_bytes());
    ".trust-recover-".to_owned().concat(hex16(h).as_str())
}

/// What the save protocol's working directory holds: the target path's
/// content, if the target exists, and the temporary file's content, if one
/// exists.
pub struct SaveDisk {
    pub target: Option<Seq<char>>,
    pub tmp: Option<Seq<char>>,
}

/// How far an atomic save got before it stopped: nothing written yet, the
/// temporary file fully written and flushed, or the rename performed.
pub enum SavePhase {
    Started,
    TmpWritten,
    Renamed,
}

/// What the directory holds at each phase of saving `lines` over a target
/// that held `prior`.  That the rename step is atomic — the target is never
/// observed mid-write — is the filesystem's promise; the protocol writes
/// only the temporary file until that single step.
pub open spec fn save_disk_at(prior: Option<Seq<char>>, lines: Seq<Seq<char>>, phase: SavePhase)
    -> SaveDisk {
    match phase {
        SavePhase::Started => SaveDisk { target: prior, tmp: None },
        SavePhase::TmpWritten => SaveDisk { target: prior, tmp: Some(spec_render(lines)) },
        SavePhase::Renamed => SaveDisk { target: Some(spec_render(lines)), tmp: None },
    }
}

/// Crash safety of the save protocol: a failure at any phase before the
/// rename — including after the temporary file is fully written — leaves
/// the target byte-for-byte what it was before the save attempt; after the
/// rename the target holds exactly the buffer's lines, each followed by
/// one newline, in order.
pub proof fn lemma_atomic_save_crash_safety(
    prior: Option<Seq<char>>,
    lines: Seq<Seq<char>>,
    phase: SavePhase,
)
    ensures
        !(phase matches SavePhase::Renamed) ==> save_disk_at(prior, lines, phase).target
            == prior,
        (phase matches SavePhase::Renamed) ==> save_disk_at(prior, lines, phase).target
            == Some(spec_render(lines)),
{
}

/// Whether an autosave is due: an interval is configured, the buffer holds
/// unsaved changes, and at least the interval has elapsed since the last
/// autosave check.
pub fn autosave_due(interval_secs: u64, dirty: bool, elapsed_secs: u64) -> (r: bool)
    ensures
        r == (interval_secs != 0 && dirty && elapsed_secs >= interval_secs),
{
    interval_secs != 0 && dirty && elapsed_secs >= interval_secs
}

} // verus!
