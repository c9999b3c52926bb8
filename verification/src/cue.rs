//! CUE sheets: the first data track of a sheet, with the file that holds it,
//! its sector size, and where its INDEX 01 starts.
//!
//! A sheet is read line by line.  Empty lines, `;` and `//` comments, and
//! `REM`, `CD_ROM` and `CD_ROM_XA` lines are skipped.  `FILE` names the file
//! for the tracks after it; the first `TRACK` that is not `AUDIO` is chosen,
//! and the first `INDEX 01` inside it gives its start.  Keywords and track
//! modes are matched without regard to ASCII case.
use crate::cdrom::CdromSectorSize;
use crate::cli::{
    after_first_word, eq_ignore_ascii_case, eq_ignore_ascii_case_range, find_byte, first_index_of,
    first_word, from_str_radix_spec, parse_unsigned, split_word, trim, trim_range,
};
use vstd::prelude::*;
use vstd::string::StringSliceAdditionalSpecFns;

verus! {

/// Why a CUE sheet was refused.
#[derive(Debug, Clone, Copy, PartialEq, Eq, Structural)]
pub enum CueError {
    /// The chosen track has a mode other than the data modes understood.
    UnsupportedTrackMode,
    /// The chosen track comes before any `FILE` line.
    TrackBeforeFile,
    /// No track other than audio tracks.
    NoDataTrack,
    /// The chosen track has no `INDEX 01`.
    MissingIndex01,
    /// An `INDEX` line with nothing after the keyword.
    MalformedIndex,
    /// An `INDEX 01` line without its time.
    MissingIndexTime,
    /// A time that is not `MM:SS:FF` with seconds below 60 and frames below 75.
    InvalidMsf,
}

/// The data track chosen from a CUE sheet.
#[derive(Debug, Clone)]
pub struct CueDiscSpec {
    /// The file name as the sheet writes it (relative to the sheet's
    /// directory unless absolute).
    pub file_name: Vec<u8>,
    pub sector_size: CdromSectorSize,
    /// Where INDEX 01 starts, in frames (sectors) from the start of the file.
    pub index01_frames: usize,
}

// ---------------------------------------------------------------------------
// Times.
// ---------------------------------------------------------------------------

/// The frames in `MM:SS:FF`: exactly three fields separated by `:`, each a
/// decimal number, with seconds below 60, frames below 75, and a total that
/// fits in `usize`.
pub open spec fn cue_msf_spec(s: Seq<u8>) -> Option<nat> {
    let k1 = first_index_of(s, ':' as u8);
    let rest1 = s.skip(k1 + 1);
    let k2 = first_index_of(rest1, ':' as u8);
    let rest2 = rest1.skip(k2 + 1);
    if k1 == s.len() || k2 == rest1.len() || first_index_of(rest2, ':' as u8) < rest2.len() {
        None
    } else {
        match (
            from_str_radix_spec(s.take(k1), 10, usize::MAX as nat),
            from_str_radix_spec(rest1.take(k2), 10, usize::MAX as nat),
            from_str_radix_spec(rest2, 10, usize::MAX as nat),
        ) {
            (Some(m), Some(sec), Some(f)) => {
                let total = (m * 60 + sec) * 75 + f;
                if sec < 60 && f < 75 && total <= usize::MAX {
                    Some(total)
                } else {
                    None
                }
            },
            _ => None,
        }
    }
}

fn parse_msf_bytes(s: &[u8], lo: usize, hi: usize) -> (r: Result<usize, CueError>)
    requires
        lo <= hi <= s@.len(),
    ensures
        r == match cue_msf_spec(s@.subrange(lo as int, hi as int)) {
            Some(v) => Ok(v as usize),
            None => Err(CueError::InvalidMsf),
        },
{
    let ghost t = s@.subrange(lo as int, hi as int);
    let k1 = find_byte(s, lo, hi, ':' as u8);
    let ghost rest1 = t.skip(k1 - lo + 1);
    if k1 == hi {
        return Err(CueError::InvalidMsf);
    }
    assert(rest1 =~= s@.subrange(k1 + 1, hi as int));
    let k2 = find_byte(s, k1 + 1, hi, ':' as u8);
    let ghost rest2 = rest1.skip(k2 - (k1 + 1) + 1);
    if k2 == hi {
        return Err(CueError::InvalidMsf);
    }
    assert(rest2 =~= s@.subrange(k2 + 1, hi as int));
    let k3 = find_byte(s, k2 + 1, hi, ':' as u8);
    if k3 < hi {
        return Err(CueError::InvalidMsf);
    }
    assert(t.take(k1 - lo) =~= s@.subrange(lo as int, k1 as int));
    assert(rest1.take(k2 - (k1 + 1)) =~= s@.subrange(k1 + 1, k2 as int));
    let max = usize::MAX as u64;
    let minute = parse_unsigned(s, lo, k1, 10, max);
    let second = parse_unsigned(s, k1 + 1, k2, 10, max);
    let frame = parse_unsigned(s, k2 + 1, hi, 10, max);
    match (minute, second, frame) {
        (Some(m), Some(sec), Some(f)) => {
            if sec >= 60 || f >= 75 {
                return Err(CueError::InvalidMsf);
            }
            let total: u128 = ((m as u128) * 60 + (sec as u128)) * 75 + (f as u128);
            if total > usize::MAX as u128 {
                Err(CueError::InvalidMsf)
            } else {
                Ok(total as usize)
            }
        },
        _ => Err(CueError::InvalidMsf),
    }
}

/// Parses a CUE time `MM:SS:FF` into frames, 75 to the second.
pub fn parse_cue_msf(value: &str) -> (r: Result<usize, CueError>)
    ensures
        r == match cue_msf_spec(value.spec_bytes()) {
            Some(v) => Ok(v as usize),
            None => Err(CueError::InvalidMsf),
        },
{
    let bytes = value.as_bytes();
    assert(bytes@.subrange(0, bytes@.len() as int) =~= bytes@);
    parse_msf_bytes(bytes, 0, bytes.len())
}

// ---------------------------------------------------------------------------
// Lines.
// ---------------------------------------------------------------------------

pub open spec fn keyword_is(line: Seq<u8>, keyword: Seq<u8>) -> bool {
    eq_ignore_ascii_case(first_word(line), keyword)
}

pub open spec fn kw_file() -> Seq<u8> {
    seq!['F' as u8, 'I' as u8, 'L' as u8, 'E' as u8]
}

pub open spec fn kw_track() -> Seq<u8> {
    seq!['T' as u8, 'R' as u8, 'A' as u8, 'C' as u8, 'K' as u8]
}

pub open spec fn kw_index() -> Seq<u8> {
    seq!['I' as u8, 'N' as u8, 'D' as u8, 'E' as u8, 'X' as u8]
}

pub open spec fn kw_rem() -> Seq<u8> {
    seq!['R' as u8, 'E' as u8, 'M' as u8]
}

pub open spec fn kw_cd_rom() -> Seq<u8> {
    seq!['C' as u8, 'D' as u8, '_' as u8, 'R' as u8, 'O' as u8, 'M' as u8]
}

pub open spec fn kw_cd_rom_xa() -> Seq<u8> {
    seq!['C' as u8, 'D' as u8, '_' as u8, 'R' as u8, 'O' as u8, 'M' as u8, '_' as u8, 'X' as u8, 'A' as u8]
}

pub open spec fn kw_audio() -> Seq<u8> {
    seq!['A' as u8, 'U' as u8, 'D' as u8, 'I' as u8, 'O' as u8]
}

/// A (trimmed) line that says nothing about tracks.
pub open spec fn cue_line_is_ignored(line: Seq<u8>) -> bool {
    ||| line.len() == 0
    ||| line[0] == ';' as u8
    ||| (line.len() >= 2 && line[0] == '/' as u8 && line[1] == '/' as u8)
    ||| keyword_is(line, kw_rem())
    ||| keyword_is(line, kw_cd_rom())
    ||| keyword_is(line, kw_cd_rom_xa())
}

/// The file that a `FILE` line names: the text between double quotes, or
/// else the first word after the keyword.
pub open spec fn cue_file_path(line: Seq<u8>) -> Option<Seq<u8>> {
    if !keyword_is(line, kw_file()) {
        None
    } else {
        let rest = after_first_word(line);
        if rest.len() > 0 && rest[0] == '"' as u8 {
            let quoted = rest.skip(1);
            let end = first_index_of(quoted, '"' as u8);
            if end == quoted.len() {
                None
            } else {
                Some(quoted.take(end))
            }
        } else if rest.len() == 0 {
            None
        } else {
            Some(first_word(rest))
        }
    }
}

/// The mode that a `TRACK` line gives: the word after the track number, or
/// the first word when it is not a number.
pub open spec fn cue_track_mode(line: Seq<u8>) -> Option<Seq<u8>> {
    if !keyword_is(line, kw_track()) {
        None
    } else {
        let r1 = after_first_word(line);
        if r1.len() == 0 {
            None
        } else if from_str_radix_spec(first_word(r1), 10, 255) is Some {
            let r2 = after_first_word(r1);
            if r2.len() == 0 {
                None
            } else {
                Some(first_word(r2))
            }
        } else {
            Some(first_word(r1))
        }
    }
}

pub open spec fn mode_word(m: Seq<u8>, a: u8, b: u8, c: u8, d: u8, e: u8, f: u8) -> bool {
    eq_ignore_ascii_case(m, seq!['M' as u8, 'O' as u8, 'D' as u8, 'E' as u8, a, b, c, d, e, f])
}

/// The sector size of a data track mode: 2048-byte modes are cooked, the
/// 2352-byte and raw modes are raw.
pub open spec fn cue_track_sector_size(mode: Seq<u8>) -> Option<CdromSectorSize> {
    if mode_word(mode, '1' as u8, '/' as u8, '2' as u8, '0' as u8, '4' as u8, '8' as u8) || mode_word(
        mode,
        '2' as u8,
        '/' as u8,
        '2' as u8,
        '0' as u8,
        '4' as u8,
        '8' as u8,
    ) {
        Some(CdromSectorSize::Cooked2048)
    } else if mode_word(mode, '1' as u8, '/' as u8, '2' as u8, '3' as u8, '5' as u8, '2' as u8)
        || mode_word(mode, '2' as u8, '/' as u8, '2' as u8, '3' as u8, '5' as u8, '2' as u8)
        || eq_ignore_ascii_case(
        mode,
        seq!['M' as u8, 'O' as u8, 'D' as u8, 'E' as u8, '1' as u8, '_' as u8, 'R' as u8, 'A' as u8, 'W' as u8],
    ) || eq_ignore_ascii_case(
        mode,
        seq!['M' as u8, 'O' as u8, 'D' as u8, 'E' as u8, '2' as u8, '_' as u8, 'R' as u8, 'A' as u8, 'W' as u8],
    ) || eq_ignore_ascii_case(
        mode,
        seq!['C' as u8, 'D' as u8, 'I' as u8, '/' as u8, '2' as u8, '3' as u8, '5' as u8, '2' as u8],
    ) {
        Some(CdromSectorSize::Raw2352)
    } else {
        None
    }
}

/// What an `INDEX` line says: nothing unless it is `INDEX 01`, whose time
/// is then given in frames.
pub open spec fn cue_index01(line: Seq<u8>) -> Result<Option<nat>, CueError> {
    if !keyword_is(line, kw_index()) {
        Ok(None)
    } else {
        let r1 = after_first_word(line);
        if r1.len() == 0 {
            Err(CueError::MalformedIndex)
        } else if first_word(r1) != seq!['0' as u8, '1' as u8] {
            Ok(None)
        } else {
            let r2 = after_first_word(r1);
            if r2.len() == 0 {
                Err(CueError::MissingIndexTime)
            } else {
                match cue_msf_spec(first_word(r2)) {
                    Some(v) => Ok(Some(v)),
                    None => Err(CueError::InvalidMsf),
                }
            }
        }
    }
}

/// What the parser knows between lines: the last file named, the chosen
/// track (its file, sector size and INDEX 01 start), whether lines still
/// belong to that track, and whether its INDEX 01 was seen.
pub type CueScan = (Option<Seq<u8>>, Option<(Seq<u8>, CdromSectorSize, nat)>, bool, bool);

/// One line's effect on what the parser knows.
pub open spec fn cue_step(st: CueScan, line: Seq<u8>) -> Result<CueScan, CueError> {
    let (file, track, open, has_index01) = st;
    if cue_line_is_ignored(line) {
        Ok(st)
    } else if cue_file_path(line) is Some {
        Ok((cue_file_path(line), track, false, has_index01))
    } else if cue_track_mode(line) is Some {
        let mode = cue_track_mode(line)->0;
        if track is Some || eq_ignore_ascii_case(mode, kw_audio()) {
            Ok((file, track, false, has_index01))
        } else {
            match cue_track_sector_size(mode) {
                None => Err(CueError::UnsupportedTrackMode),
                Some(size) => match file {
                    None => Err(CueError::TrackBeforeFile),
                    Some(f) => Ok((file, Some((f, size, 0nat)), true, false)),
                },
            }
        }
    } else if open {
        match cue_index01(line) {
            Err(e) => Err(e),
            Ok(None) => Ok(st),
            Ok(Some(v)) => Ok(
                (
                    file,
                    match track {
                        Some(t) => Some((t.0, t.1, v)),
                        None => None,
                    },
                    false,
                    true,
                ),
            ),
        }
    } else {
        Ok(st)
    }
}

/// Runs the lines of `text`, split at line feeds and trimmed, from `st`.
pub open spec fn cue_run(text: Seq<u8>, st: CueScan) -> Result<CueScan, CueError>
    decreases text.len(),
{
    let end = first_index_of(text, '\n' as u8);
    if 0 <= end <= text.len() {
        match cue_step(st, trim(text.take(end))) {
            Err(e) => Err(e),
            Ok(next) => if end >= text.len() {
                Ok(next)
            } else {
                cue_run(text.skip(end + 1), next)
            },
        }
    } else {
        Err(CueError::NoDataTrack)
    }
}

/// The data track of a CUE sheet: its file name, sector size and INDEX 01.
pub open spec fn cue_sheet_spec(text: Seq<u8>) -> Result<(Seq<u8>, CdromSectorSize, nat), CueError> {
    match cue_run(text, (None, None, false, false)) {
        Err(e) => Err(e),
        Ok((_, track, _, has_index01)) => match track {
            None => Err(CueError::NoDataTrack),
            Some(t) => if has_index01 {
                Ok(t)
            } else {
                Err(CueError::MissingIndex01)
            },
        },
    }
}

/// The parser's state, with file names as ranges of the sheet's bytes.
struct CueState {
    file: Option<(usize, usize)>,
    track: Option<(usize, usize, CdromSectorSize, usize)>,
    track_open: bool,
    has_index01: bool,
}

impl CueState {
    spec fn within(&self, len: nat) -> bool {
        &&& match self.file {
            Some((a, b)) => a <= b <= len,
            None => true,
        }
        &&& match self.track {
            Some((a, b, _, _)) => a <= b <= len,
            None => true,
        }
    }

    spec fn view_in(&self, text: Seq<u8>) -> CueScan {
        (
            match self.file {
                Some((a, b)) => Some(text.subrange(a as int, b as int)),
                None => None,
            },
            match self.track {
                Some((a, b, size, v)) => Some((text.subrange(a as int, b as int), size, v as nat)),
                None => None,
            },
            self.track_open,
            self.has_index01,
        )
    }
}

fn keyword_range(s: &[u8], lo: usize, hi: usize, keyword: &[u8]) -> (r: bool)
    requires
        lo <= hi <= s@.len(),
    ensures
        r == keyword_is(s@.subrange(lo as int, hi as int), keyword@),
{
    let (w, _) = split_word(s, lo, hi);
    eq_ignore_ascii_case_range(s, lo, w, keyword)
}

fn line_is_ignored(s: &[u8], lo: usize, hi: usize) -> (r: bool)
    requires
        lo <= hi <= s@.len(),
    ensures
        r == cue_line_is_ignored(s@.subrange(lo as int, hi as int)),
{
    let ghost line = s@.subrange(lo as int, hi as int);
    if lo == hi {
        return true;
    }
    assert(line[0] == s@[lo as int]);
    if s[lo] == ';' as u8 {
        return true;
    }
    if hi - lo >= 2 && s[lo] == '/' as u8 && s[lo + 1] == '/' as u8 {
        assert(line[1] == s@[lo + 1]);
        return true;
    }
    proof {
        if line.len() >= 2 {
            assert(line[1] == s@[lo + 1]);
        }
    }
    keyword_range(s, lo, hi, &['R' as u8, 'E' as u8, 'M' as u8]) || keyword_range(
        s,
        lo,
        hi,
        &['C' as u8, 'D' as u8, '_' as u8, 'R' as u8, 'O' as u8, 'M' as u8],
    ) || keyword_range(
        s,
        lo,
        hi,
        &['C' as u8, 'D' as u8, '_' as u8, 'R' as u8, 'O' as u8, 'M' as u8, '_' as u8, 'X' as u8, 'A' as u8],
    )
}

fn file_path_range(s: &[u8], lo: usize, hi: usize) -> (r: Option<(usize, usize)>)
    requires
        lo <= hi <= s@.len(),
    ensures
        match cue_file_path(s@.subrange(lo as int, hi as int)) {
            Some(p) => r matches Some((a, b)) && lo <= a <= b <= hi && s@.subrange(a as int, b as int) == p,
            None => r is None,
        },
{
    let (w, rest) = split_word(s, lo, hi);
    if !eq_ignore_ascii_case_range(s, lo, w, &['F' as u8, 'I' as u8, 'L' as u8, 'E' as u8]) {
        return None;
    }
    let ghost r = s@.subrange(rest as int, hi as int);
    if rest < hi && s[rest] == '"' as u8 {
        assert(r[0] == s@[rest as int]);
        assert(r.skip(1) =~= s@.subrange(rest + 1, hi as int));
        let end = find_byte(s, rest + 1, hi, '"' as u8);
        if end == hi {
            return None;
        }
        assert(r.skip(1).take(end - (rest + 1)) =~= s@.subrange(rest + 1, end as int));
        Some((rest + 1, end))
    } else if rest == hi {
        None
    } else {
        proof {
            if r.len() > 0 {
                assert(r[0] == s@[rest as int]);
            }
        }
        let (w2, _) = split_word(s, rest, hi);
        Some((rest, w2))
    }
}

fn track_mode_range(s: &[u8], lo: usize, hi: usize) -> (r: Option<(usize, usize)>)
    requires
        lo <= hi <= s@.len(),
    ensures
        match cue_track_mode(s@.subrange(lo as int, hi as int)) {
            Some(m) => r matches Some((a, b)) && lo <= a <= b <= hi && s@.subrange(a as int, b as int) == m,
            None => r is None,
        },
{
    let (w, r1) = split_word(s, lo, hi);
    if !eq_ignore_ascii_case_range(s, lo, w, &['T' as u8, 'R' as u8, 'A' as u8, 'C' as u8, 'K' as u8]) {
        return None;
    }
    if r1 == hi {
        return None;
    }
    let (w2, r2) = split_word(s, r1, hi);
    if parse_unsigned(s, r1, w2, 10, 255).is_some() {
        if r2 == hi {
            return None;
        }
        let (w3, _) = split_word(s, r2, hi);
        Some((r2, w3))
    } else {
        Some((r1, w2))
    }
}

fn track_sector_size(s: &[u8], lo: usize, hi: usize) -> (r: Option<CdromSectorSize>)
    requires
        lo <= hi <= s@.len(),
    ensures
        r == cue_track_sector_size(s@.subrange(lo as int, hi as int)),
{
    let m = 'M' as u8;
    let o = 'O' as u8;
    let d = 'D' as u8;
    let e = 'E' as u8;
    if eq_ignore_ascii_case_range(s, lo, hi, &[m, o, d, e, '1' as u8, '/' as u8, '2' as u8, '0' as u8, '4' as u8, '8' as u8])
        || eq_ignore_ascii_case_range(
        s,
        lo,
        hi,
        &[m, o, d, e, '2' as u8, '/' as u8, '2' as u8, '0' as u8, '4' as u8, '8' as u8],
    ) {
        Some(CdromSectorSize::Cooked2048)
    } else if eq_ignore_ascii_case_range(
        s,
        lo,
        hi,
        &[m, o, d, e, '1' as u8, '/' as u8, '2' as u8, '3' as u8, '5' as u8, '2' as u8],
    ) || eq_ignore_ascii_case_range(
        s,
        lo,
        hi,
        &[m, o, d, e, '2' as u8, '/' as u8, '2' as u8, '3' as u8, '5' as u8, '2' as u8],
    ) || eq_ignore_ascii_case_range(
        s,
        lo,
        hi,
        &[m, o, d, e, '1' as u8, '_' as u8, 'R' as u8, 'A' as u8, 'W' as u8],
    ) || eq_ignore_ascii_case_range(
        s,
        lo,
        hi,
        &[m, o, d, e, '2' as u8, '_' as u8, 'R' as u8, 'A' as u8, 'W' as u8],
    ) || eq_ignore_ascii_case_range(
        s,
        lo,
        hi,
        &['C' as u8, d, 'I' as u8, '/' as u8, '2' as u8, '3' as u8, '5' as u8, '2' as u8],
    ) {
        Some(CdromSectorSize::Raw2352)
    } else {
        None
    }
}

fn index01_range(s: &[u8], lo: usize, hi: usize) -> (r: Result<Option<usize>, CueError>)
    requires
        lo <= hi <= s@.len(),
    ensures
        match cue_index01(s@.subrange(lo as int, hi as int)) {
            Ok(Some(v)) => r == Ok::<Option<usize>, CueError>(Some(v as usize)) && v <= usize::MAX,
            Ok(None) => r == Ok::<Option<usize>, CueError>(None),
            Err(e) => r == Err::<Option<usize>, CueError>(e),
        },
{
    let (w, r1) = split_word(s, lo, hi);
    if !eq_ignore_ascii_case_range(s, lo, w, &['I' as u8, 'N' as u8, 'D' as u8, 'E' as u8, 'X' as u8]) {
        return Ok(None);
    }
    if r1 == hi {
        return Err(CueError::MalformedIndex);
    }
    let (w2, r2) = split_word(s, r1, hi);
    let ghost first = s@.subrange(r1 as int, w2 as int);
    if !(w2 - r1 == 2 && s[r1] == '0' as u8 && s[r1 + 1] == '1' as u8) {
        assert(first != seq!['0' as u8, '1' as u8]) by {
            if first == seq!['0' as u8, '1' as u8] {
                assert(first.len() == 2);
                assert(first[0] == s@[r1 as int]);
                assert(first[1] == s@[r1 + 1]);
            }
        }
        return Ok(None);
    }
    assert(first =~= seq!['0' as u8, '1' as u8]);
    if r2 == hi {
        return Err(CueError::MissingIndexTime);
    }
    let (w3, _) = split_word(s, r2, hi);
    match parse_msf_bytes(s, r2, w3) {
        Ok(v) => Ok(Some(v)),
        Err(e) => Err(e),
    }
}

/// One trimmed line `s[lo..hi]` of the sheet.
fn cue_line(s: &[u8], lo: usize, hi: usize, st: &mut CueState) -> (r: Result<(), CueError>)
    requires
        lo <= hi <= s@.len(),
        old(st).within(s@.len()),
    ensures
        final(st).within(s@.len()),
        match cue_step(old(st).view_in(s@), s@.subrange(lo as int, hi as int)) {
            Ok(next) => r is Ok && final(st).view_in(s@) == next,
            Err(e) => r == Err::<(), CueError>(e),
        },
{
    if line_is_ignored(s, lo, hi) {
        return Ok(());
    }
    match file_path_range(s, lo, hi) {
        Some((a, b)) => {
            st.file = Some((a, b));
            st.track_open = false;
            return Ok(());
        },
        None => {},
    }
    match track_mode_range(s, lo, hi) {
        Some((a, b)) => {
            if st.track.is_some() || eq_ignore_ascii_case_range(
                s,
                a,
                b,
                &['A' as u8, 'U' as u8, 'D' as u8, 'I' as u8, 'O' as u8],
            ) {
                st.track_open = false;
                return Ok(());
            }
            let size = match track_sector_size(s, a, b) {
                None => {
                    return Err(CueError::UnsupportedTrackMode);
                },
                Some(x) => x,
            };
            match st.file {
                None => {
                    return Err(CueError::TrackBeforeFile);
                },
                Some((fa, fb)) => {
                    st.track = Some((fa, fb, size, 0));
                    st.track_open = true;
                    st.has_index01 = false;
                    return Ok(());
                },
            }
        },
        None => {},
    }
    if st.track_open {
        match index01_range(s, lo, hi) {
            Err(e) => Err(e),
            Ok(None) => Ok(()),
            Ok(Some(v)) => {
                match st.track {
                    Some((fa, fb, size, _)) => {
                        st.track = Some((fa, fb, size, v));
                    },
                    None => {},
                }
                st.has_index01 = true;
                st.track_open = false;
                Ok(())
            },
        }
    } else {
        Ok(())
    }
}

/// Finds the data track of a CUE sheet: the first track that is not audio,
/// the file named before it, and the start of its INDEX 01.
pub fn parse_cue_disc_spec(text: &str) -> (r: Result<CueDiscSpec, CueError>)
    ensures
        match cue_sheet_spec(text.spec_bytes()) {
            Ok((file, size, index01)) => r matches Ok(spec) && spec.file_name@ == file && spec.sector_size
                == size && spec.index01_frames == index01,
            Err(e) => r matches Err(x) && x == e,
        },
{
    let s = text.as_bytes();
    let len = s.len();
    let ghost bytes = s@;
    let mut st = CueState { file: None, track: None, track_open: false, has_index01: false };
    let mut pos: usize = 0;
    assert(bytes.skip(0) =~= bytes);
    loop
        invariant_except_break
            cue_run(bytes, (None, None, false, false)) == cue_run(bytes.skip(pos as int), st.view_in(bytes)),
        invariant
            bytes == s@,
            bytes == text.spec_bytes(),
            len == s@.len(),
            pos <= len,
            st.within(len as nat),
        ensures
            cue_run(bytes, (None, None, false, false)) == Ok::<CueScan, CueError>(st.view_in(bytes)),
        decreases len - pos,
    {
        let ghost rest = bytes.skip(pos as int);
        let ghost before = st.view_in(bytes);
        let end = find_byte(s, pos, len, '\n' as u8);
        assert(s@.subrange(pos as int, len as int) =~= rest);
        let (a, b) = trim_range(s, pos, end);
        assert(rest.take(end - pos) =~= s@.subrange(pos as int, end as int));
        let step = cue_line(s, a, b, &mut st);
        assert(trim(rest.take(end - pos)) == s@.subrange(a as int, b as int));
        match step {
            Err(e) => {
                assert(cue_run(rest, before) == Err::<CueScan, CueError>(e));
                return Err(e);
            },
            Ok(()) => {},
        }
        if end >= len {
            break;
        }
        assert(rest.skip(end - pos + 1) =~= bytes.skip(end + 1));
        pos = end + 1;
    }
    let ghost last = st.view_in(bytes);
    match st.track {
        None => Err(CueError::NoDataTrack),
        Some((fa, fb, size, frames)) => {
            if !st.has_index01 {
                return Err(CueError::MissingIndex01);
            }
            let mut name: Vec<u8> = Vec::new();
            let mut i = fa;
            while i < fb
                invariant
                    fa <= i <= fb <= s@.len(),
                    name@ == s@.subrange(fa as int, i as int),
                decreases fb - i,
            {
                name.push(s[i]);
                i += 1;
                assert(name@ =~= s@.subrange(fa as int, i as int));
            }
            Ok(CueDiscSpec { file_name: name, sector_size: size, index01_frames: frames })
        },
    }
}

} // verus!
