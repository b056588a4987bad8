//! Reading the display list that `kscreen-doctor -o` prints on KDE: one block per output,
//! opened by an `Output:` line and followed by `enabled`/`disabled`, `Geometry:` and `Scale:`
//! lines. The scale is kept as the text that follows `Scale:`; turning it into a number is the
//! caller's part.

use crate::geometry::{PixelPoint, PixelRect, PixelSize};
use crate::history_browser::{occurs, occurs_in};
use crate::kwin_place::{parse_u32, parse_u32_text, split_words, words};
use crate::model::{ErrorCode, PinoraError};
use crate::scan::{
    after_prefix, find_char, lemma_pieces_nonempty, pieces, find_from, find_space, find_space_from, first_piece, has_prefix,
    lemma_find_bounds, lemma_find_space_bounds, parse_i32, parse_i32_text, second_piece,
    slice_chars, split_once, split_once_space, starts_with_chars, string_of, trim, trim_chars,
};
use crate::text::{chars_of, push_text};
use vstd::prelude::*;

verus! {

/// One enabled output with a usable geometry.
#[derive(Debug, Clone)]
pub struct KdeOutput {
    pub id: String,
    pub name: String,
    pub bounds: PixelRect,
    /// The text after `Scale:`, trimmed; `1` where the block had none.
    pub scale: String,
}

pub struct OutputView {
    pub id: Seq<char>,
    pub name: Seq<char>,
    pub bounds: PixelRect,
    pub scale: Seq<char>,
}

pub open spec fn output_view(o: KdeOutput) -> OutputView {
    OutputView { id: o.id@, name: o.name@, bounds: o.bounds, scale: o.scale@ }
}

pub open spec fn outputs_view(os: Seq<KdeOutput>) -> Seq<OutputView> {
    os.map_values(|o: KdeOutput| output_view(o))
}

/// Where the reading of the listing stands: the outputs found so far and what the current
/// block has said.
pub struct ScanState {
    pub outputs: Seq<OutputView>,
    pub name: Option<Seq<char>>,
    pub id: Option<Seq<char>>,
    pub geometry: Option<PixelRect>,
    pub scale: Seq<char>,
    pub enabled: bool,
}

pub open spec fn initial_scan() -> ScanState {
    ScanState {
        outputs: Seq::empty(),
        name: None,
        id: None,
        geometry: None,
        scale: "1"@,
        enabled: true,
    }
}

/// Closes the current block: an enabled block with a name and a geometry of positive size
/// becomes an output (its id, where the `Output:` line gave none, is `kde-` and the name).
pub open spec fn close_block(st: ScanState) -> ScanState {
    let outputs = match (st.name, st.geometry) {
        (Some(n), Some(g)) => if st.enabled && g.size.width > 0 && g.size.height > 0 {
            st.outputs.push(
                OutputView {
                    id: match st.id {
                        Some(i) => i,
                        None => "kde-"@ + n,
                    },
                    name: n,
                    bounds: g,
                    scale: st.scale,
                },
            )
        } else {
            st.outputs
        },
        _ => st.outputs,
    };
    ScanState { outputs, name: None, id: None, geometry: None, scale: "1"@, enabled: true }
}

/// An `Output:` line: `<index> <name> ...` names the block `kde-<index>` / `<name>`; a lone
/// index names it `kde-<index>` / `Output-<index>`.
pub open spec fn open_block(st: ScanState, rest: Seq<char>) -> ScanState {
    let parts = words(rest);
    let closed = close_block(st);
    if parts.len() >= 2 {
        ScanState { id: Some("kde-"@ + parts[0]), name: Some(parts[1]), ..closed }
    } else if parts.len() == 1 {
        ScanState { id: Some("kde-"@ + parts[0]), name: Some("Output-"@ + parts[0]), ..closed }
    } else {
        closed
    }
}

pub open spec fn number_or_zero_i32(t: Seq<char>) -> i32 {
    match parse_i32_text(t) {
        Some(v) => v,
        None => 0,
    }
}

pub open spec fn number_or_zero_u32(t: Seq<char>) -> u32 {
    match parse_u32_text(t) {
        Some(v) => v,
        None => 0,
    }
}

/// A `Geometry: X,Y WxH` line; a number that does not parse counts as 0, and the line is
/// ignored where the space or the `x` is missing.
pub open spec fn geometry_line(st: ScanState, rest: Seq<char>) -> ScanState {
    match split_once_space(trim(rest)) {
        Some((xy, wh)) => match split_once(wh, 'x') {
            Some((w, h)) => {
                let x = number_or_zero_i32(first_piece(xy, ','));
                let y = match second_piece(xy, ',') {
                    Some(t) => number_or_zero_i32(t),
                    None => 0,
                };
                ScanState {
                    geometry: Some(
                        PixelRect {
                            origin: PixelPoint { x, y },
                            size: PixelSize {
                                width: number_or_zero_u32(w),
                                height: number_or_zero_u32(h),
                            },
                        },
                    ),
                    ..st
                }
            },
            None => st,
        },
        None => st,
    }
}

/// One line of the listing, trimmed.
pub open spec fn scan_line(st: ScanState, line: Seq<char>) -> ScanState {
    let l = trim(line);
    if has_prefix(l, "Output:"@) {
        open_block(st, after_prefix(l, "Output:"@))
    } else if has_prefix(l, "enabled"@) {
        ScanState { enabled: !occurs_in(l, "disabled"@) && !occurs_in(l, "false"@), ..st }
    } else if has_prefix(l, "disabled"@) {
        ScanState { enabled: false, ..st }
    } else if has_prefix(l, "Geometry:"@) {
        geometry_line(st, after_prefix(l, "Geometry:"@))
    } else if has_prefix(l, "Scale:"@) {
        ScanState { scale: trim(after_prefix(l, "Scale:"@)), ..st }
    } else {
        st
    }
}

pub open spec fn scan_lines(lines: Seq<Seq<char>>) -> ScanState
    decreases lines.len(),
{
    if lines.len() == 0 {
        initial_scan()
    } else {
        scan_line(scan_lines(lines.drop_last()), lines.last())
    }
}

/// The outputs that a listing describes, in order, reading it line by line.
pub open spec fn listed_outputs(text: Seq<char>) -> Seq<OutputView> {
    close_block(scan_lines(pieces(text, '\n'))).outputs
}

pub open spec fn all_sized(os: Seq<OutputView>) -> bool {
    forall|k: int| 0 <= k < os.len() ==> os[k].bounds.size.width > 0 && os[k].bounds.size.height > 0
}

proof fn lemma_close_keeps_sized(st: ScanState)
    requires
        all_sized(st.outputs),
    ensures
        all_sized(close_block(st).outputs),
{
    let c = close_block(st).outputs;
    assert forall|k: int| 0 <= k < c.len() implies c[k].bounds.size.width > 0 && c[k].bounds.size.height > 0 by {
        if k < st.outputs.len() {
            assert(c[k] == st.outputs[k]);
        }
    }
}

proof fn lemma_scan_keeps_sized(lines: Seq<Seq<char>>)
    ensures
        all_sized(scan_lines(lines).outputs),
    decreases lines.len(),
{
    if lines.len() > 0 {
        let before = scan_lines(lines.drop_last());
        lemma_scan_keeps_sized(lines.drop_last());
        lemma_close_keeps_sized(before);
    }
}

/// Every output read from a listing has a width and a height above zero.
pub proof fn listed_outputs_have_area(text: Seq<char>)
    ensures
        all_sized(listed_outputs(text)),
{
    lemma_scan_keeps_sized(pieces(text, '\n'));
    lemma_close_keeps_sized(scan_lines(pieces(text, '\n')));
}

struct Scan {
    outputs: Vec<KdeOutput>,
    name: Option<String>,
    id: Option<String>,
    geometry: Option<PixelRect>,
    scale: String,
    enabled: bool,
}

spec fn opt_view(o: Option<String>) -> Option<Seq<char>> {
    match o {
        Some(s) => Some(s@),
        None => None,
    }
}

spec fn scan_view(s: Scan) -> ScanState {
    ScanState {
        outputs: outputs_view(s.outputs@),
        name: opt_view(s.name),
        id: opt_view(s.id),
        geometry: s.geometry,
        scale: s.scale@,
        enabled: s.enabled,
    }
}

fn joined(a: &str, b: &Vec<char>) -> (s: String)
    ensures
        s@ == a@ + b@,
{
    let mut s = String::new();
    push_text(&mut s, a);
    let t = string_of(b);
    push_text(&mut s, t.as_str());
    s
}

fn close_current(s: &mut Scan)
    ensures
        scan_view(*final(s)) == close_block(scan_view(*old(s))),
{
    let name = s.name.take();
    let geometry = s.geometry.take();
    let id = s.id.take();
    match (name, geometry) {
        (Some(n), Some(g)) => {
            if s.enabled && g.size.width > 0 && g.size.height > 0 {
                let id = match id {
                    Some(i) => i,
                    None => {
                        let mut t = String::new();
                        push_text(&mut t, "kde-");
                        push_text(&mut t, n.as_str());
                        t
                    },
                };
                let scale = s.scale.clone();
                let ghost before = s.outputs@;
                s.outputs.push(KdeOutput { id, name: n, bounds: g, scale });
                assert(outputs_view(s.outputs@) =~= outputs_view(before).push(
                    output_view(s.outputs@.last()),
                ));
            }
        },
        _ => {},
    }
    s.scale = "1".to_owned();
    s.enabled = true;
}

fn open_current(s: &mut Scan, rest: &Vec<char>)
    ensures
        scan_view(*final(s)) == open_block(scan_view(*old(s)), rest@),
{
    close_current(s);
    let text = string_of(rest);
    let parts = split_words(text.as_str());
    proof {
        assert(parts@.map_values(|w: Vec<char>| w@) == words(rest@));
        assert(parts@.len() == words(rest@).len());
    }
    if parts.len() >= 2 {
        assert(parts@[0]@ == words(rest@)[0]);
        assert(parts@[1]@ == words(rest@)[1]);
        s.id = Some(joined("kde-", &parts[0]));
        s.name = Some(string_of(&parts[1]));
    } else if parts.len() == 1 {
        assert(parts@[0]@ == words(rest@)[0]);
        s.id = Some(joined("kde-", &parts[0]));
        s.name = Some(joined("Output-", &parts[0]));
    }
}

fn number_i32(t: &Vec<char>) -> (v: i32)
    ensures
        v == number_or_zero_i32(t@),
{
    match parse_i32(t) {
        Some(v) => v,
        None => 0,
    }
}

fn number_u32(t: &Vec<char>) -> (v: u32)
    ensures
        v == number_or_zero_u32(t@),
{
    match parse_u32(t) {
        Some(v) => v,
        None => 0,
    }
}

fn geometry_current(s: &mut Scan, rest: &Vec<char>)
    ensures
        scan_view(*final(s)) == geometry_line(scan_view(*old(s)), rest@),
{
    let r = trim_chars(rest);
    let k = find_space(&r);
    proof {
        lemma_find_space_bounds(r@, 0);
    }
    if k >= r.len() {
        return;
    }
    let xy = slice_chars(&r, 0, k);
    let wh = slice_chars(&r, k + 1, r.len());
    let kx = find_char(&wh, 'x');
    proof {
        lemma_find_bounds(wh@, 'x', 0);
    }
    if kx >= wh.len() {
        return;
    }
    let w = slice_chars(&wh, 0, kx);
    let h = slice_chars(&wh, kx + 1, wh.len());
    let c1 = find_char(&xy, ',');
    proof {
        lemma_find_bounds(xy@, ',', 0);
    }
    let first = slice_chars(&xy, 0, c1);
    let x = number_i32(&first);
    let y = if c1 < xy.len() {
        let rest2 = slice_chars(&xy, c1 + 1, xy.len());
        let c2 = find_char(&rest2, ',');
        proof {
            lemma_find_bounds(rest2@, ',', 0);
        }
        let second = slice_chars(&rest2, 0, c2);
        assert(second_piece(xy@, ',') == Some(second@));
        number_i32(&second)
    } else {
        0
    };
    let width = number_u32(&w);
    let height = number_u32(&h);
    s.geometry = Some(PixelRect { origin: PixelPoint { x, y }, size: PixelSize { width, height } });
}

fn scan_one_line(s: &mut Scan, line: &Vec<char>)
    ensures
        scan_view(*final(s)) == scan_line(scan_view(*old(s)), line@),
{
    let l = trim_chars(line);
    let output = chars_of("Output:");
    let enabled = chars_of("enabled");
    let disabled = chars_of("disabled");
    let geometry = chars_of("Geometry:");
    let scale = chars_of("Scale:");
    if starts_with_chars(&l, &output) {
        let rest = slice_chars(&l, output.len(), l.len());
        open_current(s, &rest);
    } else if starts_with_chars(&l, &enabled) {
        let off = occurs(&l, &disabled);
        let no = occurs(&l, &chars_of("false"));
        s.enabled = !off && !no;
    } else if starts_with_chars(&l, &disabled) {
        s.enabled = false;
    } else if starts_with_chars(&l, &geometry) {
        let rest = slice_chars(&l, geometry.len(), l.len());
        geometry_current(s, &rest);
    } else if starts_with_chars(&l, &scale) {
        let rest = slice_chars(&l, scale.len(), l.len());
        s.scale = string_of(&trim_chars(&rest));
    }
}

pub const NO_OUTPUTS_MESSAGE: &'static str = "kscreen-doctor returned no enabled outputs";

/// The enabled outputs that a `kscreen-doctor -o` listing (colour codes removed) describes;
/// an error where there is none.
pub fn parse_kscreen_doctor(text: &str) -> (r: Result<Vec<KdeOutput>, PinoraError>)
    ensures
        match r {
            Ok(outputs) => outputs_view(outputs@) == listed_outputs(text@) && outputs@.len()
                > 0,
            Err(e) => listed_outputs(text@).len() == 0 && e.code == ErrorCode::CapabilityUnavailable
                && e.message@ == NO_OUTPUTS_MESSAGE@,
        },
{
    let chars = chars_of(text);
    let mut s = Scan {
        outputs: Vec::new(),
        name: None,
        id: None,
        geometry: None,
        scale: "1".to_owned(),
        enabled: true,
    };
    let mut current: Vec<char> = Vec::new();
    let mut i: usize = 0;
    assert(outputs_view(s.outputs@) =~= Seq::<OutputView>::empty());
    while i < chars.len()
        invariant
            i <= chars@.len(),
            chars@ == text@,
            pieces(chars@.subrange(0, i as int), '\n').len() >= 1,
            scan_view(s) == scan_lines(pieces(chars@.subrange(0, i as int), '\n').drop_last()),
            current@ == pieces(chars@.subrange(0, i as int), '\n').last(),
        decreases chars@.len() - i,
    {
        let c = chars[i];
        let ghost pre = chars@.subrange(0, i as int);
        let ghost next = chars@.subrange(0, i + 1);
        assert(next.drop_last() =~= pre);
        assert(next.last() == c);
        proof {
            lemma_pieces_nonempty(pre, '\n');
        }
        if c == '\n' {
            scan_one_line(&mut s, &current);
            assert(pieces(next, '\n').drop_last() =~= pieces(pre, '\n'));
            assert(pieces(pre, '\n').drop_last().push(pieces(pre, '\n').last()) =~= pieces(pre, '\n'));
            current = Vec::new();
        } else {
            current.push(c);
            assert(pieces(next, '\n').drop_last() =~= pieces(pre, '\n').drop_last());
        }
        i += 1;
    }
    let ghost all = chars@.subrange(0, i as int);
    assert(all =~= text@);
    scan_one_line(&mut s, &current);
    assert(pieces(all, '\n').drop_last().push(pieces(all, '\n').last()) =~= pieces(all, '\n'));
    close_current(&mut s);
    if s.outputs.len() == 0 {
        return Err(PinoraError::new(ErrorCode::CapabilityUnavailable, NO_OUTPUTS_MESSAGE));
    }
    Ok(s.outputs)
}

} // verus!
