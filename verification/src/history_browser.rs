//! The history window's state: search, selection, scrolling, the clear confirmation and the
//! mapping of clicks and keys to actions. No file system and no window handle here.

use crate::geometry::{PixelPoint, PixelRect};
use crate::history::{HistoryEntry, HistoryEntryView};
use crate::history_store::entry_views;
use crate::text::{chars_of, decimal, push_decimal};
use vstd::prelude::*;

verus! {

pub const PANEL_WIDTH: u32 = 820;
pub const PANEL_HEIGHT: u32 = 520;
pub const LIST_X: i32 = 24;
pub const LIST_Y: i32 = 96;
pub const LIST_W: u32 = 410;
pub const ROW_H: u32 = 56;
pub const ROW_GAP: i32 = 8;
pub const MAX_VISIBLE_ROWS: usize = 6;
pub const BUTTON_Y: i32 = 442;
pub const BUTTON_W: u32 = 140;
pub const BUTTON_H: u32 = 42;
/// Longest search query, in characters.
pub const MAX_QUERY_CHARS: usize = 64;

#[derive(Debug, Clone, Copy, PartialEq, Eq, Structural)]
pub enum HistoryPanelAction {
    /// Select the entry at this position of the shown list.
    Select(usize),
    Reopen,
    Edit,
    Delete,
    RequestClear,
    ConfirmClear,
    CancelClear,
    Close,
}

#[derive(Debug, Clone, Copy, PartialEq, Eq, Structural)]
pub enum HistoryPanelKey {
    Up,
    Down,
    Enter,
    Edit,
    Delete,
    Backspace,
    Escape,
}

#[derive(Debug, Clone, Copy, PartialEq, Eq)]
pub enum HistoryPanelStatus {
    Ready,
    Loading,
    Empty,
    /// An action failed; the code names what failed.
    Error(&'static str),
}

// ---------------------------------------------------------------------------------------
// Search

/// ASCII lower case of one character; other characters are kept.
pub open spec fn ascii_lower(c: char) -> char {
    if 'A' <= c && c <= 'Z' {
        ((c as u32) + 32) as char
    } else {
        c
    }
}

pub open spec fn lower_text(s: Seq<char>) -> Seq<char> {
    s.map_values(|c: char| ascii_lower(c))
}

/// `needle` occurs in `hay` as a contiguous run.
pub open spec fn occurs_in(hay: Seq<char>, needle: Seq<char>) -> bool {
    exists|i: int|
        0 <= i && i + needle.len() <= hay.len() && #[trigger] hay.subrange(i, i + needle.len())
            == needle
}

/// `WxH` of the entry's source rectangle.
pub open spec fn size_text(e: HistoryEntryView) -> Seq<char> {
    decimal(e.source_rect.size.width as nat) + seq!['x'] + decimal(e.source_rect.size.height as nat)
}

/// Whether an entry matches a search query: the lower-cased query occurs in the lower-cased
/// file name, the lower-cased display identity, or the `WxH` size text.
pub open spec fn entry_matches(e: HistoryEntryView, query: Seq<char>) -> bool {
    let q = lower_text(query);
    occurs_in(lower_text(e.file_name), q) || occurs_in(lower_text(e.display), q) || occurs_in(
        size_text(e),
        q,
    )
}

/// Positions of the first `n` entries that match, in order.
pub open spec fn matching_positions(all: Seq<HistoryEntryView>, query: Seq<char>, n: int) -> Seq<
    int,
>
    decreases n,
{
    if n <= 0 {
        Seq::empty()
    } else {
        matching_positions(all, query, n - 1) + (if entry_matches(all[n - 1], query) {
            seq![n - 1]
        } else {
            Seq::empty()
        })
    }
}

/// Positions of the entries that a query shows, in order.
pub open spec fn shown_positions(all: Seq<HistoryEntryView>, query: Seq<char>) -> Seq<int> {
    matching_positions(all, query, all.len() as int)
}

fn lower_char(c: char) -> (l: char)
    ensures
        l == ascii_lower(c),
{
    if 'A' <= c && c <= 'Z' {
        let code: u8 = (c as u8) + 32;
        code as char
    } else {
        c
    }
}

pub(crate) fn lower_chars(s: &Vec<char>) -> (l: Vec<char>)
    ensures
        l@ == lower_text(s@),
{
    let mut l: Vec<char> = Vec::new();
    let mut i: usize = 0;
    while i < s.len()
        invariant
            i <= s@.len(),
            l@ == lower_text(s@.subrange(0, i as int)),
        decreases s@.len() - i,
    {
        l.push(lower_char(s[i]));
        assert(l@ =~= lower_text(s@.subrange(0, i + 1)));
        i += 1;
    }
    assert(s@.subrange(0, s@.len() as int) =~= s@);
    l
}

/// Whether `needle` occurs in `hay`.
pub(crate) fn occurs(hay: &Vec<char>, needle: &Vec<char>) -> (b: bool)
    ensures
        b == occurs_in(hay@, needle@),
{
    if needle.len() > hay.len() {
        return false;
    }
    let last = hay.len() - needle.len();
    let mut i: usize = 0;
    loop
        invariant
            i <= last,
            last == hay@.len() - needle@.len(),
            needle@.len() <= hay@.len(),
            hay@.len() <= usize::MAX,
            forall|k: int|
                0 <= k < i ==> #[trigger] hay@.subrange(k, k + needle@.len()) != needle@,
        decreases last - i,
    {
        let mut j: usize = 0;
        let mut same = true;
        while j < needle.len()
            invariant
                i <= last,
                last == hay@.len() - needle@.len(),
                needle@.len() <= hay@.len(),
                hay@.len() <= usize::MAX,
                j <= needle@.len(),
                same == (forall|m: int| 0 <= m < j ==> hay@[i + m] == needle@[m]),
            decreases needle@.len() - j,
        {
            if hay[i + j] != needle[j] {
                same = false;
            }
            j += 1;
        }
        if same {
            assert(hay@.subrange(i as int, i + needle@.len()) =~= needle@);
            return true;
        }
        assert(hay@.subrange(i as int, i + needle@.len()) != needle@) by {
            let m = choose|m: int| 0 <= m < needle@.len() && hay@[i + m] != needle@[m];
            assert(hay@.subrange(i as int, i + needle@.len())[m] != needle@[m]);
        }
        if i == last {
            assert forall|k: int| 0 <= k && k + needle@.len() <= hay@.len() implies #[trigger] hay@.subrange(
                k,
                k + needle@.len(),
            ) != needle@ by {
                assert(k <= last);
            }
            return false;
        }
        i += 1;
    }
}

/// `WxH` of a size, as characters.
fn size_chars(width: u32, height: u32) -> (v: Vec<char>)
    ensures
        v@ == decimal(width as nat) + seq!['x'] + decimal(height as nat),
{
    let mut s = String::new();
    push_decimal(&mut s, width as u64);
    crate::text::push_char(&mut s, 'x');
    push_decimal(&mut s, height as u64);
    chars_of(s.as_str())
}

/// Whether `entry` matches a query given in lower case.
fn matches_query(entry: &HistoryEntry, query: Ghost<Seq<char>>, lowered: &Vec<char>) -> (b: bool)
    requires
        lowered@ == lower_text(query@),
    ensures
        b == entry_matches(entry@, query@),
{
    let name = lower_chars(&chars_of(entry.file_name.as_str()));
    if occurs(&name, lowered) {
        return true;
    }
    let display = lower_chars(&chars_of(entry.display.as_str()));
    if occurs(&display, lowered) {
        return true;
    }
    let size = size_chars(entry.source_rect.size.width, entry.source_rect.size.height);
    occurs(&size, lowered)
}

// ---------------------------------------------------------------------------------------
// Layout

/// The list row `row` places on screen (rows below the first one follow at a fixed pitch).
pub fn row_rect(row: usize) -> (r: PixelRect)
    requires
        row <= 33_554_430,
    ensures
        r == PixelRect::rect(LIST_X as int, LIST_Y + row * (ROW_H + ROW_GAP), LIST_W as int, ROW_H as int),
{
    PixelRect::new(LIST_X, LIST_Y + row as i32 * (ROW_H as i32 + ROW_GAP), LIST_W, ROW_H)
}

pub fn reopen_rect() -> (r: PixelRect)
    ensures
        r == PixelRect::rect(492, BUTTON_Y as int, BUTTON_W as int, BUTTON_H as int),
{
    PixelRect::new(492, BUTTON_Y, BUTTON_W, BUTTON_H)
}

pub fn edit_rect() -> (r: PixelRect)
    ensures
        r == PixelRect::rect(336, BUTTON_Y as int, BUTTON_W as int, BUTTON_H as int),
{
    PixelRect::new(336, BUTTON_Y, BUTTON_W, BUTTON_H)
}

pub fn delete_rect() -> (r: PixelRect)
    ensures
        r == PixelRect::rect(648, BUTTON_Y as int, BUTTON_W as int, BUTTON_H as int),
{
    PixelRect::new(648, BUTTON_Y, BUTTON_W, BUTTON_H)
}

pub fn clear_rect() -> (r: PixelRect)
    ensures
        r == PixelRect::rect(180, BUTTON_Y as int, BUTTON_W as int, BUTTON_H as int),
{
    PixelRect::new(180, BUTTON_Y, BUTTON_W, BUTTON_H)
}

pub fn close_rect() -> (r: PixelRect)
    ensures
        r == PixelRect::rect(24, BUTTON_Y as int, BUTTON_W as int, BUTTON_H as int),
{
    PixelRect::new(24, BUTTON_Y, BUTTON_W, BUTTON_H)
}

// ---------------------------------------------------------------------------------------
// The panel

/// The panel as plain values.
pub struct HistoryPanelView {
    /// Every entry handed to the panel.
    pub all: Seq<HistoryEntryView>,
    /// Positions in `all` of the entries the query shows, in order.
    pub shown: Seq<int>,
    /// Position in `shown` of the selected entry.
    pub selected: Option<int>,
    /// Position in `shown` of the first row on screen.
    pub first_visible: int,
    pub status: HistoryPanelStatus,
    pub query: Seq<char>,
    pub confirm_clear: bool,
}

/// What every panel keeps: the shown list is exactly the entries that match the query; an
/// entry is selected exactly when some are shown, and the selected one is on screen; the
/// status agrees with whether entries are shown; the query is at most `MAX_QUERY_CHARS`
/// long.
pub open spec fn panel_ok(v: HistoryPanelView) -> bool {
    &&& v.shown == shown_positions(v.all, v.query)
    &&& (v.selected is Some <==> v.shown.len() > 0)
    &&& (v.selected matches Some(s) ==> 0 <= s < v.shown.len() && v.first_visible <= s
        < v.first_visible + MAX_VISIBLE_ROWS)
    &&& (v.selected is None ==> v.first_visible == 0)
    &&& 0 <= v.first_visible
    &&& (v.status == HistoryPanelStatus::Ready || v.status == HistoryPanelStatus::Loading
        ==> v.shown.len() > 0)
    &&& (v.status == HistoryPanelStatus::Empty ==> v.shown.len() == 0)
    &&& v.query.len() <= MAX_QUERY_CHARS
}

/// The selection and scroll position right after the shown list changed.
pub open spec fn reset(v: HistoryPanelView) -> HistoryPanelView {
    HistoryPanelView {
        selected: if v.shown.len() > 0 {
            Some(0)
        } else {
            None
        },
        first_visible: 0,
        status: if v.shown.len() > 0 {
            HistoryPanelStatus::Ready
        } else {
            HistoryPanelStatus::Empty
        },
        ..v
    }
}

/// The scroll position that keeps row `selected` on screen.
pub open spec fn scrolled_to(first: int, selected: int) -> int {
    if selected < first {
        selected
    } else if selected >= first + MAX_VISIBLE_ROWS {
        selected + 1 - MAX_VISIBLE_ROWS
    } else {
        first
    }
}

/// The panel after `select(index)`.
pub open spec fn selected_view(v: HistoryPanelView, index: int) -> HistoryPanelView {
    if 0 <= index < v.shown.len() {
        HistoryPanelView {
            selected: Some(index),
            status: HistoryPanelStatus::Ready,
            first_visible: scrolled_to(v.first_visible, index),
            ..v
        }
    } else {
        v
    }
}

/// The history window's state.
#[derive(Debug)]
pub struct HistoryPanel {
    all_entries: Vec<HistoryEntry>,
    shown: Vec<usize>,
    selected: Option<usize>,
    first_visible: usize,
    status: HistoryPanelStatus,
    query: Vec<char>,
    confirm_clear: bool,
}

impl HistoryPanel {
    pub closed spec fn view(&self) -> HistoryPanelView {
        HistoryPanelView {
            all: entry_views(self.all_entries@),
            shown: self.shown@.map_values(|p: usize| p as int),
            selected: match self.selected {
                Some(s) => Some(s as int),
                None => None,
            },
            first_visible: self.first_visible as int,
            status: self.status,
            query: self.query@,
            confirm_clear: self.confirm_clear,
        }
    }

    pub closed spec fn wf(&self) -> bool {
        &&& panel_ok(self.view())
        &&& forall|k: int| 0 <= k < self.shown@.len() ==> #[trigger] self.shown@[k]
            < self.all_entries@.len()
    }

    /// Recomputes the shown list from the query.
    fn apply_filter(&mut self)
        ensures
            final(self).view() == (HistoryPanelView {
                shown: shown_positions(old(self).view().all, old(self).view().query),
                ..old(self).view()
            }),
            forall|k: int| 0 <= k < final(self).shown@.len() ==> #[trigger] final(self).shown@[k]
                < final(self).all_entries@.len(),
    {
        let ghost query = self.query@;
        let ghost all = entry_views(self.all_entries@);
        let lowered = lower_chars(&self.query);
        let mut shown: Vec<usize> = Vec::new();
        let mut i: usize = 0;
        while i < self.all_entries.len()
            invariant
                i <= self.all_entries@.len(),
                query == self.query@,
                all == entry_views(self.all_entries@),
                lowered@ == lower_text(query),
                shown@.map_values(|p: usize| p as int) == matching_positions(all, query, i as int),
                forall|k: int| 0 <= k < shown@.len() ==> #[trigger] shown@[k] < i,
            decreases self.all_entries@.len() - i,
        {
            let ghost before = shown@;
            if matches_query(&self.all_entries[i], Ghost(query), &lowered) {
                shown.push(i);
                assert(shown@.map_values(|p: usize| p as int) =~= before.map_values(
                    |p: usize| p as int,
                ).push(i as int));
            }
            assert(matching_positions(all, query, i + 1) == matching_positions(all, query, i as int)
                + (if entry_matches(all[i as int], query) {
                seq![i as int]
            } else {
                Seq::<int>::empty()
            }));
            assert(all[i as int] == self.all_entries@[i as int]@);
            i += 1;
        }
        self.shown = shown;
    }

    fn reset_selection(&mut self)
        ensures
            final(self).view() == reset(old(self).view()),
            final(self).shown == old(self).shown,
            final(self).all_entries == old(self).all_entries,
    {
        self.first_visible = 0;
        if self.shown.len() > 0 {
            self.selected = Some(0);
            self.status = HistoryPanelStatus::Ready;
        } else {
            self.selected = None;
            self.status = HistoryPanelStatus::Empty;
        }
    }

    /// A panel over `entries`, with an empty query and the first entry selected.
    pub fn new(entries: Vec<HistoryEntry>) -> (panel: HistoryPanel)
        ensures
            panel.wf(),
            panel.view().all == entry_views(entries@),
            panel.view().query.len() == 0,
            panel.view() == reset(panel.view()),
            !panel.view().confirm_clear,
    {
        let mut panel = HistoryPanel {
            all_entries: entries,
            shown: Vec::new(),
            selected: None,
            first_visible: 0,
            status: HistoryPanelStatus::Empty,
            query: Vec::new(),
            confirm_clear: false,
        };
        panel.apply_filter();
        panel.reset_selection();
        proof {
            lemma_all_shown(panel.view().all, panel.view().query);
        }
        panel
    }
}

/// With an empty query every entry is shown.
pub proof fn lemma_all_shown(all: Seq<HistoryEntryView>, query: Seq<char>)
    requires
        query.len() == 0,
    ensures
        shown_positions(all, query) == Seq::new(all.len(), |i: int| i),
{
    lemma_matching_all(all, query, all.len() as int);
}

proof fn lemma_matching_all(all: Seq<HistoryEntryView>, query: Seq<char>, n: int)
    requires
        query.len() == 0,
        0 <= n <= all.len(),
    ensures
        matching_positions(all, query, n) == Seq::new(n as nat, |i: int| i),
    decreases n,
{
    if n > 0 {
        lemma_matching_all(all, query, n - 1);
        let q = lower_text(query);
        assert(q.len() == 0);
        let h = lower_text(all[n - 1].file_name);
        assert(h.subrange(0, 0 + q.len() as int) =~= q);
        assert(occurs_in(h, q));
        assert(entry_matches(all[n - 1], query));
        assert(matching_positions(all, query, n) =~= Seq::new(n as nat, |i: int| i));
    } else {
        assert(matching_positions(all, query, n) =~= Seq::new(n as nat, |i: int| i));
    }
}

impl HistoryPanel {
    /// Number of entries the query shows.
    pub fn entry_count(&self) -> (n: usize)
        requires
            self.wf(),
        ensures
            n == self.view().shown.len(),
    {
        self.shown.len()
    }

    /// The shown entry at position `index` of the shown list.
    pub fn entry(&self, index: usize) -> (e: Option<&HistoryEntry>)
        requires
            self.wf(),
        ensures
            index < self.view().shown.len() ==> (e matches Some(x) && x@ == self.view().all[self.view().shown[index as int]]),
            index >= self.view().shown.len() ==> e is None,
    {
        if index < self.shown.len() {
            let p = self.shown[index];
            proof {
                assert(self.view().shown[index as int] == p as int);
                assert(entry_views(self.all_entries@)[p as int] == self.all_entries@[p as int]@);
            }
            Some(&self.all_entries[p])
        } else {
            None
        }
    }

    pub fn selected_entry(&self) -> (e: Option<&HistoryEntry>)
        requires
            self.wf(),
        ensures
            match self.view().selected {
                Some(s) => e matches Some(x) && x@ == self.view().all[self.view().shown[s]],
                None => e is None,
            },
    {
        match self.selected {
            Some(index) => self.entry(index),
            None => None,
        }
    }

    pub fn selected_index(&self) -> (s: Option<usize>)
        ensures
            match s {
                Some(i) => self.view().selected == Some(i as int),
                None => self.view().selected is None,
            },
    {
        self.selected
    }

    pub fn status(&self) -> (s: HistoryPanelStatus)
        ensures
            s == self.view().status,
    {
        self.status
    }

    /// The search query.
    pub fn query(&self) -> (q: String)
        ensures
            q@ == self.view().query,
    {
        let mut q = String::new();
        let mut i: usize = 0;
        while i < self.query.len()
            invariant
                i <= self.query@.len(),
                q@ == self.query@.subrange(0, i as int),
            decreases self.query@.len() - i,
        {
            crate::text::push_char(&mut q, self.query[i]);
            assert(q@ =~= self.query@.subrange(0, i + 1));
            i += 1;
        }
        assert(self.query@.subrange(0, self.query@.len() as int) =~= self.query@);
        q
    }

    pub fn confirming_clear(&self) -> (b: bool)
        ensures
            b == self.view().confirm_clear,
    {
        self.confirm_clear
    }

    /// Replaces every entry, keeps the query, and selects the first shown entry.
    pub fn replace_entries(&mut self, entries: Vec<HistoryEntry>)
        requires
            old(self).wf(),
        ensures
            final(self).wf(),
            final(self).view() == reset(
                HistoryPanelView {
                    all: entry_views(entries@),
                    shown: shown_positions(entry_views(entries@), old(self).view().query),
                    ..old(self).view()
                },
            ),
    {
        self.all_entries = entries;
        self.apply_filter();
        self.reset_selection();
    }

    pub fn mark_error(&mut self, code: &'static str)
        requires
            old(self).wf(),
        ensures
            final(self).wf(),
            final(self).view() == (HistoryPanelView {
                status: HistoryPanelStatus::Error(code),
                ..old(self).view()
            }),
    {
        self.status = HistoryPanelStatus::Error(code);
    }

    /// Leaves an error behind: `Ready` with entries shown, `Empty` without.
    pub fn clear_error(&mut self)
        requires
            old(self).wf(),
        ensures
            final(self).wf(),
            final(self).view() == (HistoryPanelView {
                status: if old(self).view().shown.len() == 0 {
                    HistoryPanelStatus::Empty
                } else {
                    HistoryPanelStatus::Ready
                },
                ..old(self).view()
            }),
    {
        self.status = if self.shown.len() == 0 {
            HistoryPanelStatus::Empty
        } else {
            HistoryPanelStatus::Ready
        };
    }

    /// Shows the loading status, only while entries are shown.
    pub fn mark_loading(&mut self)
        requires
            old(self).wf(),
        ensures
            final(self).wf(),
            final(self).view() == (if old(self).view().shown.len() > 0 {
                HistoryPanelView { status: HistoryPanelStatus::Loading, ..old(self).view() }
            } else {
                old(self).view()
            }),
    {
        if self.shown.len() > 0 {
            self.status = HistoryPanelStatus::Loading;
        }
    }

    /// Selects the shown entry at `index` and scrolls it on screen; ignored past the end.
    pub fn select(&mut self, index: usize)
        requires
            old(self).wf(),
        ensures
            final(self).wf(),
            final(self).view() == selected_view(old(self).view(), index as int),
    {
        if index >= self.shown.len() {
            return;
        }
        self.selected = Some(index);
        self.status = HistoryPanelStatus::Ready;
        if index < self.first_visible {
            self.first_visible = index;
        } else if index - self.first_visible >= MAX_VISIBLE_ROWS {
            self.first_visible = index + 1 - MAX_VISIBLE_ROWS;
        }
    }
}

/// The panel once the query became `query`: the shown list follows it, then the first entry
/// is selected.
pub open spec fn with_query(v: HistoryPanelView, query: Seq<char>) -> HistoryPanelView {
    reset(HistoryPanelView { query, shown: shown_positions(v.all, query), ..v })
}

/// What a key does to the panel, and the action it asks of the window.
pub open spec fn key_outcome(v: HistoryPanelView, key: HistoryPanelKey) -> (
    HistoryPanelView,
    Option<HistoryPanelAction>,
) {
    if v.confirm_clear {
        (
            v,
            match key {
                HistoryPanelKey::Enter => Some(HistoryPanelAction::ConfirmClear),
                HistoryPanelKey::Escape => Some(HistoryPanelAction::CancelClear),
                _ => None,
            },
        )
    } else {
        match key {
            HistoryPanelKey::Up => (
                match v.selected {
                    Some(s) => selected_view(
                        v,
                        if s > 0 {
                            s - 1
                        } else {
                            0
                        },
                    ),
                    None => v,
                },
                None,
            ),
            HistoryPanelKey::Down => (
                match v.selected {
                    Some(s) => selected_view(
                        v,
                        if s + 1 < v.shown.len() {
                            s + 1
                        } else {
                            v.shown.len() - 1
                        },
                    ),
                    None => v,
                },
                None,
            ),
            HistoryPanelKey::Enter => (
                v,
                if v.selected is Some {
                    Some(HistoryPanelAction::Reopen)
                } else {
                    None
                },
            ),
            HistoryPanelKey::Edit => (
                v,
                if v.selected is Some {
                    Some(HistoryPanelAction::Edit)
                } else {
                    None
                },
            ),
            HistoryPanelKey::Delete => (
                v,
                if v.selected is Some {
                    Some(HistoryPanelAction::Delete)
                } else {
                    None
                },
            ),
            HistoryPanelKey::Backspace => if v.query.len() > 0 {
                (with_query(v, v.query.drop_last()), None)
            } else {
                (
                    v,
                    if v.selected is Some {
                        Some(HistoryPanelAction::Delete)
                    } else {
                        None
                    },
                )
            },
            HistoryPanelKey::Escape => (v, Some(HistoryPanelAction::Close)),
        }
    }
}

/// Whether a character may be typed into the search field: printable ASCII.
pub open spec fn is_query_char(c: char) -> bool {
    0x20 <= c as u32 && c as u32 <= 0x7e
}

/// Rows on screen: what is shown from the first visible row on, at most `MAX_VISIBLE_ROWS`.
pub open spec fn visible_rows(v: HistoryPanelView) -> int {
    let rest = if v.shown.len() > v.first_visible {
        v.shown.len() - v.first_visible
    } else {
        0
    };
    if rest < MAX_VISIBLE_ROWS {
        rest
    } else {
        MAX_VISIBLE_ROWS as int
    }
}

/// The first of the first `n` rows that contains `p`.
pub open spec fn hit_row(p: PixelPoint, n: int) -> Option<int>
    decreases n,
{
    if n <= 0 {
        None
    } else {
        match hit_row(p, n - 1) {
            Some(r) => Some(r),
            None => if PixelRect::rect(
                LIST_X as int,
                LIST_Y + (n - 1) * (ROW_H + ROW_GAP),
                LIST_W as int,
                ROW_H as int,
            ).spec_contains(p) {
                Some(n - 1)
            } else {
                None
            },
        }
    }
}

/// The action a click at `p` asks for: a shown row, then the buttons that apply.
pub open spec fn click_outcome(v: HistoryPanelView, p: PixelPoint) -> Option<HistoryPanelAction> {
    let button = |x: int| PixelRect::rect(x, BUTTON_Y as int, BUTTON_W as int, BUTTON_H as int);
    match hit_row(p, visible_rows(v)) {
        Some(r) => Some(HistoryPanelAction::Select((v.first_visible + r) as usize)),
        None => if button(492).spec_contains(p) && v.selected is Some {
            Some(HistoryPanelAction::Reopen)
        } else if button(336).spec_contains(p) && v.selected is Some {
            Some(HistoryPanelAction::Edit)
        } else if button(648).spec_contains(p) && v.selected is Some {
            Some(HistoryPanelAction::Delete)
        } else if button(180).spec_contains(p) && v.all.len() > 0 {
            Some(
                if v.confirm_clear {
                    HistoryPanelAction::ConfirmClear
                } else {
                    HistoryPanelAction::RequestClear
                },
            )
        } else if button(24).spec_contains(p) {
            Some(HistoryPanelAction::Close)
        } else {
            None
        },
    }
}

impl HistoryPanel {
    fn set_query(&mut self, query: Vec<char>)
        requires
            old(self).wf(),
            query@.len() <= MAX_QUERY_CHARS,
        ensures
            final(self).wf(),
            final(self).view() == with_query(old(self).view(), query@),
    {
        self.query = query;
        self.apply_filter();
        self.reset_selection();
    }

    /// Handles a key and returns the action it asks for. While a clear waits for
    /// confirmation only Enter (confirm) and Escape (cancel) count.
    pub fn handle_key(&mut self, key: HistoryPanelKey) -> (action: Option<HistoryPanelAction>)
        requires
            old(self).wf(),
        ensures
            final(self).wf(),
            (final(self).view(), action) == key_outcome(old(self).view(), key),
    {
        if self.confirm_clear {
            return match key {
                HistoryPanelKey::Enter => Some(HistoryPanelAction::ConfirmClear),
                HistoryPanelKey::Escape => Some(HistoryPanelAction::CancelClear),
                _ => None,
            };
        }
        match key {
            HistoryPanelKey::Up => {
                if let Some(selected) = self.selected {
                    let target = if selected > 0 {
                        selected - 1
                    } else {
                        0
                    };
                    self.select(target);
                }
                None
            },
            HistoryPanelKey::Down => {
                if let Some(selected) = self.selected {
                    let last = self.shown.len() - 1;
                    let target = if selected < last {
                        selected + 1
                    } else {
                        last
                    };
                    self.select(target);
                }
                None
            },
            HistoryPanelKey::Enter => if self.selected.is_some() {
                Some(HistoryPanelAction::Reopen)
            } else {
                None
            },
            HistoryPanelKey::Edit => if self.selected.is_some() {
                Some(HistoryPanelAction::Edit)
            } else {
                None
            },
            HistoryPanelKey::Delete => if self.selected.is_some() {
                Some(HistoryPanelAction::Delete)
            } else {
                None
            },
            HistoryPanelKey::Backspace => {
                if self.query.len() > 0 {
                    let mut query = self.query.clone();
                    let _ = query.pop();
                    proof {
                        assert(query@ =~= old(self).view().query.drop_last());
                    }
                    self.set_query(query);
                    None
                } else if self.selected.is_some() {
                    Some(HistoryPanelAction::Delete)
                } else {
                    None
                }
            },
            HistoryPanelKey::Escape => Some(HistoryPanelAction::Close),
        }
    }

    /// Types one character into the search field. Refused while a clear waits for
    /// confirmation, once the query holds `MAX_QUERY_CHARS` characters, and for anything but
    /// printable ASCII.
    pub fn input_char(&mut self, character: char) -> (accepted: bool)
        requires
            old(self).wf(),
        ensures
            final(self).wf(),
            accepted == (!old(self).view().confirm_clear && old(self).view().query.len()
                < MAX_QUERY_CHARS && is_query_char(character)),
            accepted ==> final(self).view() == with_query(
                old(self).view(),
                old(self).view().query.push(character),
            ),
            !accepted ==> final(self).view() == old(self).view(),
    {
        if self.confirm_clear || self.query.len() >= MAX_QUERY_CHARS {
            return false;
        }
        let code = character as u32;
        if code < 0x20 || code > 0x7e {
            return false;
        }
        let mut query = self.query.clone();
        query.push(character);
        proof {
            assert(query@ =~= old(self).view().query.push(character));
        }
        self.set_query(query);
        true
    }

    /// Empties the search field; `false` when it was empty already.
    pub fn clear_search(&mut self) -> (changed: bool)
        requires
            old(self).wf(),
        ensures
            final(self).wf(),
            changed == (old(self).view().query.len() > 0),
            changed ==> final(self).view() == with_query(old(self).view(), Seq::empty()),
            !changed ==> final(self).view() == old(self).view(),
    {
        if self.query.len() == 0 {
            return false;
        }
        self.set_query(Vec::new());
        true
    }

    /// Asks for confirmation before clearing, when there is anything to clear.
    pub fn request_clear(&mut self) -> (action: Option<HistoryPanelAction>)
        requires
            old(self).wf(),
        ensures
            final(self).wf(),
            old(self).view().all.len() == 0 ==> action is None && final(self).view() == old(
                self,
            ).view(),
            old(self).view().all.len() > 0 ==> action == Some(HistoryPanelAction::RequestClear)
                && final(self).view() == (HistoryPanelView {
                confirm_clear: true,
                ..old(self).view()
            }),
    {
        if self.all_entries.len() == 0 {
            return None;
        }
        self.confirm_clear = true;
        Some(HistoryPanelAction::RequestClear)
    }

    pub fn cancel_clear(&mut self)
        requires
            old(self).wf(),
        ensures
            final(self).wf(),
            final(self).view() == (HistoryPanelView { confirm_clear: false, ..old(self).view() }),
    {
        self.confirm_clear = false;
    }

    /// `ConfirmClear` only while a clear waits for confirmation.
    pub fn confirm_clear(&self) -> (action: Option<HistoryPanelAction>)
        ensures
            action == (if self.view().confirm_clear {
                Some(HistoryPanelAction::ConfirmClear)
            } else {
                None
            }),
    {
        if self.confirm_clear {
            Some(HistoryPanelAction::ConfirmClear)
        } else {
            None
        }
    }

    /// Number of rows on screen.
    pub fn visible_count(&self) -> (n: usize)
        requires
            self.wf(),
        ensures
            n == visible_rows(self.view()),
    {
        let rest = if self.shown.len() > self.first_visible {
            self.shown.len() - self.first_visible
        } else {
            0
        };
        if rest < MAX_VISIBLE_ROWS {
            rest
        } else {
            MAX_VISIBLE_ROWS
        }
    }

    /// The entry in screen row `row`.
    pub fn visible_entry(&self, row: usize) -> (e: Option<&HistoryEntry>)
        requires
            self.wf(),
        ensures
            ({
                let v = self.view();
                let index = v.first_visible + row;
                &&& index < v.shown.len() ==> (e matches Some(x) && x@ == v.all[v.shown[index]])
                &&& index >= v.shown.len() ==> e is None
            }),
    {
        if row >= self.shown.len() || self.first_visible >= self.shown.len() - row {
            return None;
        }
        self.entry(self.first_visible + row)
    }

    /// The action a click at `point` asks for.
    pub fn hit_test(&self, point: PixelPoint) -> (action: Option<HistoryPanelAction>)
        requires
            self.wf(),
        ensures
            action == click_outcome(self.view(), point),
    {
        let count = self.visible_count();
        let shown_len = self.shown.len();
        let mut row: usize = 0;
        while row < count
            invariant
                count == visible_rows(self.view()),
                shown_len == self.shown@.len(),
                count <= MAX_VISIBLE_ROWS,
                row <= count,
                hit_row(point, row as int) is None,
                self.wf(),
            decreases count - row,
        {
            if row_rect(row).contains_point(point) {
                proof {
                    lemma_hit_row_stays(point, row + 1, count as int);
                }
                return Some(HistoryPanelAction::Select(self.first_visible + row));
            }
            row += 1;
        }
        let selected = self.selected.is_some();
        if reopen_rect().contains_point(point) && selected {
            return Some(HistoryPanelAction::Reopen);
        }
        if edit_rect().contains_point(point) && selected {
            return Some(HistoryPanelAction::Edit);
        }
        if delete_rect().contains_point(point) && selected {
            return Some(HistoryPanelAction::Delete);
        }
        if clear_rect().contains_point(point) && self.all_entries.len() > 0 {
            return Some(
                if self.confirm_clear {
                    HistoryPanelAction::ConfirmClear
                } else {
                    HistoryPanelAction::RequestClear
                },
            );
        }
        if close_rect().contains_point(point) {
            return Some(HistoryPanelAction::Close);
        }
        None
    }
}

/// Once a row is hit, later rows do not change the answer.
proof fn lemma_hit_row_stays(p: PixelPoint, n: int, m: int)
    requires
        1 <= n <= m,
        hit_row(p, n) is Some,
    ensures
        hit_row(p, m) == hit_row(p, n),
    decreases m - n,
{
    if n < m {
        lemma_hit_row_stays(p, n, m - 1);
    }
}

proof fn lemma_matching_positions(all: Seq<HistoryEntryView>, query: Seq<char>, n: int)
    requires
        0 <= n <= all.len(),
    ensures
        ({
            let m = matching_positions(all, query, n);
            &&& forall|k: int| 0 <= k < m.len() ==> 0 <= #[trigger] m[k] < n
            &&& forall|j: int, k: int| 0 <= j < k < m.len() ==> m[j] < m[k]
            &&& forall|i: int| 0 <= i < n ==> (m.contains(i) <==> entry_matches(all[i], query))
        }),
    decreases n,
{
    if n > 0 {
        lemma_matching_positions(all, query, n - 1);
        let prev = matching_positions(all, query, n - 1);
        let m = matching_positions(all, query, n);
        assert forall|i: int| 0 <= i < n implies (m.contains(i) <==> entry_matches(all[i], query)) by {
            if i < n - 1 {
                if m.contains(i) {
                    let k = choose|k: int| 0 <= k < m.len() && m[k] == i;
                    if k < prev.len() {
                        assert(prev[k] == i);
                    }
                }
                if prev.contains(i) {
                    let k = choose|k: int| 0 <= k < prev.len() && prev[k] == i;
                    assert(m[k] == i);
                }
            } else {
                if entry_matches(all[i], query) {
                    assert(m[prev.len() as int] == i);
                } else {
                    if m.contains(i) {
                        let k = choose|k: int| 0 <= k < m.len() && m[k] == i;
                        assert(prev[k] == i);
                    }
                }
            }
        }
    }
}

/// Searching never loses an entry's identity: the shown list holds, in their order, exactly

impl HistoryPanel {
    /// What every panel keeps, in terms of its view (see `panel_ok`): the shown list follows
    /// the query and points into the entries, and the selection lies on screen.
    pub proof fn lemma_well_formed(&self)
        requires
            self.wf(),
        ensures
            panel_ok(self.view()),
            forall|k: int|
                0 <= k < self.view().shown.len() ==> 0 <= #[trigger] self.view().shown[k]
                    < self.view().all.len(),
    {
    }
}

/// A panel has a selection exactly when it shows some entry, and the selected entry is one
/// of the rows on screen, of which there are at most six.
pub proof fn selection_is_on_screen(v: HistoryPanelView)
    requires
        panel_ok(v),
    ensures
        v.selected is Some <==> v.shown.len() > 0,
        v.selected matches Some(s) ==> 0 <= s < v.shown.len() && 0 <= s - v.first_visible
            < visible_rows(v),
        0 <= visible_rows(v) <= MAX_VISIBLE_ROWS,
{
}


/// How one list row is drawn.
#[derive(Debug, Clone, PartialEq, Eq)]
pub struct HistoryRowLook {
    pub rect: PixelRect,
    pub fill: u32,
    /// `IMG <image id>`.
    pub label: String,
    /// `<width> X <height>`.
    pub size: String,
}

/// What the history window draws, apart from its fixed frame and the preview pixels.
#[derive(Debug, Clone, PartialEq, Eq)]
pub struct HistoryPanelLook {
    pub title: &'static str,
    pub query: String,
    /// Whether the empty list shows `NO ITEMS`.
    pub no_items: bool,
    pub rows: Vec<HistoryRowLook>,
    /// The text in the preview area where no preview is shown for a selected entry.
    pub preview_message: Option<&'static str>,
    pub clear_fill: u32,
    pub clear_label: &'static str,
}

pub const ROW_FILL: u32 = 0x00202A36;
pub const SELECTED_ROW_FILL: u32 = 0x002B5270;

pub open spec fn title_text(confirming_clear: bool, status: HistoryPanelStatus) -> Seq<char> {
    if confirming_clear {
        "CLEAR ALL HISTORY?  ENTER CONFIRM  ESC CANCEL"@
    } else {
        match status {
            HistoryPanelStatus::Ready => "HISTORY  ENTER PIN  E EDIT  DELETE REMOVE"@,
            HistoryPanelStatus::Loading => "HISTORY LOADING  ESC CLOSE"@,
            HistoryPanelStatus::Empty => "HISTORY EMPTY  ESC CLOSE"@,
            HistoryPanelStatus::Error(_) => "HISTORY ACTION FAILED  RETRY OR CLOSE"@,
        }
    }
}

/// Whether `look` draws row `row` of `v`, showing entry `e`.
pub open spec fn row_looks(look: HistoryRowLook, v: HistoryPanelView, row: int, e: HistoryEntryView) -> bool {
    &&& look.rect == PixelRect::rect(LIST_X as int, LIST_Y + row * (ROW_H + ROW_GAP), LIST_W as int, ROW_H as int)
    &&& look.fill == (if v.selected == Some(v.first_visible + row) {
        SELECTED_ROW_FILL
    } else {
        ROW_FILL
    })
    &&& look.label@ == "IMG "@ + decimal(e.image_id as nat)
    &&& look.size@ == decimal(e.source_rect.size.width as nat) + " X "@ + decimal(
        e.source_rect.size.height as nat,
    )
}

fn title_for(confirming_clear: bool, status: HistoryPanelStatus) -> (t: &'static str)
    ensures
        t@ == title_text(confirming_clear, status),
{
    if confirming_clear {
        "CLEAR ALL HISTORY?  ENTER CONFIRM  ESC CANCEL"
    } else {
        match status {
            HistoryPanelStatus::Ready => "HISTORY  ENTER PIN  E EDIT  DELETE REMOVE",
            HistoryPanelStatus::Loading => "HISTORY LOADING  ESC CLOSE",
            HistoryPanelStatus::Empty => "HISTORY EMPTY  ESC CLOSE",
            HistoryPanelStatus::Error(_) => "HISTORY ACTION FAILED  RETRY OR CLOSE",
        }
    }
}

fn row_look(row: usize, selected: bool, entry: &HistoryEntry) -> (look: HistoryRowLook)
    requires
        row < MAX_VISIBLE_ROWS,
    ensures
        look.rect == PixelRect::rect(LIST_X as int, LIST_Y + row * (ROW_H + ROW_GAP), LIST_W as int, ROW_H as int),
        look.fill == (if selected { SELECTED_ROW_FILL } else { ROW_FILL }),
        look.label@ == "IMG "@ + decimal(entry@.image_id as nat),
        look.size@ == decimal(entry@.source_rect.size.width as nat) + " X "@ + decimal(
            entry@.source_rect.size.height as nat,
        ),
{
    let mut label = String::new();
    crate::text::push_text(&mut label, "IMG ");
    push_decimal(&mut label, entry.image_id.raw);
    let mut size = String::new();
    push_decimal(&mut size, entry.source_rect.size.width as u64);
    crate::text::push_text(&mut size, " X ");
    push_decimal(&mut size, entry.source_rect.size.height as u64);
    HistoryRowLook {
        rect: row_rect(row),
        fill: if selected {
            SELECTED_ROW_FILL
        } else {
            ROW_FILL
        },
        label,
        size,
    }
}

impl HistoryPanel {
    /// What the window draws for this panel: the title by state, the query, `NO ITEMS` for an
    /// empty list, one row per visible entry (highlighted where selected), `LOADING...` or
    /// `NO PREVIEW` in place of a missing preview of a selected entry, and the clear button
    /// as it reads while confirming or not.
    pub fn look(&self, has_preview: bool) -> (look: HistoryPanelLook)
        requires
            self.wf(),
        ensures
            ({
                let v = self.view();
                &&& look.title@ == title_text(v.confirm_clear, v.status)
                &&& look.query@ == v.query
                &&& look.no_items == (v.shown.len() == 0)
                &&& look.rows@.len() == visible_rows(v)
                &&& forall|row: int|
                    0 <= row < look.rows@.len() ==> row_looks(
                        #[trigger] look.rows@[row],
                        v,
                        row,
                        v.all[v.shown[v.first_visible + row]],
                    )
                &&& look.preview_message == (if !has_preview && v.selected is Some {
                    Some(if v.status == HistoryPanelStatus::Loading {
                        "LOADING..."
                    } else {
                        "NO PREVIEW"
                    })
                } else {
                    None
                })
                &&& look.clear_fill == (if v.confirm_clear { 0x00A65C32u32 } else { 0x006A3D32u32 })
                &&& look.clear_label@ == (if v.confirm_clear { "CONFIRM"@ } else { "CLEAR ALL"@ })
            }),
    {
        let count = self.visible_count();
        let mut rows: Vec<HistoryRowLook> = Vec::new();
        let mut row: usize = 0;
        while row < count
            invariant
                self.wf(),
                count == visible_rows(self.view()),
                count <= MAX_VISIBLE_ROWS,
                row <= count,
                rows@.len() == row,
                forall|r: int|
                    0 <= r < row ==> row_looks(
                        #[trigger] rows@[r],
                        self.view(),
                        r,
                        self.view().all[self.view().shown[self.view().first_visible + r]],
                    ),
            decreases count - row,
        {
            match self.visible_entry(row) {
                Some(entry) => {
                    let selected = match self.selected {
                        Some(s) => s >= self.first_visible && s - self.first_visible == row,
                        None => false,
                    };
                    rows.push(row_look(row, selected, entry));
                },
                None => {
                    assert(false);
                },
            }
            row += 1;
        }
        let preview_message = if !has_preview && self.selected.is_some() {
            Some(
                match self.status {
                    HistoryPanelStatus::Loading => "LOADING...",
                    _ => "NO PREVIEW",
                },
            )
        } else {
            None
        };
        HistoryPanelLook {
            title: title_for(self.confirm_clear, self.status),
            query: self.query(),
            no_items: self.shown.len() == 0,
            rows,
            preview_message,
            clear_fill: if self.confirm_clear {
                0x00A65C32
            } else {
                0x006A3D32
            },
            clear_label: if self.confirm_clear {
                "CONFIRM"
            } else {
                "CLEAR ALL"
            },
        }
    }
}

/// the positions of the entries that match the query.
pub proof fn search_shows_exactly_the_matches(all: Seq<HistoryEntryView>, query: Seq<char>)
    ensures
        ({
            let shown = shown_positions(all, query);
            &&& forall|k: int| 0 <= k < shown.len() ==> 0 <= #[trigger] shown[k] < all.len()
            &&& forall|j: int, k: int| 0 <= j < k < shown.len() ==> shown[j] < shown[k]
            &&& forall|i: int|
                0 <= i < all.len() ==> (shown.contains(i) <==> entry_matches(all[i], query))
        }),
{
    lemma_matching_positions(all, query, all.len() as int);
}

/// Clearing the history needs a confirmation: neither a key nor a click confirms a clear
/// unless one was requested, and while one waits keys change nothing.
pub proof fn clear_needs_confirmation(v: HistoryPanelView, key: HistoryPanelKey, p: PixelPoint)
    ensures
        key_outcome(v, key).1 == Some(HistoryPanelAction::ConfirmClear) ==> v.confirm_clear,
        click_outcome(v, p) == Some(HistoryPanelAction::ConfirmClear) ==> v.confirm_clear,
        v.confirm_clear ==> key_outcome(v, key).0 == v,
{
}

/// Reopening, editing and deleting ask for a selected entry, by key and by click.
pub proof fn entry_actions_need_a_selection(v: HistoryPanelView, key: HistoryPanelKey, p: PixelPoint)
    ensures
        ({
            let a = key_outcome(v, key).1;
            a == Some(HistoryPanelAction::Reopen) || a == Some(HistoryPanelAction::Edit) || a
                == Some(HistoryPanelAction::Delete) ==> v.selected is Some
        }),
        ({
            let a = click_outcome(v, p);
            a == Some(HistoryPanelAction::Reopen) || a == Some(HistoryPanelAction::Edit) || a
                == Some(HistoryPanelAction::Delete) ==> v.selected is Some
        }),
{
}

/// The arrow keys move the selection by one row: Up selects the row above (the first row
/// stays selected), Down the row below (the last row stays selected); the entries, the shown
/// list and the query stay as they were, and the selection stays on screen. Up then Down
/// from any row but the first comes back to it.
pub proof fn arrow_keys_move_one_row(v: HistoryPanelView, s: int)
    requires
        panel_ok(v),
        !v.confirm_clear,
        v.selected == Some(s),
    ensures
        ({
            let up = key_outcome(v, HistoryPanelKey::Up);
            &&& up.0.selected == Some(if s > 0 { s - 1 } else { 0int })
            &&& up.1 is None
            &&& up.0.all == v.all && up.0.shown == v.shown && up.0.query == v.query
            &&& panel_ok(up.0)
        }),
        ({
            let down = key_outcome(v, HistoryPanelKey::Down);
            &&& down.0.selected == Some(if s + 1 < v.shown.len() { s + 1 } else { s })
            &&& down.1 is None
            &&& down.0.all == v.all && down.0.shown == v.shown && down.0.query == v.query
            &&& panel_ok(down.0)
        }),
        s > 0 ==> key_outcome(key_outcome(v, HistoryPanelKey::Up).0, HistoryPanelKey::Down).0.selected
            == Some(s),
{
}

} // verus!
