//! The pager's state machine: the document, how far it is scrolled, and the input
//! modes, driven one input event at a time.
use vstd::prelude::*;
use vstd::string::*;

use crate::document::{join_lines, joined, split_lines, string_views, text_lines};
use crate::man_page_info::{nul_terminated, parse_reference, ManPageInfo};
use crate::man_width::{resized_man_width, saturating_diff, FRAME_MARGIN};
use crate::offsets_cache::OffsetsCache;
use crate::text_handling::{locate, strip_escapes, stripped_of, word_at_position};

verus! {

/// The lines of a text filled to a width, as `textwrap` fills them.
pub uninterp spec fn wrapped_of(text: Seq<char>, width: usize) -> Seq<Seq<char>>;

/// Relies on `textwrap::wrap(text, width)`: the lines of `text` filled to `width`
/// columns; the result depends on the text and the width alone.
#[verifier::external_body]
fn wrap_text(text: &str, width: usize) -> (r: Vec<String>)
    ensures
        string_views(r@) == wrapped_of(text@, width),
{
    textwrap::wrap(text, width).into_iter().map(|l| l.into_owned()).collect()
}

/// Who gets the pointer's clicks.
#[derive(Clone, Copy, Debug, PartialEq, Eq, Structural)]
pub enum MouseMode {
    /// The pager captures the pointer, and a click on a reference follows it.
    LinkClicking,
    /// The terminal keeps the pointer, so that text can be selected and copied.
    TextSelection,
}

impl MouseMode {
    /// The other mode.
    pub open spec fn spec_toggled(self) -> MouseMode {
        match self {
            MouseMode::LinkClicking => MouseMode::TextSelection,
            MouseMode::TextSelection => MouseMode::LinkClicking,
        }
    }

    /// Whether the terminal is to report pointer events to the pager in this mode.
    pub open spec fn spec_captures(self) -> bool {
        self == MouseMode::LinkClicking
    }

    /// Switches to the other mode and returns the capture instruction that the terminal
    /// is to receive: `true` to enable mouse capture, `false` to disable it.
    pub fn toggle(&mut self) -> (r: bool)
        ensures
            *final(self) == old(self).spec_toggled(),
            r == final(self).spec_captures(),
    {
        match *self {
            MouseMode::LinkClicking => {
                *self = MouseMode::TextSelection;
                false
            },
            MouseMode::TextSelection => {
                *self = MouseMode::LinkClicking;
                true
            },
        }
    }

    /// The capture instruction of the current mode, to issue again where something else
    /// may have changed the terminal's state.
    pub fn apply(&self) -> (r: bool)
        ensures
            r == self.spec_captures(),
    {
        match self {
            MouseMode::LinkClicking => true,
            MouseMode::TextSelection => false,
        }
    }
}

/// Toggling the mouse mode twice gives back the mode it started from, and the second
/// toggle issues the capture instruction of that mode.
pub proof fn lemma_toggle_twice(m: MouseMode)
    ensures
        m.spec_toggled().spec_toggled() == m,
        m.spec_toggled().spec_toggled().spec_captures() == m.spec_captures(),
{
}

/// Whether a search query is being typed.
#[derive(Clone, Copy, Debug, PartialEq, Eq, Structural)]
pub enum SearchMode {
    /// Keys drive the pager.
    NoSearch,
    /// Events go to the query being typed, but Enter and Escape.
    TypingQuery,
}

/// The largest scroll offset for `line_count` lines in a viewport of `height` rows; the
/// `+ 2` makes room for the frame's top and bottom borders.
pub open spec fn scroll_bound(line_count: int, height: int) -> int {
    if line_count - height + 2 > 0 {
        line_count - height + 2
    } else {
        0
    }
}

/// `offset` brought within [`scroll_bound`].
pub open spec fn clamp_scroll(offset: int, line_count: int, height: int) -> int {
    if offset <= scroll_bound(line_count, height) {
        offset
    } else {
        scroll_bound(line_count, height)
    }
}

/// After clamping, a scroll offset lies between 0 and the bound.
pub proof fn lemma_clamp_scroll_bounds(offset: int, line_count: int, height: int)
    requires
        offset >= 0,
    ensures
        0 <= clamp_scroll(offset, line_count, height) <= scroll_bound(line_count, height),
        clamp_scroll(offset, line_count, height) == offset <==> offset <= scroll_bound(
            line_count,
            height,
        ),
{
}

/// The offset of the last page: [`scroll_bound`], or the largest `usize` where the
/// bound is larger still.
pub open spec fn bottom_offset(line_count: int, height: int) -> int {
    if scroll_bound(line_count, height) <= usize::MAX {
        scroll_bound(line_count, height)
    } else {
        usize::MAX as int
    }
}

/// [`bottom_offset`] for machine integers.
fn bottom_offset_of(line_count: usize, height: u16) -> (r: usize)
    ensures
        r == bottom_offset(line_count as int, height as int),
{
    let h = height as usize;
    if line_count < h {
        if h - line_count < 2 {
            2 - (h - line_count)
        } else {
            0
        }
    } else if line_count - h > usize::MAX - 2 {
        usize::MAX
    } else {
        line_count - h + 2
    }
}

/// What the pager holds, as mathematical values.
pub ghost struct PagerState {
    /// The document as it was read, formatter escapes included.
    pub content: Seq<char>,
    /// The frame's title.
    pub title: Seq<char>,
    /// The document's lines as shown.
    pub lines: Seq<Seq<char>>,
    /// The lines joined, as handed to the renderer.
    pub processed_content: Seq<char>,
    /// How many lines there are.
    pub line_count: int,
    /// The index of the first line shown.
    pub scroll: int,
    /// The terminal's height at the last frame.
    pub height: int,
    /// Who gets the pointer's clicks.
    pub mouse_mode: MouseMode,
    /// Whether a query is being typed.
    pub search_mode: SearchMode,
}

/// A key, as far as the pager tells keys apart.
#[derive(Clone, Copy, Debug, PartialEq, Eq, Structural)]
pub enum KeyCode {
    /// A character key.
    Char(char),
    /// The up arrow.
    Up,
    /// The down arrow.
    Down,
    /// Enter.
    Enter,
    /// Escape.
    Esc,
    /// Any other key.
    Other,
}

/// The modifier keys held with a key.
#[derive(Clone, Copy, Debug, PartialEq, Eq, Structural)]
pub enum Modifiers {
    /// None.
    Plain,
    /// Shift and nothing else.
    ShiftOnly,
    /// Alt and nothing else.
    AltOnly,
    /// Any other combination.
    Other,
}

/// What the pointer did.
#[derive(Clone, Copy, Debug, PartialEq, Eq, Structural)]
pub enum MouseKind {
    /// The left button was released.
    LeftUp,
    /// The wheel turned up.
    ScrollUp,
    /// The wheel turned down.
    ScrollDown,
    /// Anything else.
    Other,
}

/// An input event.
#[derive(Clone, Copy, Debug, PartialEq, Eq, Structural)]
pub enum PagerEvent {
    /// A key press.
    Key { code: KeyCode, modifiers: Modifiers },
    /// A pointer event at a screen cell, column and row counted from 0.
    Mouse { kind: MouseKind, column: u16, row: u16 },
    /// The terminal took a new size.
    Resize { columns: u16, rows: u16 },
    /// Anything else.
    Other,
}

/// What the loop around the pager is to do after an event.
#[derive(Debug, PartialEq, Eq)]
pub enum Action {
    /// Nothing but to draw the next frame.
    Continue,
    /// End the session.
    Quit,
    /// Enable (`true`) or disable (`false`) mouse capture in the terminal.
    SetMouseCapture(bool),
    /// Hand the event to the query being typed.
    EditSearch,
    /// The search was cancelled: empty the query.
    ClearSearch,
    /// The query was committed. Searching itself is not offered yet.
    RunSearch,
    /// Follow a link: run the formatter on the page whose section and name these are,
    /// each a NUL-terminated argument.
    FollowLink { section: Vec<u8>, name: Vec<u8> },
    /// The terminal's width changed: set the formatter's width to this.
    SetManWidth(u16),
}

/// The action that a click at (`row`, `col`) calls for: following the reference under
/// it, if the word there is one.
pub open spec fn click_action(s: PagerState, row: int, col: int, a: Action) -> bool {
    match locate(s.lines, s.scroll, row, col) {
        Some(w) => match parse_reference(w) {
            Some(reference) => a matches Action::FollowLink { section, name } && section@
                == nul_terminated(reference.1) && name@ == nul_terminated(reference.0),
            None => a == Action::Continue,
        },
        None => a == Action::Continue,
    }
}

/// The state and action after `e` in state `s`, while a query is being typed: Enter
/// commits it, Escape cancels it, and every other event goes to the query.
pub open spec fn search_step(s: PagerState, e: PagerEvent, t: PagerState, a: Action) -> bool {
    match e {
        PagerEvent::Key { code: KeyCode::Enter, .. } => t == (PagerState {
            search_mode: SearchMode::NoSearch,
            ..s
        }) && a == Action::RunSearch,
        PagerEvent::Key { code: KeyCode::Esc, .. } => t == (PagerState {
            search_mode: SearchMode::NoSearch,
            ..s
        }) && a == Action::ClearSearch,
        _ => t == s && a == Action::EditSearch,
    }
}

/// The state after scrolling `s` down by one line; at the last page it stays there.
pub open spec fn scrolled_down(s: PagerState) -> PagerState {
    PagerState {
        scroll: if s.scroll + 1 <= bottom_offset(s.line_count, s.height) {
            s.scroll + 1
        } else {
            bottom_offset(s.line_count, s.height)
        },
        ..s
    }
}

/// The state after scrolling `s` up by one line; at the top it stays there.
pub open spec fn scrolled_up(s: PagerState) -> PagerState {
    PagerState { scroll: if s.scroll > 0 { s.scroll - 1 } else { 0 }, ..s }
}

/// The state and action after the key `code` with `modifiers` in state `s`, while no
/// query is being typed.
pub open spec fn key_step(
    s: PagerState,
    code: KeyCode,
    modifiers: Modifiers,
    t: PagerState,
    a: Action,
) -> bool {
    if code == KeyCode::Char('q') {
        t == s && a == Action::Quit
    } else if code == KeyCode::Down || code == KeyCode::Char('j') {
        t == scrolled_down(s) && a == Action::Continue
    } else if code == KeyCode::Up || code == KeyCode::Char('k') {
        t == scrolled_up(s) && a == Action::Continue
    } else if code == KeyCode::Char('G') || (code == KeyCode::Char('g') && modifiers
        == Modifiers::ShiftOnly) {
        t == (PagerState { scroll: bottom_offset(s.line_count, s.height), ..s }) && a
            == Action::Continue
    } else if code == KeyCode::Char('g') {
        t == (PagerState { scroll: 0, ..s }) && a == Action::Continue
    } else if code == KeyCode::Char('i') && modifiers == Modifiers::AltOnly {
        t == (PagerState { mouse_mode: s.mouse_mode.spec_toggled(), ..s }) && a
            == Action::SetMouseCapture(s.mouse_mode.spec_toggled().spec_captures())
    } else if code == KeyCode::Char('/') {
        t == (PagerState { search_mode: SearchMode::TypingQuery, ..s }) && a
            == Action::Continue
    } else {
        t == s && a == Action::Continue
    }
}

/// The document state after the terminal became `columns` wide: the stripped content
/// filled to that width, with the scroll offset brought within the new bound.
pub open spec fn resized(s: PagerState, columns: u16) -> PagerState {
    let lines = wrapped_of(stripped_of(s.content), columns as usize);
    PagerState {
        lines: lines,
        processed_content: joined(lines),
        line_count: lines.len() as int,
        scroll: clamp_scroll(s.scroll, lines.len() as int, s.height),
        ..s
    }
}

/// Whether a click on `row` falls on the content: below the top border and above the
/// bottom border and the input row.
pub open spec fn in_content_rows(row: int, height: int) -> bool {
    1 <= row <= height - 3
}

/// The state and action after the event `e` in state `s`.
pub open spec fn step(s: PagerState, e: PagerEvent, t: PagerState, a: Action) -> bool {
    if s.search_mode == SearchMode::TypingQuery {
        search_step(s, e, t, a)
    } else {
        match e {
            PagerEvent::Key { code, modifiers } => key_step(s, code, modifiers, t, a),
            PagerEvent::Mouse { kind, column, row } => {
                if kind == MouseKind::LeftUp && in_content_rows(row as int, s.height) {
                    t == s && click_action(s, row as int, column as int, a)
                } else if kind == MouseKind::ScrollDown {
                    t == scrolled_down(s) && a == Action::Continue
                } else if kind == MouseKind::ScrollUp {
                    t == scrolled_up(s) && a == Action::Continue
                } else {
                    t == s && a == Action::Continue
                }
            },
            PagerEvent::Resize { columns, .. } => t == resized(s, columns) && a
                == Action::SetManWidth(saturating_diff(columns as int, FRAME_MARGIN as int) as u16),
            PagerEvent::Other => t == s && a == Action::Continue,
        }
    }
}

/// The pager's state.
pub struct App {
    content: String,
    title: String,
    lines: Vec<String>,
    processed_content: String,
    num_lines: usize,
    scroll: usize,
    height: u16,
    mouse_mode: MouseMode,
    search_mode: SearchMode,
    offsets: OffsetsCache,
}

impl View for App {
    type V = PagerState;

    closed spec fn view(&self) -> PagerState {
        PagerState {
            content: self.content@,
            title: self.title@,
            lines: string_views(self.lines@),
            processed_content: self.processed_content@,
            line_count: self.num_lines as int,
            scroll: self.scroll as int,
            height: self.height as int,
            mouse_mode: self.mouse_mode,
            search_mode: self.search_mode,
        }
    }
}

/// What every pager state satisfies: the line count is the number of lines, the
/// rendered text is the lines joined, and the scroll offset is within its bound.
pub open spec fn state_wf(s: PagerState) -> bool {
    &&& s.line_count == s.lines.len()
    &&& s.processed_content == joined(s.lines)
    &&& 0 <= s.scroll <= scroll_bound(s.line_count, s.height)
    &&& 0 <= s.height <= u16::MAX
}

/// Every state of the pager is well formed: its line count is the number of lines, its
/// rendered text is the lines joined by newlines, and its scroll offset lies between 0
/// and the bound of its line count and height.
pub proof fn lemma_scroll_within_bound(app: &App)
    requires
        app.wf(),
    ensures
        state_wf(app@),
        0 <= app@.scroll <= scroll_bound(app@.line_count, app@.height),
        app@.line_count == app@.lines.len(),
        app@.processed_content == joined(app@.lines),
{
}

/// A resize keeps every state well formed: the new lines are counted and joined again,
/// and the scroll offset stays within the bound of the new line count.
pub proof fn lemma_resize_keeps_state_wf(s: PagerState, columns: u16)
    requires
        state_wf(s),
    ensures
        state_wf(resized(s, columns)),
        resized(s, columns).scroll <= s.scroll,
        resized(s, columns).line_count == wrapped_of(stripped_of(s.content), columns as usize).len(),
{
}

impl App {
    /// The state's invariant, the offsets cache included.
    pub closed spec fn wf(&self) -> bool {
        &&& state_wf(self@)
        &&& self.offsets.wf()
    }

    /// A pager on `content`, the formatted page named `man_page_id`: its lines are those
    /// of the content stripped of ANSI escapes, shown from the top, with clicks following
    /// links and no search under way.
    pub fn new(content: String, man_page_id: &str) -> (r: App)
        ensures
            r.wf(),
            state_wf(r@),
            r@.processed_content == joined(r@.lines),
            r@.line_count == r@.lines.len(),
            r@.content == content@,
            r@.title == "LinkMan - "@ + man_page_id@,
            r@.lines == text_lines(stripped_of(content@)),
            r@.scroll == 0,
            r@.height == 0,
            r@.mouse_mode == MouseMode::LinkClicking,
            r@.search_mode == SearchMode::NoSearch,
    {
        let title = String::from_str("LinkMan - ").concat(man_page_id);
        let stripped = strip_escapes(content.as_str());
        let lines = split_lines(stripped.as_str());
        let processed_content = join_lines(&lines);
        let num_lines = lines.len();
        App {
            content,
            title,
            lines,
            processed_content,
            num_lines,
            scroll: 0,
            height: 0,
            mouse_mode: MouseMode::LinkClicking,
            search_mode: SearchMode::NoSearch,
            offsets: OffsetsCache::new(),
        }
    }

    /// Prepares a frame of `height` rows: records the height and brings the scroll
    /// offset within its bound. Returns the offset to show the content from.
    pub fn render(&mut self, height: u16) -> (r: usize)
        requires
            old(self).wf(),
        ensures
            final(self).wf(),
            state_wf(final(self)@),
            final(self)@ == (PagerState {
                height: height as int,
                scroll: clamp_scroll(old(self)@.scroll, old(self)@.line_count, height as int),
                ..old(self)@
            }),
            r == final(self)@.scroll,
    {
        self.height = height;
        let bound = bottom_offset_of(self.num_lines, height);
        if self.scroll > bound {
            self.scroll = bound;
        }
        self.scroll
    }

    /// Handles one input event: updates the state and says what the loop around the
    /// pager is to do; see [`step`].
    pub fn handle_event(&mut self, event: PagerEvent) -> (r: Action)
        requires
            old(self).wf(),
        ensures
            final(self).wf(),
            state_wf(final(self)@),
            step(old(self)@, event, final(self)@, r),
    {
        if self.search_mode == SearchMode::TypingQuery {
            return match event {
                PagerEvent::Key { code: KeyCode::Enter, .. } => {
                    self.search_mode = SearchMode::NoSearch;
                    Action::RunSearch
                },
                PagerEvent::Key { code: KeyCode::Esc, .. } => {
                    self.search_mode = SearchMode::NoSearch;
                    Action::ClearSearch
                },
                _ => Action::EditSearch,
            };
        }
        match event {
            PagerEvent::Key { code, modifiers } => self.handle_key(code, modifiers),
            PagerEvent::Mouse { kind, column, row } => {
                if kind == MouseKind::LeftUp && 1 <= row && row as u32 + 3 <= self.height as u32 {
                    self.click(row, column)
                } else if kind == MouseKind::ScrollDown {
                    self.scroll_down();
                    Action::Continue
                } else if kind == MouseKind::ScrollUp {
                    self.scroll_up();
                    Action::Continue
                } else {
                    Action::Continue
                }
            },
            PagerEvent::Resize { columns, .. } => {
                self.resize(columns);
                Action::SetManWidth(resized_man_width(columns))
            },
            PagerEvent::Other => Action::Continue,
        }
    }

    fn scroll_down(&mut self)
        requires
            old(self).wf(),
        ensures
            final(self).wf(),
            state_wf(final(self)@),
            final(self)@ == scrolled_down(old(self)@),
            final(self).offsets == old(self).offsets,
    {
        let bottom = bottom_offset_of(self.num_lines, self.height);
        if self.scroll < bottom {
            self.scroll = self.scroll + 1;
        } else {
            self.scroll = bottom;
        }
    }

    fn scroll_up(&mut self)
        requires
            old(self).wf(),
        ensures
            final(self).wf(),
            state_wf(final(self)@),
            final(self)@ == scrolled_up(old(self)@),
            final(self).offsets == old(self).offsets,
    {
        if self.scroll > 0 {
            self.scroll = self.scroll - 1;
        }
    }

    fn handle_key(&mut self, code: KeyCode, modifiers: Modifiers) -> (r: Action)
        requires
            old(self).wf(),
            old(self)@.search_mode == SearchMode::NoSearch,
        ensures
            final(self).wf(),
            state_wf(final(self)@),
            key_step(old(self)@, code, modifiers, final(self)@, r),
    {
        if code == KeyCode::Char('q') {
            Action::Quit
        } else if code == KeyCode::Down || code == KeyCode::Char('j') {
            self.scroll_down();
            Action::Continue
        } else if code == KeyCode::Up || code == KeyCode::Char('k') {
            self.scroll_up();
            Action::Continue
        } else if code == KeyCode::Char('G') || (code == KeyCode::Char('g') && modifiers
            == Modifiers::ShiftOnly) {
            self.scroll = bottom_offset_of(self.num_lines, self.height);
            Action::Continue
        } else if code == KeyCode::Char('g') {
            self.scroll = 0;
            Action::Continue
        } else if code == KeyCode::Char('i') && modifiers == Modifiers::AltOnly {
            Action::SetMouseCapture(self.toggle_mouse_mode())
        } else if code == KeyCode::Char('/') {
            self.search_mode = SearchMode::TypingQuery;
            Action::Continue
        } else {
            Action::Continue
        }
    }

    /// Switches the mouse mode and returns the capture instruction that the terminal is
    /// to receive: `true` to enable mouse capture, `false` to disable it.
    pub fn toggle_mouse_mode(&mut self) -> (r: bool)
        requires
            old(self).wf(),
        ensures
            final(self).wf(),
            state_wf(final(self)@),
            final(self)@ == (PagerState {
                mouse_mode: old(self)@.mouse_mode.spec_toggled(),
                ..old(self)@
            }),
            r == final(self)@.mouse_mode.spec_captures(),
    {
        self.mouse_mode.toggle()
    }

    /// The capture instruction of the current mouse mode, to issue again after a child
    /// pager, which leaves capture enabled, has run.
    pub fn apply_mouse_mode(&self) -> (r: bool)
        ensures
            r == self@.mouse_mode.spec_captures(),
    {
        self.mouse_mode.apply()
    }

    /// What follows a link jump: where the child succeeded, the capture instruction of
    /// the current mode, since the child may have changed the terminal's; else nothing.
    /// The screen is to be cleared either way.
    pub fn after_link_jump(&self, succeeded: bool) -> (r: Option<bool>)
        ensures
            r == if succeeded {
                Some(self@.mouse_mode.spec_captures())
            } else {
                None::<bool>
            },
    {
        if succeeded {
            Some(self.apply_mouse_mode())
        } else {
            None
        }
    }

    fn click(&mut self, row: u16, column: u16) -> (r: Action)
        requires
            old(self).wf(),
        ensures
            final(self).wf(),
            state_wf(final(self)@),
            final(self)@ == old(self)@,
            click_action(old(self)@, row as int, column as int, r),
    {
        let word = word_at_position(
            self.lines.as_slice(),
            self.scroll,
            row as usize,
            column as usize,
            &mut self.offsets,
        );
        match word {
            Some(w) => match ManPageInfo::try_from(w) {
                Ok(info) => {
                    let (section, name) = info.as_args();
                    Action::FollowLink { section, name }
                },
                Err(_) => Action::Continue,
            },
            None => Action::Continue,
        }
    }

    fn resize(&mut self, columns: u16)
        requires
            old(self).wf(),
        ensures
            final(self).wf(),
            state_wf(final(self)@),
            final(self)@ == resized(old(self)@, columns),
    {
        let stripped = strip_escapes(self.content.as_str());
        let lines = wrap_text(stripped.as_str(), columns as usize);
        self.processed_content = join_lines(&lines);
        self.num_lines = lines.len();
        self.lines = lines;
        let bottom = bottom_offset_of(self.num_lines, self.height);
        if self.scroll > bottom {
            self.scroll = bottom;
        }
    }

    /// The frame's title.
    pub fn title(&self) -> (r: &str)
        ensures
            r@ == self@.title,
    {
        self.title.as_str()
    }

    /// The lines joined with newlines, as the renderer shows them.
    pub fn processed_content(&self) -> (r: &str)
        ensures
            r@ == self@.processed_content,
    {
        self.processed_content.as_str()
    }

    /// The document's lines as shown.
    pub fn lines(&self) -> (r: &Vec<String>)
        ensures
            string_views(r@) == self@.lines,
    {
        &self.lines
    }

    /// How many lines the document has.
    pub fn line_count(&self) -> (r: usize)
        ensures
            r == self@.line_count,
    {
        self.num_lines
    }

    /// The index of the first line shown.
    pub fn scroll(&self) -> (r: usize)
        ensures
            r == self@.scroll,
    {
        self.scroll
    }

    /// The terminal's height at the last frame.
    pub fn height(&self) -> (r: u16)
        ensures
            r == self@.height,
    {
        self.height
    }

    /// Who gets the pointer's clicks.
    pub fn mouse_mode(&self) -> (r: MouseMode)
        ensures
            r == self@.mouse_mode,
    {
        self.mouse_mode
    }

    /// Whether a query is being typed.
    pub fn search_mode(&self) -> (r: SearchMode)
        ensures
            r == self@.search_mode,
    {
        self.search_mode
    }
}

} // verus!
