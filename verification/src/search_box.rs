//! A search field with a clear button, a history of searches, a list of
//! suggestions under it, and a debounced change notification.
//!
//! The text field inside the box belongs to the host: events that are the
//! field's to handle are handed back ([`SearchOutcome`]), and the host
//! reports the field's new text with [`SearchBox::input_edited`]. Time is
//! given in milliseconds by the host, and so are the answers of a
//! suggestion provider, if the host has one.

use vstd::prelude::*;
use crate::geometry::{Point, Rect, Size, WidgetId, fits_i32};
use crate::event::{Event, EventResult, Key, MouseButton};
use crate::widget::WidgetState;
use crate::combo_box::{contains_text, occurs_in, to_lowercase, unicode_lowercase};
use crate::text::{chars_of, same_text, string_of};

verus! {

broadcast use vstd::string::group_string_axioms;

/// The most searches the history keeps.
pub const HISTORY_LIMIT: usize = 20;

/// The most suggestions the list shows at once.
pub const MAX_SHOWN_SUGGESTIONS: i32 = 8;

/// The first position from `k` on of `q` in `h`, `-1` if none.
pub open spec fn history_position(h: Seq<Seq<char>>, q: Seq<char>, k: int) -> int
    decreases h.len() - k,
{
    if k < 0 || k >= h.len() {
        -1
    } else if h[k] == q {
        k
    } else {
        history_position(h, q, k + 1)
    }
}

/// The history after searching for `q`: an empty query changes nothing; a
/// query already there moves to the front; a new one goes in front, and
/// the oldest entry goes when there are more than [`HISTORY_LIMIT`].
pub open spec fn history_add(h: Seq<Seq<char>>, q: Seq<char>) -> Seq<Seq<char>> {
    let p = history_position(h, q, 0);
    if q.len() == 0 {
        h
    } else if p >= 0 {
        seq![q] + h.remove(p)
    } else if h.len() + 1 > HISTORY_LIMIT {
        (seq![q] + h).drop_last()
    } else {
        seq![q] + h
    }
}

/// The entries of `h` among the first `k` whose lower case contains the
/// lower case of `text`, in order.
pub open spec fn history_matches(h: Seq<Seq<char>>, text: Seq<char>, k: int) -> Seq<Seq<char>>
    decreases k,
{
    if k <= 0 {
        seq![]
    } else if occurs_in(unicode_lowercase(text), unicode_lowercase(h[k - 1])) {
        history_matches(h, text, k - 1).push(h[k - 1])
    } else {
        history_matches(h, text, k - 1)
    }
}

/// The mathematical state of a [`SearchBox`]. Times are in milliseconds.
pub struct SearchView {
    pub state: WidgetState,
    pub text: Seq<char>,
    pub placeholder: Seq<char>,
    pub history: Seq<Seq<char>>,
    pub show_suggestions: bool,
    pub suggestions: Seq<Seq<char>>,
    pub selected: Option<usize>,
    pub last_change: Option<u64>,
    pub debounce_delay: u64,
    pub clear_hovered: bool,
    pub search_icon_rect: Rect,
    pub clear_button_rect: Rect,
    pub input_rect: Rect,
    pub suggestions_rect: Rect,
}

/// Suggestions for the current text: the history when the text is empty,
/// else what the provider gave, else the history entries that contain the
/// text, ignoring case. None is selected; the list shows when not empty.
pub open spec fn refreshed(v: SearchView, provided: Option<Seq<Seq<char>>>) -> SearchView {
    let s = if v.text.len() == 0 {
        v.history
    } else {
        match provided {
            Some(p) => p,
            None => history_matches(v.history, v.text, v.history.len() as int),
        }
    };
    SearchView { suggestions: s, show_suggestions: s.len() > 0, selected: None, ..v }
}

/// A search for the current text: a non-empty one enters the history; the
/// suggestions close.
pub open spec fn searched(v: SearchView) -> SearchView {
    SearchView { history: history_add(v.history, v.text), show_suggestions: false, ..v }
}

/// Choosing suggestion `i` puts it in the field and searches for it.
pub open spec fn chose(v: SearchView, i: int) -> SearchView {
    searched(SearchView { text: v.suggestions[i], show_suggestions: false, ..v })
}

/// The field emptied, the suggestions closed, the clear button no longer
/// hovered, then the change processed.
pub open spec fn cleared(v: SearchView) -> SearchView {
    refreshed(SearchView {
        text: seq![],
        show_suggestions: false,
        suggestions: seq![],
        selected: None,
        clear_hovered: false,
        ..v
    }, None)
}

/// What the box reports to its host along with its answer: the texts of
/// the change notifications that fired, in order, the text of a search
/// that fired, and whether the text field should take the focus.
pub struct SearchFired {
    pub changes: Vec<String>,
    pub searched: Option<String>,
    pub focus_input: bool,
}

/// The views of what [`SearchFired`] reports.
pub struct FiredView {
    pub changes: Seq<Seq<char>>,
    pub searched: Option<Seq<char>>,
    pub focus_input: bool,
}

pub open spec fn fired_view(f: SearchFired) -> FiredView {
    FiredView {
        changes: f.changes@.map_values(|c: String| c@),
        searched: match f.searched { Some(s) => Some(s@), None => None },
        focus_input: f.focus_input,
    }
}

pub open spec fn nothing_fired() -> FiredView {
    FiredView { changes: seq![], searched: None, focus_input: false }
}

/// How an event ends: answered by the box, or handed to the text field —
/// a press, answered `Consumed` whatever the field does, or an edit, after
/// which the host reports the field's text with
/// [`SearchBox::input_edited`].
#[derive(Clone, Copy, Debug, PartialEq, Eq, Structural)]
pub enum SearchOutcome {
    Done(EventResult),
    PressToInput,
    EditToInput,
}

/// Whether a debounced change is due at `now`.
pub open spec fn change_due(v: SearchView, now: u64) -> bool {
    v.last_change matches Some(t) && (if now >= t { now - t } else { 0 }) >= v.debounce_delay
}

/// The box after the debounce check at `now`: a due change is processed.
pub open spec fn debounced(v: SearchView, now: u64, provided: Option<Seq<Seq<char>>>) -> SearchView {
    if change_due(v, now) { refreshed(SearchView { last_change: None, ..v }, provided) } else { v }
}

/// Height of one suggestion row for the font size `font`.
pub open spec fn suggestion_row(font: int) -> int {
    font + 8
}

/// The suggestion list as it stands: under the box, as wide, as high as
/// the rows shown (at most [`MAX_SHOWN_SUGGESTIONS`]).
pub open spec fn suggestions_area(v: SearchView, font: int) -> Rect {
    let b = v.state.bounds;
    let shown = if v.suggestions.len() < 8 { v.suggestions.len() as int } else { 8 };
    Rect { x: b.x, y: (b.y + b.height + 2) as i32, width: b.width, height: (shown * suggestion_row(font)) as i32 }
}

/// The suggestion under `p`, by rows of the list; may lie past the end.
pub open spec fn suggestion_index(v: SearchView, font: int, p: Point) -> int {
    let r = suggestions_area(v, font);
    let h = suggestion_row(font);
    (p.y - r.y) / (if h > 1 { h } else { 1 })
}

/// A left press at `p`.
pub open spec fn press_spec(v: SearchView, font: int, p: Point) -> (SearchView, SearchOutcome, FiredView) {
    let area = suggestions_area(v, font);
    if v.state.bounds.contains_spec(p) {
        let v1 = SearchView { state: WidgetState { focused: true, ..v.state }, ..v };
        if v.clear_button_rect.contains_spec(p) && v.text.len() > 0 {
            (cleared(v1), SearchOutcome::Done(EventResult::Consumed), FiredView { changes: seq![seq![]], searched: None, focus_input: true })
        } else {
            (v1, SearchOutcome::PressToInput, nothing_fired())
        }
    } else if area.contains_spec(p) && v.show_suggestions {
        let i = suggestion_index(v, font, p);
        if i < v.suggestions.len() {
            let v2 = chose(v, i);
            (v2, SearchOutcome::Done(EventResult::Consumed), FiredView { changes: seq![], searched: Some(v2.text), focus_input: false })
        } else {
            (v, SearchOutcome::Done(EventResult::Consumed), nothing_fired())
        }
    } else {
        (
            SearchView {
                state: WidgetState { focused: false, ..v.state },
                show_suggestions: false,
                selected: None,
                clear_hovered: false,
                ..v
            },
            SearchOutcome::Done(EventResult::Consumed),
            nothing_fired(),
        )
    }
}

/// A pointer move to `p`: tracks the clear button's hover, and the hovered
/// suggestion while the list shows.
pub open spec fn move_spec(v: SearchView, font: int, p: Point) -> (SearchView, SearchOutcome) {
    let area = suggestions_area(v, font);
    let v1 = SearchView { clear_hovered: v.clear_button_rect.contains_spec(p), ..v };
    if v.show_suggestions && area.contains_spec(p) {
        let i = suggestion_index(v, font, p);
        (
            if i < v.suggestions.len() { SearchView { selected: Some(i as usize), ..v1 } } else { v1 },
            SearchOutcome::Done(EventResult::Consumed),
        )
    } else if v.show_suggestions {
        (SearchView { selected: None, ..v1 }, SearchOutcome::Done(EventResult::Ignored))
    } else {
        (v1, SearchOutcome::Done(EventResult::Ignored))
    }
}

/// A key press while focused: Enter chooses the selected suggestion or
/// searches; Escape closes the list; Up and Down move round the shown
/// suggestions (and are consumed anyway); other keys are the field's.
pub open spec fn key_spec(v: SearchView, k: Key) -> (SearchView, SearchOutcome, FiredView) {
    let n = v.suggestions.len() as int;
    let consumed = SearchOutcome::Done(EventResult::Consumed);
    match k {
        Key::Enter => match v.selected {
            Some(i) => if i < n {
                let v2 = chose(v, i as int);
                (v2, consumed, FiredView { changes: seq![], searched: Some(v2.text), focus_input: false })
            } else {
                (v, consumed, nothing_fired())
            },
            None => {
                let v2 = searched(v);
                (v2, consumed, FiredView { changes: seq![], searched: Some(v.text), focus_input: false })
            },
        },
        Key::Escape => (SearchView { show_suggestions: false, selected: None, ..v }, consumed, nothing_fired()),
        Key::Up => if v.show_suggestions && n > 0 {
            let i: int = match v.selected { Some(i) => if i > 0 { i - 1 } else { n - 1 }, None => n - 1 };
            (SearchView { selected: Some(i as usize), ..v }, consumed, nothing_fired())
        } else {
            (v, consumed, nothing_fired())
        },
        Key::Down => if v.show_suggestions && n > 0 {
            let i: int = match v.selected { Some(i) => (i + 1) % n, None => 0 };
            (SearchView { selected: Some(i as usize), ..v }, consumed, nothing_fired())
        } else {
            (v, consumed, nothing_fired())
        },
        _ => (v, SearchOutcome::EditToInput, nothing_fired()),
    }
}

/// What the box does with an event at time `now`, `font` being the theme's
/// base font size and `provided` the provider's suggestions for the current
/// text (if the host has a provider): first a due change is processed
/// (and reported), then the event.
pub open spec fn search_event(
    v: SearchView,
    e: Event,
    font: int,
    now: u64,
    provided: Option<Seq<Seq<char>>>,
) -> (SearchView, SearchOutcome, FiredView) {
    if !v.state.enabled || !v.state.visible {
        (v, SearchOutcome::Done(EventResult::Ignored), nothing_fired())
    } else {
        let due = change_due(v, now);
        let v0 = debounced(v, now, provided);
        let first: Seq<Seq<char>> = if due { seq![v.text] } else { seq![] };
        let (v2, out, f) = match e {
            Event::MouseButton(mb) => if mb.button == MouseButton::Left && mb.pressed {
                press_spec(v0, font, mb.position)
            } else {
                (v0, SearchOutcome::EditToInput, nothing_fired())
            },
            Event::MouseMove(mm) => {
                let (v2, out) = move_spec(v0, font, mm.position);
                (v2, out, nothing_fired())
            },
            Event::KeyPress(k) => if !v0.state.focused {
                (v0, SearchOutcome::Done(EventResult::Ignored), nothing_fired())
            } else {
                key_spec(v0, k.key)
            },
            _ => (v0, SearchOutcome::EditToInput, nothing_fired()),
        };
        (v2, out, FiredView { changes: first + f.changes, ..f })
    }
}

/// The box after its text field reported `text` at `now`: a new text is
/// taken, the debounce timer restarts and the suggestions follow it.
pub open spec fn edited(v: SearchView, text: Seq<char>, now: u64, provided: Option<Seq<Seq<char>>>) -> SearchView {
    if text == v.text {
        v
    } else {
        refreshed(SearchView { text, last_change: Some(now), ..v }, provided)
    }
}

/// The box's layout in `rect`: a 20-pixel search icon on the left and
/// clear button on the right, 8 pixels in, the text field between them,
/// and the suggestion list under the box.
pub open spec fn laid_out(v: SearchView, rect: Rect, font: int) -> SearchView {
    let cy = rect.y + crate::geometry::trunc_div(rect.height - 20, 2);
    let shown = if v.suggestions.len() < 8 { v.suggestions.len() as int } else { 8 };
    SearchView {
        state: WidgetState { bounds: rect, ..v.state },
        search_icon_rect: Rect { x: (rect.x + 8) as i32, y: cy as i32, width: 20, height: 20 },
        clear_button_rect: Rect { x: (rect.x + rect.width - 28) as i32, y: cy as i32, width: 20, height: 20 },
        input_rect: Rect { x: (rect.x + 36) as i32, y: rect.y, width: (rect.width - 72) as i32, height: rect.height },
        suggestions_rect: Rect {
            x: rect.x,
            y: (rect.y + rect.height + 2) as i32,
            width: rect.width,
            height: (shown * suggestion_row(font)) as i32,
        },
        ..v
    }
}

/// Everything [`laid_out`] computes is an `i32`.
pub open spec fn layout_ok(rect: Rect, font: int) -> bool {
    &&& fits_i32(rect.x + rect.width)
    &&& fits_i32(rect.y + rect.height)
    &&& fits_i32(rect.y + rect.height + 2)
    &&& fits_i32(rect.x + 36)
    &&& fits_i32(rect.x + rect.width - 28)
    &&& fits_i32(rect.width - 72)
    &&& fits_i32(rect.height - 20)
    &&& fits_i32(rect.y + crate::geometry::trunc_div(rect.height - 20, 2))
    &&& fits_i32(font + 8)
    &&& fits_i32(8 * (font + 8))
    &&& fits_i32(-8 * (font + 8))
}

/// What answering an event needs to be representable.
pub open spec fn search_event_ok(v: SearchView, font: int) -> bool {
    &&& fits_i32(v.state.bounds.y + v.state.bounds.height)
    &&& fits_i32(v.state.bounds.y + v.state.bounds.height + 2)
    &&& fits_i32(font + 8)
    &&& fits_i32(8 * (font + 8))
    &&& fits_i32(-8 * (font + 8))
}

/// The box's invariant: the history holds at most [`HISTORY_LIMIT`]
/// searches and no query twice, and a selected suggestion exists.
pub open spec fn search_wf(v: SearchView) -> bool {
    &&& v.history.len() <= HISTORY_LIMIT
    &&& forall|i: int, j: int| 0 <= i < j < v.history.len() ==> v.history[i] != v.history[j]
    &&& forall|i: int| 0 <= i < v.history.len() ==> (#[trigger] v.history[i]).len() > 0
    &&& (v.selected matches Some(i) ==> i < v.suggestions.len())
}


pub open spec fn texts(v: Seq<String>) -> Seq<Seq<char>> {
    v.map_values(|s: String| s@)
}

pub open spec fn provided_view(p: Option<Vec<String>>) -> Option<Seq<Seq<char>>> {
    match p {
        Some(v) => Some(texts(v@)),
        None => None,
    }
}

fn copy_strings(v: &Vec<String>) -> (r: Vec<String>)
    ensures
        texts(r@) == texts(v@),
{
    let mut r: Vec<String> = Vec::new();
    let mut i: usize = 0;
    while i < v.len()
        invariant
            i <= v@.len(),
            r@ == v@.take(i as int),
        decreases v@.len() - i,
    {
        r.push(v[i].clone());
        i = i + 1;
        assert(r@ =~= v@.take(i as int));
    }
    assert(v@.take(v@.len() as int) =~= v@);
    r
}

/// A search field with history and suggestions.
pub struct SearchBox {
    state: WidgetState,
    text: String,
    placeholder: String,
    search_history: Vec<String>,
    show_suggestions: bool,
    suggestions: Vec<String>,
    selected_suggestion: Option<usize>,
    last_change: Option<u64>,
    debounce_delay: u64,
    clear_button_hovered: bool,
    search_icon_rect: Rect,
    clear_button_rect: Rect,
    input_rect: Rect,
    suggestions_rect: Rect,
}

impl SearchBox {
    pub closed spec fn view(&self) -> SearchView {
        SearchView {
            state: self.state,
            text: self.text@,
            placeholder: self.placeholder@,
            history: texts(self.search_history@),
            show_suggestions: self.show_suggestions,
            suggestions: texts(self.suggestions@),
            selected: self.selected_suggestion,
            last_change: self.last_change,
            debounce_delay: self.debounce_delay,
            clear_hovered: self.clear_button_hovered,
            search_icon_rect: self.search_icon_rect,
            clear_button_rect: self.clear_button_rect,
            input_rect: self.input_rect,
            suggestions_rect: self.suggestions_rect,
        }
    }

    /// An empty box with the placeholder "Search..." and a 300 ms debounce.
    pub fn new(id: WidgetId) -> (b: SearchBox)
        ensures
            search_wf(b.view()),
            b.view() == (SearchView {
                state: WidgetState::new_spec(id),
                text: seq![],
                placeholder: "Search..."@,
                history: seq![],
                show_suggestions: false,
                suggestions: seq![],
                selected: None,
                last_change: None,
                debounce_delay: 300,
                clear_hovered: false,
                search_icon_rect: Rect { x: 0, y: 0, width: 0, height: 0 },
                clear_button_rect: Rect { x: 0, y: 0, width: 0, height: 0 },
                input_rect: Rect { x: 0, y: 0, width: 0, height: 0 },
                suggestions_rect: Rect { x: 0, y: 0, width: 0, height: 0 },
            }),
    {
        let b = SearchBox {
            state: WidgetState::new(id),
            text: String::new(),
            placeholder: "Search...".to_string(),
            search_history: Vec::new(),
            show_suggestions: false,
            suggestions: Vec::new(),
            selected_suggestion: None,
            last_change: None,
            debounce_delay: 300,
            clear_button_hovered: false,
            search_icon_rect: Rect::empty(),
            clear_button_rect: Rect::empty(),
            input_rect: Rect::empty(),
            suggestions_rect: Rect::empty(),
        };
        assert(b.view().history =~= Seq::<Seq<char>>::empty());
        assert(b.view().suggestions =~= Seq::<Seq<char>>::empty());
        b
    }

    pub fn with_placeholder(self, placeholder: &str) -> (b: SearchBox)
        ensures
            b.view() == (SearchView { placeholder: placeholder@, ..self.view() }),
    {
        SearchBox { placeholder: placeholder.to_string(), ..self }
    }

    pub fn with_debounce_delay(self, millis: u64) -> (b: SearchBox)
        ensures
            b.view() == (SearchView { debounce_delay: millis, ..self.view() }),
    {
        SearchBox { debounce_delay: millis, ..self }
    }

    /// The text of the field.
    pub fn get_text(&self) -> (t: String)
        ensures
            t@ == self.view().text,
    {
        self.text.clone()
    }

    /// Whether a change is waiting for its debounce delay to pass.
    pub fn has_pending_change(&self) -> (b: bool)
        ensures
            b == self.view().last_change is Some,
    {
        self.last_change.is_some()
    }

    pub fn suggestion_count(&self) -> (n: usize)
        ensures
            n == self.view().suggestions.len(),
    {
        self.suggestions.len()
    }

    pub fn selected_suggestion(&self) -> (r: Option<usize>)
        ensures
            r == self.view().selected,
    {
        self.selected_suggestion
    }

    pub fn is_showing_suggestions(&self) -> (b: bool)
        ensures
            b == self.view().show_suggestions,
    {
        self.show_suggestions
    }

    pub fn is_clear_button_hovered(&self) -> (b: bool)
        ensures
            b == self.view().clear_hovered,
    {
        self.clear_button_hovered
    }

    /// The searches remembered, most recent first.
    pub fn history_snapshot(&self) -> (h: Vec<String>)
        ensures
            texts(h@) == self.view().history,
    {
        copy_strings(&self.search_history)
    }

    /// The suggestions listed.
    pub fn suggestions_snapshot(&self) -> (s: Vec<String>)
        ensures
            texts(s@) == self.view().suggestions,
    {
        copy_strings(&self.suggestions)
    }

    /// Where the host lays out the text field.
    pub fn input_rect(&self) -> (r: Rect)
        ensures
            r == self.view().input_rect,
    {
        self.input_rect
    }

    pub fn clear_button_rect(&self) -> (r: Rect)
        ensures
            r == self.view().clear_button_rect,
    {
        self.clear_button_rect
    }

    /// Remembers `query` as the latest search; see [`history_add`].
    pub fn add_to_history(&mut self, query: String)
        requires
            search_wf(old(self).view()),
        ensures
            search_wf(final(self).view()),
            final(self).view() == (SearchView {
                history: history_add(old(self).view().history, query@),
                ..old(self).view()
            }),
    {
        let ghost v = self.view();
        let ghost h = v.history;
        if query.as_str().unicode_len() == 0 {
            return;
        }
        proof {
            lemma_history_add(h, query@);
        }
        let mut i: usize = 0;
        while i < self.search_history.len()
            invariant
                v == self.view(),
                v == old(self).view(),
                search_wf(v),
                h == v.history,
                h == texts(self.search_history@),
                query@.len() > 0,
                i <= h.len(),
                history_position(h, query@, 0) == history_position(h, query@, i as int),
            decreases h.len() - i,
        {
            assert(h[i as int] == self.search_history@[i as int]@);
            if self.search_history[i] == query {
                proof {
                    lemma_history_add(h, query@);
                }
                if i != 0 {
                    let existing = self.search_history.remove(i);
                    self.search_history.insert(0, existing);
                    assert(texts(self.search_history@) =~= seq![query@] + h.remove(i as int));
                } else {
                    assert(seq![query@] + h.remove(0) =~= h);
                }
                return;
            }
            i = i + 1;
        }
        proof {
            lemma_history_add(h, query@);
        }
        self.search_history.insert(0, query);
        assert(texts(self.search_history@) =~= seq![query@] + h);
        if self.search_history.len() > HISTORY_LIMIT {
            self.search_history.pop();
            assert(texts(self.search_history@) =~= (seq![query@] + h).drop_last());
        }
    }

    fn refresh_suggestions(&mut self, provided: Option<Vec<String>>)
        requires
            search_wf(old(self).view()),
        ensures
            search_wf(final(self).view()),
            final(self).view() == refreshed(old(self).view(), provided_view(provided)),
    {
        let ghost v = self.view();
        if self.text.as_str().unicode_len() == 0 {
            self.suggestions = copy_strings(&self.search_history);
        } else {
            match provided {
                Some(p) => {
                    self.suggestions = p;
                },
                None => {
                    let ghost h = v.history;
                    let lower_text = to_lowercase(self.text.as_str());
                    let mut found: Vec<String> = Vec::new();
                    let mut i: usize = 0;
                    while i < self.search_history.len()
                        invariant
                            v == self.view(),
                            h == v.history,
                            h == texts(self.search_history@),
                            lower_text@ == unicode_lowercase(v.text),
                            i <= h.len(),
                            texts(found@) == history_matches(h, v.text, i as int),
                        decreases h.len() - i,
                    {
                        assert(h[i as int] == self.search_history@[i as int]@);
                        let lower = to_lowercase(self.search_history[i].as_str());
                        if contains_text(lower.as_str(), lower_text.as_str()) {
                            found.push(self.search_history[i].clone());
                            assert(texts(found@) =~= history_matches(h, v.text, i as int).push(h[i as int]));
                        }
                        i = i + 1;
                    }
                    self.suggestions = found;
                }
            }
        }
        self.show_suggestions = self.suggestions.len() > 0;
        self.selected_suggestion = None;
    }

    fn trigger_change(&mut self, provided: Option<Vec<String>>) -> (t: String)
        requires
            search_wf(old(self).view()),
        ensures
            search_wf(final(self).view()),
            final(self).view() == refreshed(old(self).view(), provided_view(provided)),
            t@ == old(self).view().text,
    {
        self.refresh_suggestions(provided);
        self.text.clone()
    }

    fn trigger_search(&mut self) -> (t: String)
        requires
            search_wf(old(self).view()),
        ensures
            search_wf(final(self).view()),
            final(self).view() == searched(old(self).view()),
            t@ == old(self).view().text,
    {
        let text = self.text.clone();
        if text.as_str().unicode_len() > 0 {
            self.add_to_history(text.clone());
        } else {
            assert(history_add(self.view().history, text@) == self.view().history);
        }
        self.show_suggestions = false;
        text
    }

    fn select_suggestion(&mut self, index: usize) -> (t: Option<String>)
        requires
            search_wf(old(self).view()),
        ensures
            search_wf(final(self).view()),
            index < old(self).view().suggestions.len() ==> {
                &&& final(self).view() == chose(old(self).view(), index as int)
                &&& (t matches Some(s) && s@ == old(self).view().suggestions[index as int])
            },
            index >= old(self).view().suggestions.len() ==> final(self).view() == old(self).view() && t is None,
    {
        if index < self.suggestions.len() {
            let suggestion = self.suggestions[index].clone();
            self.text = suggestion;
            self.show_suggestions = false;
            Some(self.trigger_search())
        } else {
            None
        }
    }

    /// Sets the text and processes the change (the change notification
    /// fires with the new text, returned).
    pub fn set_text(&mut self, text: &str, provided: Option<Vec<String>>) -> (changed: String)
        requires
            search_wf(old(self).view()),
        ensures
            search_wf(final(self).view()),
            final(self).view() == refreshed(SearchView { text: text@, ..old(self).view() }, provided_view(provided)),
            changed@ == text@,
    {
        self.text = text.to_string();
        self.trigger_change(provided)
    }

    /// Empties the field and closes the suggestions, then processes the
    /// change (whose notification fires with the empty text, returned).
    pub fn clear(&mut self) -> (changed: String)
        requires
            search_wf(old(self).view()),
        ensures
            search_wf(final(self).view()),
            final(self).view() == cleared(old(self).view()),
            changed@ == Seq::<char>::empty(),
    {
        self.text = String::new();
        self.show_suggestions = false;
        self.suggestions = Vec::new();
        self.selected_suggestion = None;
        self.clear_button_hovered = false;
        assert(self.view().suggestions =~= Seq::<Seq<char>>::empty());
        self.trigger_change(None)
    }

    /// Processes a change whose debounce delay has passed at `now`; returns
    /// the text of the change notification, if one fired.
    pub fn poll_debounce(&mut self, now: u64, provided: Option<Vec<String>>) -> (changed: Option<String>)
        requires
            search_wf(old(self).view()),
        ensures
            search_wf(final(self).view()),
            final(self).view() == debounced(old(self).view(), now, provided_view(provided)),
            change_due(old(self).view(), now) ==> (changed matches Some(t) && t@ == old(self).view().text),
            !change_due(old(self).view(), now) ==> changed is None,
    {
        if self.change_is_due(now) {
            self.last_change = None;
            Some(self.trigger_change(provided))
        } else {
            None
        }
    }

    fn change_is_due(&self, now: u64) -> (b: bool)
        ensures
            b == change_due(self.view(), now),
    {
        match self.last_change {
            Some(t) => now.saturating_sub(t) >= self.debounce_delay,
            None => false,
        }
    }

    fn current_suggestions_rect(&self, font_size_base: i32) -> (r: Rect)
        requires
            search_event_ok(self.view(), font_size_base as int),
        ensures
            r == suggestions_area(self.view(), font_size_base as int),
    {
        let item_height = font_size_base + 8;
        let shown: i32 = if self.suggestions.len() < 8 { self.suggestions.len() as i32 } else { 8 };
        assert(-8 * (font_size_base + 8) <= shown * item_height <= 8 * (font_size_base + 8)
            || 8 * (font_size_base + 8) <= shown * item_height <= -8 * (font_size_base + 8)) by (nonlinear_arith)
            requires
                0 <= shown <= 8,
                item_height == font_size_base + 8,
        ;
        Rect::new(
            self.state.bounds.x,
            self.state.bounds.y + self.state.bounds.height + 2,
            self.state.bounds.width,
            shown * item_height,
        )
    }
}

proof fn lemma_history_position(h: Seq<Seq<char>>, q: Seq<char>, k: int)
    requires
        0 <= k,
    ensures
        history_position(h, q, k) == -1 ==> forall|j: int| k <= j < h.len() ==> h[j] != q,
        history_position(h, q, k) != -1 ==> k <= history_position(h, q, k) < h.len() && h[history_position(h, q, k)] == q,
    decreases h.len() - k,
{
    if k < h.len() && h[k] != q {
        lemma_history_position(h, q, k + 1);
    }
}

proof fn lemma_history_add(h: Seq<Seq<char>>, q: Seq<char>)
    requires
        h.len() <= HISTORY_LIMIT,
        forall|i: int, j: int| 0 <= i < j < h.len() ==> h[i] != h[j],
        forall|i: int| 0 <= i < h.len() ==> (#[trigger] h[i]).len() > 0,
    ensures
        ({
            let r = history_add(h, q);
            &&& r.len() <= HISTORY_LIMIT
            &&& forall|i: int, j: int| 0 <= i < j < r.len() ==> r[i] != r[j]
            &&& forall|i: int| 0 <= i < r.len() ==> (#[trigger] r[i]).len() > 0
            &&& q.len() > 0 ==> r.len() > 0 && r[0] == q
        }),
{
    lemma_history_position(h, q, 0);
    let p = history_position(h, q, 0);
    let r = history_add(h, q);
    if q.len() > 0 {
        if p >= 0 {
            let t = h.remove(p);
            assert forall|i: int| 0 <= i < t.len() implies t[i] != q && (#[trigger] t[i]).len() > 0 by {
                if i < p {
                    assert(t[i] == h[i]);
                } else {
                    assert(t[i] == h[i + 1]);
                }
            }
            assert forall|i: int, j: int| 0 <= i < j < t.len() implies t[i] != t[j] by {
                let a = if i < p { i } else { i + 1 };
                let b = if j < p { j } else { j + 1 };
                assert(t[i] == h[a] && t[j] == h[b]);
            }
            assert forall|i: int, j: int| 0 <= i < j < r.len() implies r[i] != r[j] by {
                if i == 0 {
                    assert(r[j] == t[j - 1]);
                } else {
                    assert(r[i] == t[i - 1] && r[j] == t[j - 1]);
                }
            }
            assert forall|i: int| 0 <= i < r.len() implies (#[trigger] r[i]).len() > 0 by {
                if i > 0 {
                    assert(r[i] == t[i - 1]);
                }
            }
        } else {
            let t = seq![q] + h;
            assert forall|i: int, j: int| 0 <= i < j < t.len() implies t[i] != t[j] by {
                if i == 0 {
                    assert(t[j] == h[j - 1]);
                } else {
                    assert(t[i] == h[i - 1] && t[j] == h[j - 1]);
                }
            }
            assert forall|i: int| 0 <= i < t.len() implies (#[trigger] t[i]).len() > 0 by {
                if i > 0 {
                    assert(t[i] == h[i - 1]);
                }
            }
            if h.len() + 1 > HISTORY_LIMIT {
                assert forall|i: int, j: int| 0 <= i < j < r.len() implies r[i] != r[j] by {
                    assert(r[i] == t[i] && r[j] == t[j]);
                }
                assert forall|i: int| 0 <= i < r.len() implies (#[trigger] r[i]).len() > 0 by {
                    assert(r[i] == t[i]);
                }
            }
        }
    }
}


impl SearchBox {
    fn handle_press(&mut self, font_size_base: i32, position: Point, changes: Vec<String>) -> (r: (SearchOutcome, SearchFired))
        requires
            search_wf(old(self).view()),
            search_event_ok(old(self).view(), font_size_base as int),
        ensures
            search_wf(final(self).view()),
            final(self).view() == press_spec(old(self).view(), font_size_base as int, position).0,
            r.0 == press_spec(old(self).view(), font_size_base as int, position).1,
            fired_view(r.1) == (FiredView {
                changes: texts(changes@) + press_spec(old(self).view(), font_size_base as int, position).2.changes,
                ..press_spec(old(self).view(), font_size_base as int, position).2
            }),
    {
        let ghost v = self.view();
        let area = self.current_suggestions_rect(font_size_base);
        let mut changes = changes;
        let ghost c0 = changes@;
        if self.state.bounds.contains(position) {
            self.state.focused = true;
            if self.clear_button_rect.contains(position) && self.text.as_str().unicode_len() > 0 {
                let c = self.clear();
                changes.push(c);
                assert(texts(changes@) =~= texts(c0) + seq![Seq::<char>::empty()]);
                return (SearchOutcome::Done(EventResult::Consumed), SearchFired { changes, searched: None, focus_input: true });
            }
            assert(texts(changes@) =~= texts(c0) + Seq::<Seq<char>>::empty());
            return (SearchOutcome::PressToInput, SearchFired { changes, searched: None, focus_input: false });
        }
        assert(texts(changes@) =~= texts(c0) + Seq::<Seq<char>>::empty());
        if area.contains(position) && self.show_suggestions {
            let item_height = font_size_base + 8;
            let raw = position.y - area.y;
            let index = raw / (if item_height > 1 { item_height } else { 1 });
            if (index as usize) < self.suggestions.len() {
                let searched = self.select_suggestion(index as usize);
                return (SearchOutcome::Done(EventResult::Consumed), SearchFired { changes, searched, focus_input: false });
            }
            return (SearchOutcome::Done(EventResult::Consumed), SearchFired { changes, searched: None, focus_input: false });
        }
        self.state.focused = false;
        self.show_suggestions = false;
        self.selected_suggestion = None;
        self.clear_button_hovered = false;
        (SearchOutcome::Done(EventResult::Consumed), SearchFired { changes, searched: None, focus_input: false })
    }

    fn handle_move(&mut self, font_size_base: i32, position: Point) -> (r: SearchOutcome)
        requires
            search_wf(old(self).view()),
            search_event_ok(old(self).view(), font_size_base as int),
        ensures
            search_wf(final(self).view()),
            final(self).view() == move_spec(old(self).view(), font_size_base as int, position).0,
            r == move_spec(old(self).view(), font_size_base as int, position).1,
    {
        let area = self.current_suggestions_rect(font_size_base);
        self.clear_button_hovered = self.clear_button_rect.contains(position);
        if self.show_suggestions && area.contains(position) {
            let item_height = font_size_base + 8;
            let raw = position.y - area.y;
            let index = raw / (if item_height > 1 { item_height } else { 1 });
            if (index as usize) < self.suggestions.len() {
                self.selected_suggestion = Some(index as usize);
            }
            return SearchOutcome::Done(EventResult::Consumed);
        }
        if self.show_suggestions {
            self.selected_suggestion = None;
        }
        SearchOutcome::Done(EventResult::Ignored)
    }

    fn handle_key(&mut self, key: Key, changes: Vec<String>) -> (r: (SearchOutcome, SearchFired))
        requires
            search_wf(old(self).view()),
        ensures
            search_wf(final(self).view()),
            final(self).view() == key_spec(old(self).view(), key).0,
            r.0 == key_spec(old(self).view(), key).1,
            fired_view(r.1) == (FiredView {
                changes: texts(changes@) + key_spec(old(self).view(), key).2.changes,
                ..key_spec(old(self).view(), key).2
            }),
    {
        let ghost c0 = changes@;
        assert(texts(c0) + Seq::<Seq<char>>::empty() =~= texts(c0));
        let n = self.suggestions.len();
        match key {
            Key::Enter => {
                let searched = match self.selected_suggestion {
                    Some(i) => self.select_suggestion(i),
                    None => Some(self.trigger_search()),
                };
                (SearchOutcome::Done(EventResult::Consumed), SearchFired { changes, searched, focus_input: false })
            },
            Key::Escape => {
                self.show_suggestions = false;
                self.selected_suggestion = None;
                (SearchOutcome::Done(EventResult::Consumed), SearchFired { changes, searched: None, focus_input: false })
            },
            Key::Up => {
                if self.show_suggestions && n > 0 {
                    let i = match self.selected_suggestion {
                        Some(i) => if i > 0 { i - 1 } else { n - 1 },
                        None => n - 1,
                    };
                    self.selected_suggestion = Some(i);
                }
                (SearchOutcome::Done(EventResult::Consumed), SearchFired { changes, searched: None, focus_input: false })
            },
            Key::Down => {
                if self.show_suggestions && n > 0 {
                    let i = match self.selected_suggestion {
                        Some(i) => (i + 1) % n,
                        None => 0,
                    };
                    self.selected_suggestion = Some(i);
                }
                (SearchOutcome::Done(EventResult::Consumed), SearchFired { changes, searched: None, focus_input: false })
            },
            _ => (SearchOutcome::EditToInput, SearchFired { changes, searched: None, focus_input: false }),
        }
    }

    /// Answers an event at time `now` (milliseconds); see [`search_event`].
    /// `provided` is what the host's suggestion provider gives for the
    /// current text, if the host has one.
    pub fn handle_event(
        &mut self,
        event: &Event,
        font_size_base: i32,
        now: u64,
        provided: Option<Vec<String>>,
    ) -> (r: (SearchOutcome, SearchFired))
        requires
            search_wf(old(self).view()),
            search_event_ok(old(self).view(), font_size_base as int),
        ensures
            search_wf(final(self).view()),
            final(self).view() == search_event(old(self).view(), *event, font_size_base as int, now, provided_view(provided)).0,
            r.0 == search_event(old(self).view(), *event, font_size_base as int, now, provided_view(provided)).1,
            fired_view(r.1) == search_event(old(self).view(), *event, font_size_base as int, now, provided_view(provided)).2,
    {
        let ghost v = self.view();
        let nothing = SearchFired { changes: Vec::new(), searched: None, focus_input: false };
        if !self.state.enabled || !self.state.visible {
            assert(fired_view(nothing).changes =~= Seq::<Seq<char>>::empty());
            return (SearchOutcome::Done(EventResult::Ignored), nothing);
        }
        let mut changes: Vec<String> = Vec::new();
        if self.change_is_due(now) {
            self.last_change = None;
            let t = self.trigger_change(provided);
            changes.push(t);
        }
        let ghost first: Seq<Seq<char>> = if change_due(v, now) { seq![v.text] } else { seq![] };
        assert(texts(changes@) =~= first);
        let ghost v0 = self.view();
        assert(v0 == debounced(v, now, provided_view(provided)));
        assert(search_event_ok(v0, font_size_base as int));
        match event {
            Event::MouseButton(mb) => {
                if mb.button == MouseButton::Left && mb.pressed {
                    self.handle_press(font_size_base, mb.position, changes)
                } else {
                    assert(texts(changes@) + Seq::<Seq<char>>::empty() =~= texts(changes@));
                    (SearchOutcome::EditToInput, SearchFired { changes, searched: None, focus_input: false })
                }
            },
            Event::MouseMove(mm) => {
                let out = self.handle_move(font_size_base, mm.position);
                assert(texts(changes@) + Seq::<Seq<char>>::empty() =~= texts(changes@));
                (out, SearchFired { changes, searched: None, focus_input: false })
            },
            Event::KeyPress(k) => {
                if !self.state.focused {
                    assert(texts(changes@) + Seq::<Seq<char>>::empty() =~= texts(changes@));
                    (SearchOutcome::Done(EventResult::Ignored), SearchFired { changes, searched: None, focus_input: false })
                } else {
                    self.handle_key(k.key, changes)
                }
            },
            _ => {
                assert(texts(changes@) + Seq::<Seq<char>>::empty() =~= texts(changes@));
                (SearchOutcome::EditToInput, SearchFired { changes, searched: None, focus_input: false })
            },
        }
    }

    /// The text field answered an event handed to it with `result` and now
    /// holds `text` (at time `now`; `provided` is the provider's suggestions
    /// for `text`, if the host has a provider). A new text restarts the
    /// debounce timer and refreshes the suggestions. Returns `result`.
    pub fn input_edited(
        &mut self,
        text: &str,
        result: EventResult,
        now: u64,
        provided: Option<Vec<String>>,
    ) -> (r: EventResult)
        requires
            search_wf(old(self).view()),
        ensures
            search_wf(final(self).view()),
            final(self).view() == edited(old(self).view(), text@, now, provided_view(provided)),
            r == result,
    {
        if !same_text(self.text.as_str(), text) {
            self.text = text.to_string();
            self.last_change = Some(now);
            self.refresh_suggestions(provided);
        }
        result
    }

    /// At least 200 pixels wide, as high as the text field measures.
    pub fn measure(&self, input_size: Size) -> (s: Size)
        ensures
            s.width == (if input_size.width > 200 { input_size.width } else { 200 }),
            s.height == input_size.height,
    {
        let width = if input_size.width > 200 { input_size.width } else { 200 };
        Size::new(width, input_size.height)
    }

    /// Places the box in `rect`; see [`laid_out`].
    pub fn layout(&mut self, rect: Rect, font_size_base: i32)
        requires
            layout_ok(rect, font_size_base as int),
        ensures
            final(self).view() == laid_out(old(self).view(), rect, font_size_base as int),
    {
        let icon_size: i32 = 20;
        let padding: i32 = 8;
        self.state.bounds = rect;
        let cy = rect.y + (rect.height - icon_size) / 2;
        self.search_icon_rect = Rect::new(rect.x + padding, cy, icon_size, icon_size);
        self.clear_button_rect = Rect::new(rect.x + rect.width - icon_size - padding, cy, icon_size, icon_size);
        self.input_rect = Rect::new(rect.x + icon_size + padding * 2, rect.y, rect.width - icon_size * 2 - padding * 4, rect.height);
        let item_height = font_size_base + 8;
        let shown: i32 = if self.suggestions.len() < 8 { self.suggestions.len() as i32 } else { 8 };
        assert(-8 * (font_size_base + 8) <= shown * item_height <= 8 * (font_size_base + 8)
            || 8 * (font_size_base + 8) <= shown * item_height <= -8 * (font_size_base + 8)) by (nonlinear_arith)
            requires
                0 <= shown <= 8,
                item_height == font_size_base + 8,
        ;
        self.suggestions_rect = Rect::new(rect.x, rect.y + rect.height + 2, rect.width, shown * item_height);
    }

    pub fn id(&self) -> (id: WidgetId)
        ensures
            id == self.view().state.id,
    {
        self.state.id
    }

    pub fn bounds(&self) -> (r: Rect)
        ensures
            r == self.view().state.bounds,
    {
        self.state.bounds
    }

    pub fn set_bounds(&mut self, bounds: Rect)
        ensures
            final(self).view() == (SearchView { state: WidgetState { bounds, ..old(self).view().state }, ..old(self).view() }),
    {
        self.state.bounds = bounds;
    }

    pub fn is_visible(&self) -> (b: bool)
        ensures
            b == self.view().state.visible,
    {
        self.state.visible
    }

    pub fn set_visible(&mut self, visible: bool)
        ensures
            final(self).view() == (SearchView { state: WidgetState { visible, ..old(self).view().state }, ..old(self).view() }),
    {
        self.state.visible = visible;
    }

    pub fn is_enabled(&self) -> (b: bool)
        ensures
            b == self.view().state.enabled,
    {
        self.state.enabled
    }

    pub fn set_enabled(&mut self, enabled: bool)
        ensures
            final(self).view() == (SearchView { state: WidgetState { enabled, ..old(self).view().state }, ..old(self).view() }),
    {
        self.state.enabled = enabled;
    }

    pub fn is_focused(&self) -> (b: bool)
        ensures
            b == self.view().state.focused,
    {
        self.state.focused
    }

    /// Sets the box's focus; the host gives its text field the same.
    pub fn set_focused(&mut self, focused: bool)
        ensures
            final(self).view() == (SearchView { state: WidgetState { focused, ..old(self).view().state }, ..old(self).view() }),
    {
        self.state.focused = focused;
    }

    pub fn can_focus(&self) -> (b: bool)
        ensures
            b == (self.view().state.enabled && self.view().state.visible),
    {
        self.state.enabled && self.state.visible
    }
}

/// The history never holds more than [`HISTORY_LIMIT`] searches nor the
/// same one twice, and the latest non-empty search comes first.
pub proof fn law_history_stays_bounded(h: Seq<Seq<char>>, q: Seq<char>)
    requires
        h.len() <= HISTORY_LIMIT,
        forall|i: int, j: int| 0 <= i < j < h.len() ==> h[i] != h[j],
        forall|i: int| 0 <= i < h.len() ==> (#[trigger] h[i]).len() > 0,
    ensures
        ({
            let r = history_add(h, q);
            &&& r.len() <= HISTORY_LIMIT
            &&& forall|i: int, j: int| 0 <= i < j < r.len() ==> r[i] != r[j]
            &&& q.len() > 0 ==> r[0] == q
        }),
{
    lemma_history_add(h, q);
}

/// Searching again for a query already in the history moves it to the
/// front and keeps the others in order.
pub proof fn law_research_promotes(h: Seq<Seq<char>>, q: Seq<char>, p: int)
    requires
        0 <= p < h.len(),
        h[p] == q,
        q.len() > 0,
        forall|i: int, j: int| 0 <= i < j < h.len() ==> h[i] != h[j],
    ensures
        history_add(h, q) == seq![q] + h.remove(p),
        history_add(h, q).len() == h.len(),
{
    lemma_history_position(h, q, 0);
    let f = history_position(h, q, 0);
    assert(f == p) by {
        if f != p {
            assert(h[f] == q);
        }
    }
}

/// Escape closes the suggestion list and drops the selection.
pub proof fn law_escape_closes_suggestions(v: SearchView)
    ensures
        ({
            let (v2, out, f) = key_spec(v, Key::Escape);
            &&& !v2.show_suggestions
            &&& v2.selected is None
            &&& out == SearchOutcome::Done(EventResult::Consumed)
            &&& f == nothing_fired()
        }),
{
}

/// Down and Up move the selection round the shown suggestions and keep it
/// on one of them.
pub proof fn law_suggestion_navigation_stays_in_list(v: SearchView, k: Key)
    requires
        search_wf(v),
        v.show_suggestions,
        v.suggestions.len() > 0,
        k == Key::Up || k == Key::Down,
    ensures
        key_spec(v, k).0.selected matches Some(i) && i < v.suggestions.len(),
{
}


/// A due change is processed once: afterwards no change is pending, so a
/// later check fires nothing until the text changes again.
pub proof fn law_debounce_fires_once(v: SearchView, now: u64, later: u64, provided: Option<Seq<Seq<char>>>)
    requires
        change_due(v, now),
    ensures
        debounced(v, now, provided).last_change is None,
        !change_due(debounced(v, now, provided), later),
{
}

} // verus!
