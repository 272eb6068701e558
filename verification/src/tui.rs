//! The terminal front end's state that is not drawing: themes, the mascot's
//! spinner and verbs, tier badges, the screens of the wizard, and the log of
//! a model download.

use vstd::prelude::*;
use crate::text::{chars_of, contains, contains_str, push_str, trim};

verus! {

// ── Themes ─────────────────────────────────────────────────────────────────

#[derive(Debug, Clone, Copy, PartialEq, Eq, Structural)]
pub enum Theme {
    Dark,
    Light,
    Auto,
}

impl Theme {
    pub const ALL: [Theme; 3] = [Theme::Dark, Theme::Light, Theme::Auto];

    pub open spec fn label_of(self) -> Seq<char> {
        match self {
            Theme::Dark => "Dark"@,
            Theme::Light => "Light"@,
            Theme::Auto => "Auto (match terminal)"@,
        }
    }

    pub open spec fn hint_of(self) -> Seq<char> {
        match self {
            Theme::Dark => "Warm llama tones on a dark terminal"@,
            Theme::Light => "Softer tones tuned for light terminals"@,
            Theme::Auto => "Use your terminal's own background"@,
        }
    }

    pub fn label(&self) -> (r: &'static str)
        ensures
            r@ == self.label_of(),
    {
        match self {
            Theme::Dark => "Dark",
            Theme::Light => "Light",
            Theme::Auto => "Auto (match terminal)",
        }
    }

    pub fn hint(&self) -> (r: &'static str)
        ensures
            r@ == self.hint_of(),
    {
        match self {
            Theme::Dark => "Warm llama tones on a dark terminal",
            Theme::Light => "Softer tones tuned for light terminals",
            Theme::Auto => "Use your terminal's own background",
        }
    }

    /// Only the light theme uses the light palette; `Auto` draws like `Dark`.
    pub fn is_light(&self) -> (r: bool)
        ensures
            r == (*self == Theme::Light),
    {
        match self {
            Theme::Light => true,
            _ => false,
        }
    }
}

/// A short glyph badge for a tier rank: one filled block per rank step.
pub open spec fn tier_badge_of(rank: u8) -> Seq<char> {
    if rank == 0 {
        "▄▁▁▁▁"@
    } else if rank == 1 {
        "▄▄▁▁▁"@
    } else if rank == 2 {
        "▄▄▄▁▁"@
    } else if rank == 3 {
        "▄▄▄▄▁"@
    } else {
        "▄▄▄▄▄"@
    }
}

pub fn tier_badge(rank: u8) -> (r: &'static str)
    ensures
        r@ == tier_badge_of(rank),
{
    match rank {
        0 => "▄▁▁▁▁",
        1 => "▄▄▁▁▁",
        2 => "▄▄▄▁▁",
        3 => "▄▄▄▄▁",
        _ => "▄▄▄▄▄",
    }
}

// ── The mascot's spinner and verbs ─────────────────────────────────────────

/// Braille throbber frames.
pub open spec fn spinner_frames() -> Seq<Seq<char>> {
    seq!["⠋"@, "⠙"@, "⠹"@, "⠸"@, "⠼"@, "⠴"@, "⠦"@, "⠧"@, "⠇"@, "⠏"@]
}

/// The rotating "doing stuff" words.
pub open spec fn verbs() -> Seq<Seq<char>> {
    seq![
        "Ruminating"@, "Grazing the silicon"@, "Chewing the cud"@, "Sizing up your GPU"@,
        "Weighing the weights"@, "Counting FLOPs"@, "Measuring memory"@, "Herding the models"@,
        "Surveying the pasture"@, "Pronking"@, "Trotting the catalog"@, "Munching quants"@,
        "Spitting out numbers"@, "Profiling"@, "Percolating"@, "Noodling"@,
        "Cogitating"@, "Wrangling VRAM"@, "Sniffing out backends"@, "Tallying cores"@,
        "Warming up"@, "Crunching"@, "Ambling along"@, "Almost there"@,
    ]
}

/// The spinner frame for a tick: the frames in turn, one per tick.
pub fn spinner(tick: u64) -> (r: &'static str)
    ensures
        r@ == spinner_frames()[(tick % 10) as int],
{
    let frames: [&'static str; 10] = ["⠋", "⠙", "⠹", "⠸", "⠼", "⠴", "⠦", "⠧", "⠇", "⠏"];
    let i = (tick % 10) as usize;
    frames[i]
}

/// The verb for a tick: one verb every nine ticks, in turn.
pub fn verb(tick: u64) -> (r: &'static str)
    ensures
        r@ == verbs()[((tick / 9) % 24) as int],
{
    let vs: [&'static str; 24] = [
        "Ruminating", "Grazing the silicon", "Chewing the cud", "Sizing up your GPU",
        "Weighing the weights", "Counting FLOPs", "Measuring memory", "Herding the models",
        "Surveying the pasture", "Pronking", "Trotting the catalog", "Munching quants",
        "Spitting out numbers", "Profiling", "Percolating", "Noodling",
        "Cogitating", "Wrangling VRAM", "Sniffing out backends", "Tallying cores",
        "Warming up", "Crunching", "Ambling along", "Almost there",
    ];
    let i = ((tick / 9) % 24) as usize;
    vs[i]
}

// ── Screens ────────────────────────────────────────────────────────────────

/// Which screen of the wizard / app we're on.
#[derive(Debug, Clone, Copy, PartialEq, Eq, Structural)]
pub enum Screen {
    Splash,
    ThemePick,
    Profiling,
    Ollama,
    Main,
}

/// Whether Ollama (needed to actually run models) is installed, and its
/// version.
#[derive(Debug, Clone)]
pub enum Ollama {
    Present(String),
    Absent,
}

/// The version Ollama reports: the text after the last `version is` on the
/// first line that has it, trimmed; `installed` when there is none.
pub open spec fn ollama_version_of(stdout: Seq<char>) -> Seq<char> {
    let ls = crate::text::lines_of(stdout);
    if exists|i: int| 0 <= i < ls.len() && contains(#[trigger] ls[i], "version is"@) {
        let i = choose|i: int| 0 <= i < ls.len() && contains(#[trigger] ls[i], "version is"@)
            && forall|j: int| 0 <= j < i ==> !contains(#[trigger] ls[j], "version is"@);
        let v = trim(after_last(ls[i], "version is"@));
        if v.len() > 0 { v } else { "installed"@ }
    } else {
        "installed"@
    }
}

/// The text after the last occurrence of `p` in `s` (`s.rsplit(p).next()`).
pub open spec fn after_last(s: Seq<char>, p: Seq<char>) -> Seq<char>
    decreases s.len(),
{
    if p.len() == 0 || s.len() < p.len() {
        s
    } else if crate::text::ends_with(s, p) {
        Seq::empty()
    } else {
        after_last(s.drop_last(), p).push(s.last())
    }
}

// ── Model download log ─────────────────────────────────────────────────────

/// How many progress lines are kept.
pub const LOG_CAP: usize = 40;

/// Bytes shared at the start of two strings' UTF-8 encodings.
pub open spec fn common_prefix_len(a: Seq<u8>, b: Seq<u8>) -> nat
    decreases a.len(),
{
    if a.len() == 0 || b.len() == 0 || a[0] != b[0] {
        0
    } else {
        1 + common_prefix_len(a.drop_first(), b.drop_first())
    }
}

pub fn common_prefix(a: &str, b: &str) -> (r: usize)
    ensures
        r == common_prefix_len(vstd::utf8::encode_utf8(a@), vstd::utf8::encode_utf8(b@)),
{
    let x = a.as_bytes();
    let y = b.as_bytes();
    let mut i: usize = 0;
    assert(x@.skip(0) =~= x@);
    assert(y@.skip(0) =~= y@);
    while i < x.len() && i < y.len() && x[i] == y[i]
        invariant
            i <= x@.len(),
            i <= y@.len(),
            common_prefix_len(x@, y@) == i + common_prefix_len(x@.skip(i as int), y@.skip(i as int)),
        decreases x@.len() - i,
    {
        assert(x@.skip(i as int).drop_first() =~= x@.skip(i + 1));
        assert(y@.skip(i as int).drop_first() =~= y@.skip(i + 1));
        i = i + 1;
    }
    assert(x@.skip(0) =~= x@);
    assert(y@.skip(0) =~= y@);
    i
}

/// The progress log of a model download.
#[derive(Debug, Clone)]
pub struct PullJob {
    pub tag: String,
    pub display: String,
    pub log: Vec<String>,
}

/// The log after one more line: a progress update (it has a `%` and shares
/// at least eight leading bytes with the last line) replaces the last line;
/// any other line is appended, and only the last `LOG_CAP` lines are kept.
pub open spec fn log_after(log: Seq<Seq<char>>, line: Seq<char>) -> Seq<Seq<char>> {
    if log.len() > 0 && contains(line, "%"@)
        && common_prefix_len(vstd::utf8::encode_utf8(log.last()), vstd::utf8::encode_utf8(line)) >= 8 {
        log.drop_last().push(line)
    } else {
        let l2 = log.push(line);
        if l2.len() > LOG_CAP { l2.skip(l2.len() - LOG_CAP) } else { l2 }
    }
}

impl PullJob {
    pub fn new(tag: String, display: String) -> (r: PullJob)
        ensures
            r.tag == tag,
            r.display == display,
            r.log_view() == Seq::<Seq<char>>::empty(),
    {
        let r = PullJob { tag, display, log: Vec::new() };
        assert(r.log_view() =~= Seq::<Seq<char>>::empty());
        r
    }

    pub open spec fn log_view(self) -> Seq<Seq<char>> {
        self.log@.map_values(|s: String| s@)
    }

    /// The lines to show right now.
    pub fn lines(&self) -> (r: Vec<String>)
        ensures
            r@.map_values(|s: String| s@) == self.log_view(),
    {
        let mut out: Vec<String> = Vec::new();
        let mut i: usize = 0;
        while i < self.log.len()
            invariant
                i <= self.log@.len(),
                out@.map_values(|s: String| s@) == self.log_view().take(i as int),
            decreases self.log@.len() - i,
        {
            let ghost before = out@.map_values(|s: String| s@);
            let c = self.log[i].clone();
            assert(c@ == self.log_view()[i as int]);
            out.push(c);
            assert(out@.map_values(|s: String| s@) =~= before.push(c@));
            i = i + 1;
            assert(out@.map_values(|s: String| s@) =~= self.log_view().take(i as int));
        }
        assert(self.log_view().take(self.log@.len() as int) =~= self.log_view());
        out
    }

    /// Adds one progress line.
    pub fn add_line(&mut self, line: String)
        requires
            old(self).log_view().len() <= LOG_CAP,
        ensures
            final(self).log_view() == log_after(old(self).log_view(), line@),
            final(self).log_view().len() <= LOG_CAP,
            final(self).tag == old(self).tag,
            final(self).display == old(self).display,
    {
        let ghost lv = self.log_view();
        let n = self.log.len();
        if n > 0 {
            let lc = chars_of(line.as_str());
            let has_pct = contains_str(&lc, "%");
            let cp = common_prefix(self.log[n - 1].as_str(), line.as_str());
            if has_pct && cp >= 8 {
                let ghost l = line@;
                self.log.set(n - 1, line);
                assert(self.log_view() =~= lv.drop_last().push(l));
                return;
            }
        }
        let ghost l = line@;
        self.log.push(line);
        assert(self.log_view() =~= lv.push(l));
        if self.log.len() > LOG_CAP {
            let ghost before = self.log_view();
            self.log.remove(0);
            assert(self.log_view() =~= before.skip(1));
        }
    }
}

/// A modal shown over the Models tab while pulling or after a pull.
#[derive(Debug, Clone)]
pub enum Overlay {
    /// No modal.
    Closed,
    /// A download is streaming.
    Pulling(PullJob),
    /// A pull finished (or failed): waiting for the user to run it or dismiss.
    Result { tag: String, display: String, ok: bool, msg: String },
}

// ── The app's state and its reducers ──────────────────────────────────────

/// The tabs of the main screen.
pub const TABS: [&'static str; 3] = ["Models", "Hardware", "About"];

/// The keys the UI distinguishes.
#[derive(Debug, Clone, Copy, PartialEq, Eq, Structural)]
pub enum KeyCode {
    Char(char),
    Enter,
    Esc,
    Up,
    Down,
    Left,
    Right,
    Tab,
    BackTab,
    Home,
    End,
    Other,
}

/// A key press: the key and whether Control was held.
#[derive(Debug, Clone, Copy, PartialEq, Eq, Structural)]
pub struct KeyPress {
    pub code: KeyCode,
    pub ctrl: bool,
}

/// A model row as the UI acts on it: its `ollama` tag and its name.
#[derive(Debug, Clone)]
pub struct RecRow {
    pub tag: String,
    pub display: String,
}

/// What the event loop has to do after a key.
#[derive(Debug, Clone, Copy, PartialEq, Eq, Structural)]
pub enum Effect {
    Nothing,
    /// Start hardware detection in the background.
    StartProfiling,
    /// Download or run the selected model (`run_now` for `r`).
    Activate { run_now: bool },
}

/// All UI state that the reducers change.
pub struct App {
    pub screen: Screen,
    pub theme: Theme,
    pub theme_cursor: usize,
    pub tab: usize,
    pub rec_cursor: usize,
    pub tick: u64,
    pub should_quit: bool,
    pub recs: Vec<RecRow>,
    pub installed: Vec<String>,
    pub overlay: Overlay,
    pub pending_run: Option<String>,
    /// Hardware detection is running in the background.
    pub loading: bool,
    pub load_error: Option<String>,
}

/// An overlay as plain values.
pub enum OverlayView {
    Closed,
    Pulling(Seq<char>, Seq<char>, Seq<Seq<char>>),
    Result(Seq<char>, Seq<char>, bool, Seq<char>),
}

/// The app as plain values.
pub struct AppView {
    pub screen: Screen,
    pub theme: Theme,
    pub theme_cursor: usize,
    pub tab: usize,
    pub rec_cursor: usize,
    pub tick: u64,
    pub should_quit: bool,
    pub recs: Seq<(Seq<char>, Seq<char>)>,
    pub installed: Seq<Seq<char>>,
    pub overlay: OverlayView,
    pub pending_run: Option<Seq<char>>,
    pub loading: bool,
    pub load_error: Option<Seq<char>>,
}

pub open spec fn overlay_v(o: Overlay) -> OverlayView {
    match o {
        Overlay::Closed => OverlayView::Closed,
        Overlay::Pulling(j) => OverlayView::Pulling(j.tag@, j.display@, j.log_view()),
        Overlay::Result { tag, display, ok, msg } => OverlayView::Result(tag@, display@, ok, msg@),
    }
}

pub open spec fn opt_str(o: Option<String>) -> Option<Seq<char>> {
    match o {
        Some(s) => Some(s@),
        None => None,
    }
}

impl View for App {
    type V = AppView;

    open spec fn view(&self) -> AppView {
        AppView {
            screen: self.screen,
            theme: self.theme,
            theme_cursor: self.theme_cursor,
            tab: self.tab,
            rec_cursor: self.rec_cursor,
            tick: self.tick,
            should_quit: self.should_quit,
            recs: self.recs@.map_values(|r: RecRow| (r.tag@, r.display@)),
            installed: self.installed@.map_values(|s: String| s@),
            overlay: overlay_v(self.overlay),
            pending_run: opt_str(self.pending_run),
            loading: self.loading,
            load_error: opt_str(self.load_error),
        }
    }
}

impl AppView {
    /// The cursors stay in range: a theme and a tab always exist.
    pub open spec fn wf(self) -> bool {
        self.theme_cursor < 3 && self.tab < 3
    }
}

/// The main screen's keys (tab switching, and on the Models tab moving the
/// selection and activating it).
pub open spec fn main_key(v: AppView, k: KeyCode) -> (AppView, Effect) {
    let models = v.tab == 0;
    match k {
        KeyCode::Enter => if models { (v, Effect::Activate { run_now: false }) } else { (v, Effect::Nothing) },
        KeyCode::Tab | KeyCode::Right => (AppView { tab: ((v.tab + 1) % 3) as usize, ..v }, Effect::Nothing),
        KeyCode::BackTab | KeyCode::Left => (AppView { tab: ((v.tab + 2) % 3) as usize, ..v }, Effect::Nothing),
        KeyCode::Char(c) => if c == 'r' && models {
            (v, Effect::Activate { run_now: true })
        } else if c == 'l' {
            (AppView { tab: ((v.tab + 1) % 3) as usize, ..v }, Effect::Nothing)
        } else if c == 'h' {
            (AppView { tab: ((v.tab + 2) % 3) as usize, ..v }, Effect::Nothing)
        } else if '1' <= c <= '3' {
            (AppView { tab: ((c as u32) - ('1' as u32)) as usize, ..v }, Effect::Nothing)
        } else if c == 'j' && models {
            (down(v), Effect::Nothing)
        } else if c == 'k' && models {
            (up(v), Effect::Nothing)
        } else {
            (v, Effect::Nothing)
        },
        KeyCode::Down => if models { (down(v), Effect::Nothing) } else { (v, Effect::Nothing) },
        KeyCode::Up => if models { (up(v), Effect::Nothing) } else { (v, Effect::Nothing) },
        KeyCode::Home => if models { (AppView { rec_cursor: 0, ..v }, Effect::Nothing) } else { (v, Effect::Nothing) },
        KeyCode::End => if models {
            (AppView { rec_cursor: (if v.recs.len() == 0 { 0 } else { v.recs.len() - 1 }) as usize, ..v }, Effect::Nothing)
        } else {
            (v, Effect::Nothing)
        },
        _ => (v, Effect::Nothing),
    }
}

/// Selection one row down, never past the last row.
pub open spec fn down(v: AppView) -> AppView {
    if v.recs.len() == 0 {
        v
    } else {
        AppView { rec_cursor: (if v.rec_cursor + 1 < v.recs.len() { v.rec_cursor + 1 } else { v.recs.len() - 1 }) as usize, ..v }
    }
}

pub open spec fn up(v: AppView) -> AppView {
    AppView { rec_cursor: (if v.rec_cursor == 0 { 0 } else { v.rec_cursor - 1 }) as usize, ..v }
}

/// Moving through the model list on the Models tab: End selects the last
/// row and Home the first; Down moves one row toward the end and Up one
/// toward the start, stopping at the ends; every key keeps the list as it
/// is and a selection inside the list stays inside it.
pub proof fn lemma_model_list_navigation(v: AppView, k: KeyCode)
    requires
        v.tab == 0,
        0 < v.recs.len() <= usize::MAX,
        v.rec_cursor < v.recs.len(),
    ensures
        main_key(v, k).0.recs == v.recs,
        main_key(v, k).0.rec_cursor < v.recs.len(),
        k == KeyCode::End ==> main_key(v, k).0.rec_cursor + 1 == v.recs.len(),
        k == KeyCode::Home ==> main_key(v, k).0.rec_cursor == 0,
        (k == KeyCode::Down || k == KeyCode::Char('j')) ==> {
            let c = main_key(v, k).0.rec_cursor;
            if v.rec_cursor + 1 < v.recs.len() { c == v.rec_cursor + 1 } else { c == v.rec_cursor }
        },
        (k == KeyCode::Up || k == KeyCode::Char('k')) ==> {
            let c = main_key(v, k).0.rec_cursor;
            if v.rec_cursor > 0 { c + 1 == v.rec_cursor } else { c == 0 }
        },
{
}

/// On the main screen with nothing open over it, End on the Models tab
/// selects the last model.
pub proof fn lemma_end_selects_last_model(v: AppView, key: KeyPress)
    requires
        v.overlay is Closed,
        v.screen == Screen::Main,
        v.tab == 0,
        0 < v.recs.len() <= usize::MAX,
        key.code == KeyCode::End,
    ensures
        key_next(v, key).0.rec_cursor + 1 == v.recs.len(),
        key_next(v, key).0.recs == v.recs,
{
}

/// What a key does: Ctrl-C quits anywhere; an open overlay takes the key;
/// Esc quits, and so does `q` on the splash and main screens; otherwise the
/// screen decides.
pub open spec fn key_next(v: AppView, key: KeyPress) -> (AppView, Effect) {
    let k = key.code;
    if k == KeyCode::Char('c') && key.ctrl {
        (AppView { should_quit: true, ..v }, Effect::Nothing)
    } else if !(v.overlay is Closed) {
        match v.overlay {
            OverlayView::Result(tag, _, ok, _) => if ok && (k == KeyCode::Enter || k == KeyCode::Char('r')) {
                (AppView { pending_run: Some(tag), ..v }, Effect::Nothing)
            } else {
                (AppView { overlay: OverlayView::Closed, ..v }, Effect::Nothing)
            },
            _ => (v, Effect::Nothing),
        }
    } else if k == KeyCode::Esc || (k == KeyCode::Char('q') && (v.screen == Screen::Main || v.screen == Screen::Splash)) {
        (AppView { should_quit: true, ..v }, Effect::Nothing)
    } else {
        match v.screen {
            Screen::Splash => if k == KeyCode::Enter || k == KeyCode::Char(' ') {
                (AppView { screen: Screen::ThemePick, ..v }, Effect::Nothing)
            } else {
                (v, Effect::Nothing)
            },
            Screen::ThemePick => if k == KeyCode::Up || k == KeyCode::Char('k') {
                (AppView { theme_cursor: (if v.theme_cursor == 0 { 0 } else { v.theme_cursor - 1 }) as usize, ..v }, Effect::Nothing)
            } else if k == KeyCode::Down || k == KeyCode::Char('j') {
                (AppView { theme_cursor: (if v.theme_cursor + 1 < 2 { v.theme_cursor + 1 } else { 2 }) as usize, ..v }, Effect::Nothing)
            } else if k == KeyCode::Enter {
                (AppView { theme: Theme::ALL[v.theme_cursor as int], screen: Screen::Profiling, loading: true, ..v }, Effect::StartProfiling)
            } else {
                (v, Effect::Nothing)
            },
            Screen::Profiling => (v, Effect::Nothing),
            Screen::Ollama => if k == KeyCode::Enter || k == KeyCode::Char(' ') {
                (AppView { screen: Screen::Main, ..v }, Effect::Nothing)
            } else {
                (v, Effect::Nothing)
            },
            Screen::Main => main_key(v, k),
        }
    }
}

pub const NO_OLLAMA: &'static str = "Ollama isn't installed. Get it at https://ollama.com/download, then try again.";

impl App {
    pub fn new() -> (r: App)
        ensures
            r@.screen == Screen::Splash,
            r@.theme == Theme::Dark,
            r@.theme_cursor == 0 && r@.tab == 0 && r@.rec_cursor == 0 && r@.tick == 0,
            !r@.should_quit && !r@.loading,
            r@.recs.len() == 0 && r@.installed.len() == 0,
            r@.overlay is Closed,
            r@.pending_run is None && r@.load_error is None,
    {
        let r = App {
            screen: Screen::Splash,
            theme: Theme::Dark,
            theme_cursor: 0,
            tab: 0,
            rec_cursor: 0,
            tick: 0,
            should_quit: false,
            recs: Vec::new(),
            installed: Vec::new(),
            overlay: Overlay::Closed,
            pending_run: None,
            loading: false,
            load_error: None,
        };
        assert(r@.recs =~= Seq::<(Seq<char>, Seq<char>)>::empty());
        assert(r@.installed =~= Seq::<Seq<char>>::empty());
        r
    }

    /// Reduces a key press into a state change, and says what the event loop
    /// has to do.
    pub fn on_key(&mut self, key: KeyPress) -> (e: Effect)
        requires
            old(self)@.wf(),
        ensures
            (final(self)@, e) == key_next(old(self)@, key),
            final(self)@.wf(),
            final(self)@.recs == old(self)@.recs,
            old(self)@.overlay is Closed && old(self)@.screen == Screen::Main && old(self)@.tab == 0
                && old(self)@.recs.len() > 0 && key.code == KeyCode::End
                ==> final(self)@.rec_cursor + 1 == old(self)@.recs.len(),
    {
        let k = key.code;
        if k == KeyCode::Char('c') && key.ctrl {
            self.should_quit = true;
            return Effect::Nothing;
        }
        match &self.overlay {
            Overlay::Closed => {}
            Overlay::Pulling(_) => {
                return Effect::Nothing;
            }
            Overlay::Result { tag, ok, .. } => {
                if *ok && (k == KeyCode::Enter || k == KeyCode::Char('r')) {
                    let t = tag.clone();
                    self.pending_run = Some(t);
                } else {
                    self.overlay = Overlay::Closed;
                }
                return Effect::Nothing;
            }
        }
        if k == KeyCode::Esc || (k == KeyCode::Char('q') && (self.screen == Screen::Main || self.screen == Screen::Splash)) {
            self.should_quit = true;
            return Effect::Nothing;
        }
        match self.screen {
            Screen::Splash => {
                if k == KeyCode::Enter || k == KeyCode::Char(' ') {
                    self.screen = Screen::ThemePick;
                }
                Effect::Nothing
            }
            Screen::ThemePick => {
                if k == KeyCode::Up || k == KeyCode::Char('k') {
                    self.theme_cursor = if self.theme_cursor == 0 { 0 } else { self.theme_cursor - 1 };
                    Effect::Nothing
                } else if k == KeyCode::Down || k == KeyCode::Char('j') {
                    self.theme_cursor = if self.theme_cursor + 1 < 2 { self.theme_cursor + 1 } else { 2 };
                    Effect::Nothing
                } else if k == KeyCode::Enter {
                    self.theme = Theme::ALL[self.theme_cursor];
                    self.screen = Screen::Profiling;
                    self.loading = true;
                    Effect::StartProfiling
                } else {
                    Effect::Nothing
                }
            }
            Screen::Profiling => Effect::Nothing,
            Screen::Ollama => {
                if k == KeyCode::Enter || k == KeyCode::Char(' ') {
                    self.screen = Screen::Main;
                }
                Effect::Nothing
            }
            Screen::Main => self.on_key_main(k),
        }
    }

    fn on_key_main(&mut self, k: KeyCode) -> (e: Effect)
        requires
            old(self)@.wf(),
        ensures
            (final(self)@, e) == main_key(old(self)@, k),
            final(self)@.wf(),
            final(self)@.recs == old(self)@.recs,
            old(self)@.tab == 0 && old(self)@.recs.len() > 0 && k == KeyCode::End
                ==> final(self)@.rec_cursor + 1 == old(self)@.recs.len(),
            old(self)@.tab == 0 && k == KeyCode::Home ==> final(self)@.rec_cursor == 0,
    {
        let models = self.tab == 0;
        let n = self.recs.len();
        match k {
            KeyCode::Enter => if models { Effect::Activate { run_now: false } } else { Effect::Nothing },
            KeyCode::Tab | KeyCode::Right => {
                self.tab = (self.tab + 1) % 3;
                Effect::Nothing
            }
            KeyCode::BackTab | KeyCode::Left => {
                self.tab = (self.tab + 2) % 3;
                Effect::Nothing
            }
            KeyCode::Char(c) => {
                if c == 'r' && models {
                    Effect::Activate { run_now: true }
                } else if c == 'l' {
                    self.tab = (self.tab + 1) % 3;
                    Effect::Nothing
                } else if c == 'h' {
                    self.tab = (self.tab + 2) % 3;
                    Effect::Nothing
                } else if '1' <= c && c <= '3' {
                    self.tab = ((c as u32) - ('1' as u32)) as usize;
                    Effect::Nothing
                } else if c == 'j' && models {
                    self.move_down();
                    Effect::Nothing
                } else if c == 'k' && models {
                    self.rec_cursor = if self.rec_cursor == 0 { 0 } else { self.rec_cursor - 1 };
                    Effect::Nothing
                } else {
                    Effect::Nothing
                }
            }
            KeyCode::Down => {
                if models {
                    self.move_down();
                }
                Effect::Nothing
            }
            KeyCode::Up => {
                if models {
                    self.rec_cursor = if self.rec_cursor == 0 { 0 } else { self.rec_cursor - 1 };
                }
                Effect::Nothing
            }
            KeyCode::Home => {
                if models {
                    self.rec_cursor = 0;
                }
                Effect::Nothing
            }
            KeyCode::End => {
                if models {
                    self.rec_cursor = if n == 0 { 0 } else { n - 1 };
                }
                Effect::Nothing
            }
            _ => Effect::Nothing,
        }
    }

    fn move_down(&mut self)
        ensures
            final(self)@ == down(old(self)@),
    {
        let n = self.recs.len();
        if n > 0 {
            self.rec_cursor = if self.rec_cursor < n - 1 { self.rec_cursor + 1 } else { n - 1 };
        }
    }
}

impl Default for App {
    fn default() -> (r: App)
        ensures
            r@.screen == Screen::Splash,
            r@.theme == Theme::Dark,
            r@.theme_cursor == 0 && r@.tab == 0 && r@.rec_cursor == 0 && r@.tick == 0,
            !r@.should_quit && !r@.loading,
            r@.recs.len() == 0 && r@.installed.len() == 0,
            r@.overlay is Closed,
            r@.pending_run is None && r@.load_error is None,
    {
        App::new()
    }
}

/// Is `t` among `v`?
pub fn has_tag(v: &Vec<String>, t: &str) -> (r: bool)
    ensures
        r == v@.map_values(|s: String| s@).contains(t@),
{
    let ghost vs = v@.map_values(|s: String| s@);
    let mut i: usize = 0;
    while i < v.len()
        invariant
            i <= v@.len(),
            vs == v@.map_values(|s: String| s@),
            forall|k: int| 0 <= k < i ==> vs[k] != t@,
        decreases v@.len() - i,
    {
        if crate::text::str_eq(v[i].as_str(), t) {
            assert(vs[i as int] == t@);
            return true;
        }
        i = i + 1;
    }
    false
}

/// The installed set after adding `tag`.
pub open spec fn with_tag(installed: Seq<Seq<char>>, tag: Seq<char>) -> Seq<Seq<char>> {
    if installed.contains(tag) { installed } else { installed.push(tag) }
}

impl App {
    /// One animation step.
    pub fn tick(&mut self)
        ensures
            final(self)@ == (AppView { tick: if old(self)@.tick == u64::MAX { 0 } else { (old(self)@.tick + 1) as u64 }, ..old(self)@ }),
    {
        self.tick = if self.tick == u64::MAX { 0 } else { self.tick + 1 };
    }

    /// Hardware detection finished: the ranked models and what is installed.
    pub fn loaded(&mut self, recs: Vec<RecRow>, installed: Vec<String>)
        ensures
            final(self)@ == (AppView {
                recs: recs@.map_values(|r: RecRow| (r.tag@, r.display@)),
                installed: installed@.map_values(|s: String| s@),
                loading: false,
                ..old(self)@
            }),
    {
        self.recs = recs;
        self.installed = installed;
        self.loading = false;
    }

    /// Hardware detection failed (or its thread stopped).
    pub fn load_failed(&mut self, e: String)
        ensures
            final(self)@ == (AppView { load_error: Some(e@), loading: false, ..old(self)@ }),
    {
        self.load_error = Some(e);
        self.loading = false;
    }

    /// Leaves the profiling screen once detection is done and the animation
    /// has been up long enough (`waited`).
    pub fn leave_profiling(&mut self, waited: bool)
        ensures
            final(self)@ == if old(self)@.screen == Screen::Profiling && !old(self)@.loading && waited {
                AppView { screen: Screen::Ollama, ..old(self)@ }
            } else {
                old(self)@
            },
    {
        if self.screen == Screen::Profiling && !self.loading && waited {
            self.screen = Screen::Ollama;
        }
    }

    /// Enter or `r` on a model row: without Ollama, say so; run it when asked
    /// to or when it is installed; else start downloading it (the result is
    /// `true` when the download has to be started).
    pub fn activate(&mut self, run_now: bool, ollama_ok: bool) -> (start: bool)
        ensures
            old(self)@.rec_cursor >= old(self)@.recs.len() ==> final(self)@ == old(self)@ && !start,
            old(self)@.rec_cursor < old(self)@.recs.len() ==> ({
                let (tag, display) = old(self)@.recs[old(self)@.rec_cursor as int];
                if !ollama_ok {
                    final(self)@ == (AppView { overlay: OverlayView::Result(tag, display, false, NO_OLLAMA@), ..old(self)@ }) && !start
                } else if run_now || old(self)@.installed.contains(tag) {
                    final(self)@ == (AppView { pending_run: Some(tag), ..old(self)@ }) && !start
                } else {
                    final(self)@ == (AppView { overlay: OverlayView::Pulling(tag, display, Seq::empty()), ..old(self)@ }) && start
                }
            }),
    {
        if self.rec_cursor >= self.recs.len() {
            return false;
        }
        let tag = self.recs[self.rec_cursor].tag.clone();
        let display = self.recs[self.rec_cursor].display.clone();
        if !ollama_ok {
            self.overlay = Overlay::Result { tag, display, ok: false, msg: String::from_str(NO_OLLAMA) };
            return false;
        }
        if run_now || has_tag(&self.installed, tag.as_str()) {
            self.pending_run = Some(tag);
            return false;
        }
        self.overlay = Overlay::Pulling(PullJob::new(tag, display));
        true
    }

    /// A download finished: show the result and, when it worked, count the
    /// model as installed.
    pub fn pull_finished(&mut self, outcome: Result<(), String>)
        ensures
            match old(self)@.overlay {
                OverlayView::Pulling(tag, display, _) => final(self)@ == (AppView {
                    overlay: OverlayView::Result(tag, display, outcome is Ok, match outcome {
                        Ok(()) => "Downloaded and ready to run."@,
                        Err(e) => e@,
                    }),
                    installed: if outcome is Ok { with_tag(old(self)@.installed, tag) } else { old(self)@.installed },
                    ..old(self)@
                }),
                _ => final(self)@ == old(self)@,
            },
    {
        let (tag, display) = match &self.overlay {
            Overlay::Pulling(job) => (job.tag.clone(), job.display.clone()),
            _ => return,
        };
        match outcome {
            Ok(()) => {
                if !has_tag(&self.installed, tag.as_str()) {
                    let ghost before = self.installed@.map_values(|s: String| s@);
                    self.installed.push(tag.clone());
                    assert(self.installed@.map_values(|s: String| s@) =~= before.push(tag@));
                }
                self.overlay = Overlay::Result { tag, display, ok: true, msg: String::from_str("Downloaded and ready to run.") };
            }
            Err(e) => {
                self.overlay = Overlay::Result { tag, display, ok: false, msg: e };
            }
        }
    }

    /// The download's thread went away without a result.
    pub fn pull_lost(&mut self)
        ensures
            match old(self)@.overlay {
                OverlayView::Pulling(tag, display, _) => final(self)@ == (AppView {
                    overlay: OverlayView::Result(tag, display, false, "download thread stopped unexpectedly"@),
                    ..old(self)@
                }),
                _ => final(self)@ == old(self)@,
            },
    {
        let (tag, display) = match &self.overlay {
            Overlay::Pulling(job) => (job.tag.clone(), job.display.clone()),
            _ => return,
        };
        self.overlay = Overlay::Result { tag, display, ok: false, msg: String::from_str("download thread stopped unexpectedly") };
    }

    /// Back from running a model: the modal is gone and the model is
    /// installed now.
    pub fn ran(&mut self, tag: String)
        ensures
            final(self)@ == (AppView {
                overlay: OverlayView::Closed,
                pending_run: None,
                installed: with_tag(old(self)@.installed, tag@),
                ..old(self)@
            }),
    {
        self.overlay = Overlay::Closed;
        self.pending_run = None;
        if !has_tag(&self.installed, tag.as_str()) {
            let ghost before = self.installed@.map_values(|s: String| s@);
            let ghost t = tag@;
            self.installed.push(tag);
            assert(self.installed@.map_values(|s: String| s@) =~= before.push(t));
        }
    }

    /// The model row under the cursor.
    pub fn selected_rec(&self) -> (r: Option<&RecRow>)
        ensures
            self.rec_cursor < self.recs@.len() ==> r == Some(&self.recs@[self.rec_cursor as int]),
            self.rec_cursor >= self.recs@.len() ==> r is None,
    {
        if self.rec_cursor < self.recs.len() { Some(&self.recs[self.rec_cursor]) } else { None }
    }
}

/// The Ollama version from `ollama --version`'s output.
pub fn ollama_version(stdout: &str) -> (r: String)
    ensures
        r@ == ollama_version_of(stdout@),
{
    let v = chars_of(stdout);
    let n = v.len();
    let mut i: usize = 0;
    let ghost mut done: Seq<Seq<char>> = seq![];
    assert(crate::text::lines_of(v@) =~= done + crate::text::lines_from(v@, 0));
    while i < n
        invariant
            n == v@.len(),
            v@ == stdout@,
            i <= n,
            crate::text::lines_of(v@) == done + crate::text::lines_from(v@, i as int),
            forall|j: int| 0 <= j < done.len() ==> !contains(#[trigger] done[j], "version is"@),
        decreases n - i,
    {
        let (e, next) = crate::text::line_at(&v, i);
        let l = crate::text::slice_vec(&v, i, e);
        let ghost ls = crate::text::lines_of(v@);
        proof {
            assert(ls[done.len() as int] == l@);
        }
        if contains_str(&l, "version is") {
            let rest = after_last_exec(&l, "version is");
            let t = crate::text::trimmed(rest.as_str());
            proof {
                let k = done.len() as int;
                assert(exists|i: int| 0 <= i < ls.len() && contains(#[trigger] ls[i], "version is"@));
                let c = choose|i: int| 0 <= i < ls.len() && contains(#[trigger] ls[i], "version is"@)
                    && forall|j: int| 0 <= j < i ==> !contains(#[trigger] ls[j], "version is"@);
                assert forall|j: int| 0 <= j < k implies !contains(#[trigger] ls[j], "version is"@) by {
                    assert(ls[j] == done[j]);
                }
                if c < k {
                    assert(ls[c] == done[c]);
                } else if c > k {
                    assert(!contains(ls[k], "version is"@));
                }
                assert(c == k);
            }
            if t.as_str().is_empty() {
                return String::from_str("installed");
            }
            return t;
        }
        proof {
            assert(crate::text::lines_of(v@) =~= done.push(l@) + crate::text::lines_from(v@, next as int));
            done = done.push(l@);
        }
        i = next;
    }
    assert(crate::text::lines_from(v@, i as int) =~= Seq::<Seq<char>>::empty());
    assert(crate::text::lines_of(v@) =~= done);
    String::from_str("installed")
}

/// The text after the last occurrence of `p` in `v`.
fn after_last_exec(v: &Vec<char>, p: &str) -> (r: String)
    ensures
        r@ == after_last(v@, p@),
{
    let pv = chars_of(p);
    let m = pv.len();
    let mut k: usize = v.len();
    let mut tail: Vec<char> = Vec::new();
    // after_last(v[..k], p) == after_last(v, p) minus the tail already taken.
    assert(v@.take(k as int) =~= v@);
    while k > 0 && !(m == 0 || k < m || crate::text::matches_at(v, &pv, k - m))
        invariant
            k <= v@.len(),
            m == p@.len(),
            pv@ == p@,
            after_last(v@, p@) == after_last(v@.take(k as int), p@) + tail@.reverse(),
        decreases k,
    {
        let ghost pre = v@.take(k as int);
        assert(pre.drop_last() =~= v@.take(k - 1));
        assert(crate::text::occurs_at(v@, p@, k - m) == crate::text::ends_with(pre, p@)) by {
            if k >= m {
                assert(v@.subrange(k - m, k as int) =~= pre.subrange(k - m, k as int));
            }
        }
        tail.push(v[k - 1]);
        assert(tail@.reverse() =~= seq![v@[k - 1]] + tail@.drop_last().reverse());
        k = k - 1;
        assert(after_last(v@, p@) =~= after_last(v@.take(k as int), p@) + tail@.reverse());
    }
    let ghost pre = v@.take(k as int);
    if k > 0 && m > 0 && k >= m {
        assert(v@.subrange(k - m, k as int) =~= pre.subrange(k - m, k as int));
        assert(after_last(pre, p@) =~= Seq::<char>::empty());
    } else {
        assert(after_last(pre, p@) == pre);
    }
    let mut out = if k > 0 && m > 0 && k >= m { String::new() } else { crate::text::string_of_range(v, 0, k) };
    assert(k == 0 || m == 0 || k < m ==> v@.subrange(0, k as int) =~= pre);
    let mut j: usize = tail.len();
    let ghost head = out@;
    while j > 0
        invariant
            j <= tail@.len(),
            out@ == head + tail@.reverse().take(tail@.len() - j),
        decreases j,
    {
        j = j - 1;
        crate::text::push_char(&mut out, tail[j]);
        assert(out@ =~= head + tail@.reverse().take(tail@.len() - j));
    }
    assert(tail@.reverse().take(tail@.len() as int) =~= tail@.reverse());
    out
}

} // verus!
