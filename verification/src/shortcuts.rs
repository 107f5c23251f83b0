//! The global shortcut that toggles recording.
//!
//! The user assigns it; it is kept in a store and registered with the system at
//! every start. There is none until one is assigned. Registering and storing is
//! done by the caller, who hands in what came of it.
use std::str::FromStr;

use vstd::prelude::*;

use crate::engine::{opt_text, unit_view};
use crate::text::{
    blank_texts_trim_to_nothing, is_blank, join, join3, trimmed, trims_to_nothing,
};

verus! {

/// The store in which the shortcut is kept, beside the recording preferences.
pub const STORE_FILE: &'static str = "recording_preferences.json";

/// The shortcut's own key in that store.
pub const STORE_KEY: &'static str = "toggle_recording_shortcut";

/// A press within this many nanoseconds of the last one that counted is
/// ignored.
pub const TRIGGER_DEBOUNCE: u64 = 700_000_000;

/// A key combination: its modifiers, its key and its id.
#[derive(Debug, Clone, Copy, PartialEq, Eq, Structural)]
pub struct ShortcutKey {
    pub mods: u32,
    pub key: u32,
    pub id: u32,
}

/// Whether a key combination went down or up.
#[derive(Debug, Clone, Copy, PartialEq, Eq, Structural)]
pub enum KeyState {
    Pressed,
    Released,
}

/// The key combination that `global_hotkey` reads in a text, or the words of
/// its error. "CmdOrCtrl" and its like name the Super key where
/// `command_is_super` holds, which is so on macOS, and the Control key elsewhere.
pub uninterp spec fn parsed_shortcut(text: Seq<char>, command_is_super: bool) -> Result<
    ShortcutKey,
    Seq<char>,
>;

/// A text that cannot name the key that differs between systems: plain ASCII
/// without "dor" in whatever case, which "CmdOrCtrl" and its like all hold.
pub open spec fn platform_free(text: Seq<char>) -> bool {
    &&& forall|i: int| 0 <= i < text.len() ==> (#[trigger] text[i] as u32) < 128
    &&& forall|i: int|
        0 <= i < text.len() - 2 ==> !((#[trigger] text[i] == 'd' || text[i] == 'D') && (text[i + 1]
            == 'o' || text[i + 1] == 'O') && (text[i + 2] == 'r' || text[i + 2] == 'R'))
}

/// A key combination or the words of an error.
pub open spec fn key_view(r: Result<ShortcutKey, String>) -> Result<ShortcutKey, Seq<char>> {
    match r {
        Ok(k) => Ok(k),
        Err(e) => Err(e@),
    }
}

/// `global_hotkey::hotkey::HotKey::from_str`, with the hotkey as its modifier
/// bits, its key code and its id, and the error as its words.
///
/// Claimed is that the outcome is `parsed_shortcut` of the text for one of the
/// two meanings of "CmdOrCtrl", that both meanings accept the same texts and
/// reject the others with the same words, and that they agree on a text that
/// cannot name that key. Which of the two a system takes, which keys a text
/// names, and the words of an error, are left unsaid.
#[verifier::external_body]
fn parse_hotkey(text: &str) -> (r: Result<ShortcutKey, String>)
    ensures
        key_view(r) == parsed_shortcut(text@, true) || key_view(r) == parsed_shortcut(text@, false),
        r is Ok <==> parsed_shortcut(text@, true) is Ok,
        r is Ok <==> parsed_shortcut(text@, false) is Ok,
        r is Err ==> key_view(r) == parsed_shortcut(text@, true),
        r is Err ==> key_view(r) == parsed_shortcut(text@, false),
        platform_free(text@) ==> key_view(r) == parsed_shortcut(text@, true),
        platform_free(text@) ==> key_view(r) == parsed_shortcut(text@, false),
{
    match global_hotkey::hotkey::HotKey::from_str(text) {
        Ok(h) => Ok(ShortcutKey { mods: h.mods.bits(), key: h.key as u32, id: h.id }),
        Err(e) => Err(e.to_string()),
    }
}

/// The words for a text that names no key combination.
pub open spec fn shortcut_error(text: Seq<char>) -> Option<Seq<char>> {
    match parsed_shortcut(text, true) {
        Ok(_) => None,
        Err(e) => Some(e),
    }
}

/// The key combination of the current shortcut, if it has one.
pub open spec fn current_key(
    current: Option<Seq<char>>,
    command_is_super: bool,
) -> Option<ShortcutKey> {
    match current {
        Some(text) => match parsed_shortcut(text, command_is_super) {
            Ok(k) => Some(k),
            Err(_) => None,
        },
        None => None,
    }
}

/// A current shortcut, if any, that means the same on every system.
pub open spec fn is_platform_free(current: Option<Seq<char>>) -> bool {
    match current {
        Some(text) => platform_free(text),
        None => true,
    }
}

/// The shortcut that is registered, and when it last toggled recording.
#[derive(Debug)]
pub struct RecordingShortcut {
    current: Option<String>,
    last_trigger: Option<u64>,
}

/// A `RecordingShortcut` with its text as a sequence of characters.
#[verifier::ext_equal]
pub struct RecordingShortcutView {
    pub current: Option<Seq<char>>,
    pub last_trigger: Option<u64>,
}

impl View for RecordingShortcut {
    type V = RecordingShortcutView;

    closed spec fn view(&self) -> RecordingShortcutView {
        RecordingShortcutView {
            current: opt_text(self.current),
            last_trigger: self.last_trigger,
        }
    }
}

/// How long after `since` the time `now` is; a clock that went back counts as
/// standing still.
pub open spec fn elapsed(since: u64, now: u64) -> int {
    if now >= since {
        now - since
    } else {
        0
    }
}

/// A press at `now` comes too soon after the last one that counted.
pub open spec fn too_soon(last: Option<u64>, now: u64) -> bool {
    last matches Some(since) && elapsed(since, now) < TRIGGER_DEBOUNCE
}

/// Whether an event toggles recording: a press of our shortcut, not too soon.
pub open spec fn toggles(
    s: RecordingShortcutView,
    ours: Option<ShortcutKey>,
    state: KeyState,
    key: ShortcutKey,
    now: u64,
) -> bool {
    &&& state == KeyState::Pressed
    &&& ours == Some(key)
    &&& !too_soon(s.last_trigger, now)
}

/// The state after an event.
pub open spec fn after_event(
    s: RecordingShortcutView,
    ours: Option<ShortcutKey>,
    state: KeyState,
    key: ShortcutKey,
    now: u64,
) -> RecordingShortcutView {
    if toggles(s, ours, state, key, now) {
        RecordingShortcutView { last_trigger: Some(now), ..s }
    } else {
        s
    }
}

/// A value in the store, as far as it is read.
#[derive(Debug)]
pub enum StoredValue {
    Text(String),
    /// Anything but text.
    Other,
}

/// The shortcut that the store holds: a text that is not blank.
pub open spec fn saved_shortcut(stored: Option<StoredValue>) -> Option<Seq<char>> {
    match stored {
        Some(StoredValue::Text(s)) => not_blank(Some(s@)),
        _ => None,
    }
}

/// A shortcut, unless it is blank.
pub open spec fn not_blank(shortcut: Option<Seq<char>>) -> Option<Seq<char>> {
    match shortcut {
        Some(s) => if trimmed(s).len() == 0 {
            None
        } else {
            Some(s)
        },
        None => None,
    }
}

/// A message about a shortcut: what, which and why.
pub open spec fn complaint(what: Seq<char>, text: Seq<char>, why: Seq<char>) -> Seq<char> {
    what + " '"@ + text + "': "@ + why
}

fn complain(what: &str, text: &str, why: &str) -> (r: String)
    ensures
        r@ == complaint(what@, text@, why@),
{
    let head = join3(what, " '", text);
    join3(head.as_str(), "': ", why)
}

/// What is done next to set a shortcut.
#[derive(Debug)]
pub enum SettingStep {
    /// Unregister the old shortcut.
    Unregister(String),
    /// Register the new one.
    Register(String),
    /// Open the store.
    OpenStore,
    /// Put the new shortcut into the store, or delete what is there where there
    /// is none, and save.
    Save(Option<String>),
    /// Nothing.
    Done,
}

/// A `SettingStep` with its texts as sequences of characters.
pub enum SettingStepView {
    Unregister(Seq<char>),
    Register(Seq<char>),
    OpenStore,
    Save(Option<Seq<char>>),
    Done,
}

impl View for SettingStep {
    type V = SettingStepView;

    open spec fn view(&self) -> SettingStepView {
        match self {
            SettingStep::Unregister(t) => SettingStepView::Unregister(t@),
            SettingStep::Register(t) => SettingStepView::Register(t@),
            SettingStep::OpenStore => SettingStepView::OpenStore,
            SettingStep::Save(t) => SettingStepView::Save(opt_text(*t)),
            SettingStep::Done => SettingStepView::Done,
        }
    }
}

/// The setting of a shortcut under way.
#[derive(Debug)]
pub struct ShortcutSetting {
    new: Option<String>,
    settled: bool,
    step: SettingStep,
}

/// The setting of a shortcut: the new one, whether it is registered or none is
/// needed, and what is done next.
#[verifier::ext_equal]
pub struct ShortcutSettingView {
    pub new: Option<Seq<char>>,
    pub settled: bool,
    pub step: SettingStepView,
}

impl View for ShortcutSetting {
    type V = ShortcutSettingView;

    closed spec fn view(&self) -> ShortcutSettingView {
        ShortcutSettingView {
            new: opt_text(self.new),
            settled: self.settled,
            step: self.step@,
        }
    }
}

impl ShortcutSettingView {
    /// What every operation keeps: the new shortcut is what is registered and
    /// stored, and the store is touched only once it is registered or none is
    /// needed.
    pub open spec fn wf(self) -> bool {
        match self.step {
            SettingStepView::Unregister(_) => !self.settled,
            SettingStepView::Register(t) => !self.settled && self.new == Some(t),
            SettingStepView::OpenStore => self.settled,
            SettingStepView::Save(t) => self.settled && t == self.new,
            SettingStepView::Done => true,
        }
    }

    /// The setting once the old shortcut is out of the way.
    pub open spec fn at_registration(self) -> ShortcutSettingView {
        match self.new {
            Some(t) => ShortcutSettingView { step: SettingStepView::Register(t), ..self },
            None => ShortcutSettingView {
                settled: true,
                step: SettingStepView::OpenStore,
                ..self
            },
        }
    }

    /// The setting once its step has succeeded, or failed. An old shortcut that
    /// cannot be unregistered does not matter; any other failure is the end.
    pub open spec fn after(self, succeeded: bool) -> ShortcutSettingView {
        match self.step {
            SettingStepView::Unregister(_) => self.at_registration(),
            SettingStepView::Register(_) if succeeded => ShortcutSettingView {
                settled: true,
                step: SettingStepView::OpenStore,
                ..self
            },
            SettingStepView::OpenStore if succeeded => ShortcutSettingView {
                step: SettingStepView::Save(self.new),
                ..self
            },
            _ => ShortcutSettingView { step: SettingStepView::Done, ..self },
        }
    }
}

/// The setting of `new` in place of the registered shortcut `previous`.
pub open spec fn setting_begun(
    previous: Option<Seq<char>>,
    new: Option<Seq<char>>,
) -> ShortcutSettingView {
    match previous {
        Some(t) => ShortcutSettingView {
            new,
            settled: false,
            step: SettingStepView::Unregister(t),
        },
        None => (ShortcutSettingView {
            new,
            settled: false,
            step: SettingStepView::Done,
        }).at_registration(),
    }
}

/// What is said of the outcome of a step.
pub open spec fn step_words(
    step: SettingStepView,
    outcome: Result<(), Seq<char>>,
) -> Result<(), Seq<char>> {
    match (step, outcome) {
        (SettingStepView::Register(t), Err(e)) => Err(
            complaint("Failed to register shortcut"@, t, e),
        ),
        (SettingStepView::OpenStore, Err(e)) => Err("Failed to access store: "@ + e),
        (SettingStepView::Save(_), Err(e)) => Err("Failed to persist shortcut: "@ + e),
        _ => Ok(()),
    }
}

/// The steps that are taken from here on, where `succeeds` says which succeed.
pub open spec fn steps_taken(
    s: ShortcutSettingView,
    succeeds: spec_fn(SettingStepView) -> bool,
) -> Seq<SettingStepView>
    decreases
            match s.step {
                SettingStepView::Unregister(_) => 4int,
                SettingStepView::Register(_) => 3int,
                SettingStepView::OpenStore => 2int,
                SettingStepView::Save(_) => 1int,
                SettingStepView::Done => 0int,
            },
{
    match s.step {
        SettingStepView::Done => Seq::empty(),
        step => seq![step] + steps_taken(s.after(succeeds(step)), succeeds),
    }
}

/// The old shortcut is unregistered before the new one is registered, and the
/// store is opened and written only once the new one is registered or none is
/// needed. A registration that is refused leaves the store alone.
pub proof fn steps_come_in_order(
    previous: Option<Seq<char>>,
    new: Option<Seq<char>>,
    succeeds: spec_fn(SettingStepView) -> bool,
)
    ensures
        steps_taken(setting_begun(previous, new), succeeds) == (match previous {
            Some(t) => seq![SettingStepView::Unregister(t)],
            None => seq![],
        }) + (match new {
            Some(t) => seq![SettingStepView::Register(t)],
            None => seq![],
        }) + (if new matches Some(t) && !succeeds(SettingStepView::Register(t)) {
            seq![]
        } else if !succeeds(SettingStepView::OpenStore) {
            seq![SettingStepView::OpenStore]
        } else {
            seq![SettingStepView::OpenStore, SettingStepView::Save(new)]
        }),
{
    reveal_with_fuel(steps_taken, 5);
    let steps = steps_taken(setting_begun(previous, new), succeeds);
    assert(steps =~= (match previous {
        Some(t) => seq![SettingStepView::Unregister(t)],
        None => seq![],
    }) + (match new {
        Some(t) => seq![SettingStepView::Register(t)],
        None => seq![],
    }) + (if new matches Some(t) && !succeeds(SettingStepView::Register(t)) {
        seq![]
    } else if !succeeds(SettingStepView::OpenStore) {
        seq![SettingStepView::OpenStore]
    } else {
        seq![SettingStepView::OpenStore, SettingStepView::Save(new)]
    }));
}

/// The outcome of a registration of `text`, whose parse failed with `error` if
/// any: success, or the words of the failure.
pub open spec fn registration(
    text: Seq<char>,
    error: Option<Seq<char>>,
    registered: Result<(), String>,
) -> Result<(), Seq<char>> {
    match error {
        Some(e) => Err(complaint("Invalid shortcut"@, text, e)),
        None => match registered {
            Err(e) => Err(complaint("Failed to register shortcut"@, text, e@)),
            Ok(_) => Ok(()),
        },
    }
}

/// The outcome of storing a shortcut.
pub open spec fn storing(
    opened: Result<(), String>,
    saved: Result<(), String>,
) -> Result<(), Seq<char>> {
    match opened {
        Err(e) => Err("Failed to access store: "@ + e@),
        Ok(_) => match saved {
            Err(e) => Err("Failed to persist shortcut: "@ + e@),
            Ok(_) => Ok(()),
        },
    }
}

/// The outcome of setting the shortcut to `new`, whose parse failed with
/// `error` if any.
pub open spec fn setting(
    new: Option<Seq<char>>,
    error: Option<Seq<char>>,
    registered: Result<(), String>,
    opened: Result<(), String>,
    saved: Result<(), String>,
) -> Result<(), Seq<char>> {
    match new {
        Some(text) => match registration(text, error, registered) {
            Err(e) => Err(e),
            Ok(_) => storing(opened, saved),
        },
        None => storing(opened, saved),
    }
}

/// The current shortcut after that: an invalid one leaves the old in place; a
/// valid one replaces it, or nothing does where it cannot be registered.
pub open spec fn current_after_setting(
    old_current: Option<Seq<char>>,
    new: Option<Seq<char>>,
    error: Option<Seq<char>>,
    registered: Result<(), String>,
) -> Option<Seq<char>> {
    match new {
        Some(text) => if error is Some {
            old_current
        } else if registered is Ok {
            Some(text)
        } else {
            None
        },
        None => None,
    }
}

impl RecordingShortcut {
    /// No shortcut.
    pub fn new() -> (r: RecordingShortcut)
        ensures
            r@ == (RecordingShortcutView { current: None, last_trigger: None }),
    {
        RecordingShortcut { current: None, last_trigger: None }
    }

    /// The current shortcut.
    pub fn current(&self) -> (r: Option<String>)
        ensures
            opt_text(r) == self@.current,
    {
        match &self.current {
            Some(s) => Some(s.clone()),
            None => None,
        }
    }

    /// Takes an event, given the key combination of our shortcut, if any, and
    /// says whether it toggles recording.
    pub fn accept_event(
        &mut self,
        ours: Option<ShortcutKey>,
        state: KeyState,
        key: ShortcutKey,
        now: u64,
    ) -> (r: bool)
        ensures
            r == toggles(old(self)@, ours, state, key, now),
            final(self)@ == after_event(old(self)@, ours, state, key, now),
    {
        match state {
            KeyState::Pressed => {},
            KeyState::Released => {
                return false;
            },
        }
        let is_ours = match ours {
            Some(k) => k == key,
            None => false,
        };
        if !is_ours {
            return false;
        }
        if let Some(since) = self.last_trigger {
            if now < since || now - since < TRIGGER_DEBOUNCE {
                return false;
            }
        }
        self.last_trigger = Some(now);
        true
    }

    /// Makes a text the current shortcut, given the error of its parse, if any,
    /// and what came of registering it.
    pub fn accept_registration(
        &mut self,
        shortcut: &str,
        error: Option<String>,
        registered: Result<(), String>,
    ) -> (r: Result<(), String>)
        ensures
            unit_view(r) == registration(shortcut@, opt_text(error), registered),
            final(self)@ == (RecordingShortcutView {
                current: if r is Ok {
                    Some(shortcut@)
                } else {
                    old(self)@.current
                },
                ..old(self)@
            }),
    {
        if let Some(e) = error {
            return Err(complain("Invalid shortcut", shortcut, e.as_str()));
        }
        match registered {
            Err(e) => Err(complain("Failed to register shortcut", shortcut, e.as_str())),
            Ok(_) => {
                self.current = Some(shortcut.to_owned());
                Ok(())
            },
        }
    }

    /// Makes a text the current shortcut, given what came of registering it.
    /// Only a text that names a key combination is to be registered.
    pub fn register(&mut self, shortcut: &str, registered: Result<(), String>) -> (r: Result<
        (),
        String,
    >)
        ensures
            unit_view(r) == registration(shortcut@, shortcut_error(shortcut@), registered),
            final(self)@ == (RecordingShortcutView {
                current: if r is Ok {
                    Some(shortcut@)
                } else {
                    old(self)@.current
                },
                ..old(self)@
            }),
    {
        let error = parse_error(shortcut);
        self.accept_registration(shortcut, error, registered)
    }

    /// Gives the current shortcut up and says which is to be unregistered: the
    /// one given up, if it names a key combination.
    pub fn unregister_current(&mut self) -> (r: Option<String>)
        ensures
            final(self)@ == (RecordingShortcutView { current: None, ..old(self)@ }),
            opt_text(r) == registered_text(old(self)@.current),
    {
        let error = self.current_error();
        self.release_current(error)
    }

    fn current_error(&self) -> (r: Option<String>)
        ensures
            opt_text(r) == error_of(self@.current),
    {
        match &self.current {
            None => None,
            Some(text) => parse_error(text.as_str()),
        }
    }

    fn release_current(&mut self, error: Option<String>) -> (r: Option<String>)
        ensures
            final(self)@ == (RecordingShortcutView { current: None, ..old(self)@ }),
            opt_text(r) == released(old(self)@.current, opt_text(error)),
    {
        let current = match &self.current {
            None => None,
            Some(text) => Some(text.clone()),
        };
        self.current = None;
        match error {
            Some(_) => None,
            None => current,
        }
    }

    /// Begins to set a shortcut, none if it is blank, given the error of its
    /// parse, if any, and that of the current one's. A shortcut that names no
    /// key combination is refused and leaves the current one in place; else the
    /// current one is given up.
    pub fn begin_checked_setting(
        &mut self,
        shortcut: &Option<String>,
        error: Option<String>,
        current_error: Option<String>,
    ) -> (r: Result<ShortcutSetting, String>)
        ensures
            is_begun(
                old(self)@,
                not_blank(opt_text(*shortcut)),
                opt_text(error),
                opt_text(current_error),
                r,
                final(self)@,
            ),
    {
        let new = without_blank(shortcut);
        if let Some(text) = &new {
            if let Some(e) = &error {
                return Err(complain("Invalid shortcut", text.as_str(), e.as_str()));
            }
        }
        let previous = self.release_current(current_error);
        match previous {
            Some(text) => Ok(
                ShortcutSetting { new, settled: false, step: SettingStep::Unregister(text) },
            ),
            None => {
                let mut setting = ShortcutSetting {
                    new,
                    settled: false,
                    step: SettingStep::Done,
                };
                setting.go_to_registration();
                Ok(setting)
            },
        }
    }

    /// Begins to set a shortcut, none if it is blank.
    pub fn begin_setting(&mut self, shortcut: &Option<String>) -> (r: Result<
        ShortcutSetting,
        String,
    >)
        ensures
            is_begun(
                old(self)@,
                not_blank(opt_text(*shortcut)),
                error_of(not_blank(opt_text(*shortcut))),
                error_of(old(self)@.current),
                r,
                final(self)@,
            ),
    {
        let error = match without_blank(shortcut) {
            Some(text) => parse_error(text.as_str()),
            None => None,
        };
        let current_error = self.current_error();
        self.begin_checked_setting(shortcut, error, current_error)
    }

    /// Sets the shortcut, given the error of its parse, if any, and what came
    /// of registering it, of opening the store and of saving it.
    pub fn accept_setting(
        &mut self,
        shortcut: &Option<String>,
        error: Option<String>,
        registered: Result<(), String>,
        opened: Result<(), String>,
        saved: Result<(), String>,
    ) -> (r: Result<(), String>)
        ensures
            unit_view(r) == setting(
                not_blank(opt_text(*shortcut)),
                opt_text(error),
                registered,
                opened,
                saved,
            ),
            final(self)@ == (RecordingShortcutView {
                current: current_after_setting(
                    old(self)@.current,
                    not_blank(opt_text(*shortcut)),
                    opt_text(error),
                    registered,
                ),
                ..old(self)@
            }),
    {
        let mut setting = match self.begin_checked_setting(shortcut, error, None) {
            Err(e) => {
                return Err(e);
            },
            Ok(setting) => setting,
        };
        match setting.next() {
            SettingStep::Unregister(_) => {
                let _ = setting.accept(self, Ok(()));
            },
            _ => {},
        }
        match setting.next() {
            SettingStep::Register(_) => match setting.accept(self, registered) {
                Err(e) => {
                    return Err(e);
                },
                Ok(_) => {},
            },
            _ => {},
        }
        match setting.accept(self, opened) {
            Err(e) => {
                return Err(e);
            },
            Ok(_) => {},
        }
        setting.accept(self, saved)
    }
}

impl ShortcutSetting {
    fn go_to_registration(&mut self)
        ensures
            final(self)@ == old(self)@.at_registration(),
    {
        match &self.new {
            Some(text) => {
                self.step = SettingStep::Register(text.clone());
            },
            None => {
                self.settled = true;
                self.step = SettingStep::OpenStore;
            },
        }
    }

    /// Says what is done next. The store is touched only once the new shortcut
    /// is registered, or where there is none to register.
    pub fn next(&self) -> (r: SettingStep)
        requires
            self@.wf(),
        ensures
            r@ == self@.step,
            r is OpenStore || r is Save ==> self@.settled,
    {
        match &self.step {
            SettingStep::Unregister(t) => SettingStep::Unregister(t.clone()),
            SettingStep::Register(t) => SettingStep::Register(t.clone()),
            SettingStep::OpenStore => SettingStep::OpenStore,
            SettingStep::Save(Some(t)) => SettingStep::Save(Some(t.clone())),
            SettingStep::Save(None) => SettingStep::Save(None),
            SettingStep::Done => SettingStep::Done,
        }
    }

    /// Takes what came of the step and says what the user is told of it. A
    /// shortcut that was registered becomes the current one.
    pub fn accept(
        &mut self,
        state: &mut RecordingShortcut,
        outcome: Result<(), String>,
    ) -> (r: Result<(), String>)
        requires
            old(self)@.wf(),
        ensures
            final(self)@.wf(),
            final(self)@ == old(self)@.after(outcome is Ok),
            unit_view(r) == step_words(old(self)@.step, unit_view(outcome)),
            final(state)@ == match (old(self)@.step, outcome) {
                (SettingStepView::Register(t), Ok(_)) => RecordingShortcutView {
                    current: Some(t),
                    ..old(state)@
                },
                _ => old(state)@,
            },
    {
        match &self.step {
            SettingStep::Unregister(_) => {
                self.go_to_registration();
                Ok(())
            },
            SettingStep::Register(text) => {
                let r = state.accept_registration(text.as_str(), None, outcome);
                if r.is_ok() {
                    self.settled = true;
                    self.step = SettingStep::OpenStore;
                } else {
                    self.step = SettingStep::Done;
                }
                r
            },
            SettingStep::OpenStore => match outcome {
                Ok(_) => {
                    let new = match &self.new {
                        Some(text) => Some(text.clone()),
                        None => None,
                    };
                    self.step = SettingStep::Save(new);
                    Ok(())
                },
                Err(e) => {
                    self.step = SettingStep::Done;
                    Err(join("Failed to access store: ", e.as_str()))
                },
            },
            SettingStep::Save(_) => {
                self.step = SettingStep::Done;
                match outcome {
                    Ok(_) => Ok(()),
                    Err(e) => Err(join("Failed to persist shortcut: ", e.as_str())),
                }
            },
            SettingStep::Done => Ok(()),
        }
    }
}

/// What is to be unregistered of the current shortcut, whose parse failed with
/// `error` if any: it, if it names a key combination.
pub open spec fn released(
    current: Option<Seq<char>>,
    error: Option<Seq<char>>,
) -> Option<Seq<char>> {
    if error is Some {
        None
    } else {
        current
    }
}

/// `r` and the state `after` are what the beginning of a setting of `new` gives.
pub open spec fn is_begun(
    before: RecordingShortcutView,
    new: Option<Seq<char>>,
    error: Option<Seq<char>>,
    current_error: Option<Seq<char>>,
    r: Result<ShortcutSetting, String>,
    after: RecordingShortcutView,
) -> bool {
    match (new, error) {
        (Some(text), Some(e)) => {
            &&& r matches Err(words)
            &&& words@ == complaint("Invalid shortcut"@, text, e)
            &&& after == before
        },
        _ => {
            &&& r matches Ok(setting)
            &&& setting@ == setting_begun(released(before.current, current_error), new)
            &&& setting@.wf()
            &&& after == (RecordingShortcutView { current: None, ..before })
        },
    }
}

/// The error of an optional text's parse.
pub open spec fn error_of(text: Option<Seq<char>>) -> Option<Seq<char>> {
    match text {
        Some(t) => shortcut_error(t),
        None => None,
    }
}

/// The current shortcut, if it names a key combination.
pub open spec fn registered_text(current: Option<Seq<char>>) -> Option<Seq<char>> {
    match current {
        Some(t) => if shortcut_error(t) is None {
            Some(t)
        } else {
            None
        },
        None => None,
    }
}

/// Why a text names no key combination, if it does not.
pub fn parse_error(text: &str) -> (r: Option<String>)
    ensures
        opt_text(r) == shortcut_error(text@),
{
    match parse_hotkey(text) {
        Ok(_) => None,
        Err(e) => Some(e),
    }
}

/// The key combination that a text names, or why it names none.
pub fn parse_shortcut(text: &str) -> (r: Result<ShortcutKey, String>)
    ensures
        match r {
            Ok(k) => shortcut_error(text@) is None && exists|command_is_super: bool|
                #[trigger] parsed_shortcut(text@, command_is_super) == Ok::<
                    ShortcutKey,
                    Seq<char>,
                >(k),
            Err(e) => shortcut_error(text@) == Some(e@),
        },
        platform_free(text@) ==> key_view(r) == parsed_shortcut(text@, true) && key_view(r)
            == parsed_shortcut(text@, false),
{
    parse_hotkey(text)
}

fn without_blank(shortcut: &Option<String>) -> (r: Option<String>)
    ensures
        opt_text(r) == not_blank(opt_text(*shortcut)),
{
    match shortcut {
        None => None,
        Some(s) => if trims_to_nothing(s.as_str()) {
            None
        } else {
            Some(s.clone())
        },
    }
}

/// The shortcut that the store holds.
pub fn load_saved_shortcut(stored: Option<StoredValue>) -> (r: Option<String>)
    ensures
        opt_text(r) == saved_shortcut(stored),
{
    match stored {
        Some(StoredValue::Text(s)) => without_blank(&Some(s)),
        _ => None,
    }
}

/// The shortcut to register when the application starts: the one that the store
/// holds, if it names a key combination.
pub fn shortcut_to_register(stored: &Option<StoredValue>) -> (r: Option<String>)
    ensures
        opt_text(r) == registered_text(saved_shortcut(*stored)),
{
    let text = match stored {
        Some(StoredValue::Text(s)) => without_blank(&Some(s.clone())),
        _ => None,
    };
    match text {
        None => None,
        Some(t) => match parse_error(t.as_str()) {
            Some(_) => None,
            None => Some(t),
        },
    }
}

/// The shortcut that is assigned.
pub fn get_toggle_recording_shortcut(stored: Option<StoredValue>) -> (r: Result<
    Option<String>,
    String,
>)
    ensures
        r matches Ok(shortcut) && opt_text(shortcut) == saved_shortcut(stored),
{
    Ok(load_saved_shortcut(stored))
}

/// Takes an event of a key combination at the time `now`, in nanoseconds,
/// and says whether it toggles recording.
pub fn handle_shortcut_event(
    shortcut: &mut RecordingShortcut,
    key: ShortcutKey,
    state: KeyState,
    now: u64,
) -> (r: bool)
    ensures
        exists|command_is_super: bool|
            {
                let ours = #[trigger] current_key(old(shortcut)@.current, command_is_super);
                &&& r == toggles(old(shortcut)@, ours, state, key, now)
                &&& final(shortcut)@ == after_event(old(shortcut)@, ours, state, key, now)
            },
        is_platform_free(old(shortcut)@.current) ==> {
            let ours = current_key(old(shortcut)@.current, true);
            &&& ours == current_key(old(shortcut)@.current, false)
            &&& r == toggles(old(shortcut)@, ours, state, key, now)
            &&& final(shortcut)@ == after_event(old(shortcut)@, ours, state, key, now)
        },
{
    let ours = match &shortcut.current {
        Some(text) => match parse_hotkey(text.as_str()) {
            Ok(k) => Some(k),
            Err(_) => None,
        },
        None => None,
    };
    proof {
        if ours == current_key(shortcut@.current, true) {
            assert(ours == current_key(old(shortcut)@.current, true));
        } else {
            assert(ours == current_key(old(shortcut)@.current, false));
        }
    }
    shortcut.accept_event(ours, state, key, now)
}

/// Sets the shortcut, or clears it where it is blank or none, by the steps of
/// `begin_setting`. `registered`, `opened` and `saved` say what came of these;
/// each counts only where its step is taken.
pub fn set_toggle_recording_shortcut(
    state: &mut RecordingShortcut,
    shortcut: &Option<String>,
    registered: Result<(), String>,
    opened: Result<(), String>,
    saved: Result<(), String>,
) -> (r: Result<(), String>)
    ensures
        unit_view(r) == setting(
            not_blank(opt_text(*shortcut)),
            error_of(not_blank(opt_text(*shortcut))),
            registered,
            opened,
            saved,
        ),
        final(state)@ == (RecordingShortcutView {
            current: current_after_setting(
                old(state)@.current,
                not_blank(opt_text(*shortcut)),
                error_of(not_blank(opt_text(*shortcut))),
                registered,
            ),
            ..old(state)@
        }),
{
    let error = match without_blank(shortcut) {
        Some(text) => parse_error(text.as_str()),
        None => None,
    };
    state.accept_setting(shortcut, error, registered, opened, saved)
}

/// Makes the shortcut that the store holds, if any, the current one, given what
/// came of registering it; that counts only where `shortcut_to_register` gives
/// one.
pub fn init(
    state: &mut RecordingShortcut,
    stored: Option<StoredValue>,
    registered: Result<(), String>,
) -> (r: Result<Option<String>, String>)
    ensures
        match saved_shortcut(stored) {
            None => {
                &&& r matches Ok(None)
                &&& final(state)@ == old(state)@
            },
            Some(text) => match registration(text, shortcut_error(text), registered) {
                Ok(_) => {
                    &&& r matches Ok(Some(name))
                    &&& name@ == text
                    &&& final(state)@ == (RecordingShortcutView {
                        current: Some(text),
                        ..old(state)@
                    })
                },
                Err(words) => {
                    &&& r matches Err(e)
                    &&& e@ == words
                    &&& final(state)@ == old(state)@
                },
            },
        },
{
    match load_saved_shortcut(stored) {
        None => Ok(None),
        Some(text) => match state.register(text.as_str(), registered) {
            Ok(_) => Ok(Some(text)),
            Err(e) => Err(e),
        },
    }
}

/// A press within the debounce of one that counted is ignored and does not
/// prolong the wait; the first one after it counts.
pub proof fn rapid_presses_toggle_once(
    s: RecordingShortcutView,
    key: ShortcutKey,
    first: u64,
    second: u64,
    third: u64,
)
    requires
        toggles(s, Some(key), KeyState::Pressed, key, first),
        elapsed(first, second) < TRIGGER_DEBOUNCE,
        elapsed(first, third) >= TRIGGER_DEBOUNCE,
    ensures
        ({
            let after_first = after_event(s, Some(key), KeyState::Pressed, key, first);
            let after_second = after_event(
                after_first,
                Some(key),
                KeyState::Pressed,
                key,
                second,
            );
            &&& !toggles(after_first, Some(key), KeyState::Pressed, key, second)
            &&& after_second == after_first
            &&& toggles(after_second, Some(key), KeyState::Pressed, key, third)
        }),
{
}

/// Without a shortcut nothing toggles recording, nor does a release or another
/// key combination; none of these changes anything.
pub proof fn other_events_are_ignored(
    s: RecordingShortcutView,
    ours: Option<ShortcutKey>,
    state: KeyState,
    key: ShortcutKey,
    now: u64,
    command_is_super: bool,
)
    requires
        state == KeyState::Released || ours != Some(key),
    ensures
        current_key(None, command_is_super) is None,
        !toggles(s, ours, state, key, now),
        after_event(s, ours, state, key, now) == s,
{
}

/// A shortcut that names no key combination is refused before anything is
/// touched: the old one stays.
pub proof fn invalid_shortcut_keeps_the_old(
    current: Option<Seq<char>>,
    text: Seq<char>,
    registered: Result<(), String>,
    opened: Result<(), String>,
    saved: Result<(), String>,
)
    requires
        shortcut_error(text) is Some,
    ensures
        current_after_setting(current, Some(text), shortcut_error(text), registered) == current,
        setting(Some(text), shortcut_error(text), registered, opened, saved) is Err,
{
}

/// A shortcut that was set toggles recording when it is pressed, unless that is
/// too soon after the last press that counted.
pub proof fn set_shortcut_toggles(
    s: RecordingShortcutView,
    text: Seq<char>,
    registered: Result<(), String>,
    command_is_super: bool,
    key: ShortcutKey,
    now: u64,
)
    requires
        shortcut_error(text) is None,
        registered is Ok,
        parsed_shortcut(text, command_is_super) == Ok::<ShortcutKey, Seq<char>>(key),
        !too_soon(s.last_trigger, now),
    ensures
        ({
            let current = current_after_setting(
                s.current,
                Some(text),
                shortcut_error(text),
                registered,
            );
            toggles(
                RecordingShortcutView { current, ..s },
                current_key(current, command_is_super),
                KeyState::Pressed,
                key,
                now,
            )
        }),
{
}

/// The store holds `new`: its text, or nothing where there is none.
pub open spec fn holds(stored: Option<StoredValue>, new: Option<Seq<char>>) -> bool {
    match new {
        Some(t) => stored matches Some(StoredValue::Text(s)) && s@ == t,
        None => stored is None,
    }
}

/// The store gives the shortcut back that was set and stored, at the next start
/// too; a cleared one stays cleared.
pub proof fn setting_survives_restart(shortcut: Option<Seq<char>>, stored: Option<StoredValue>)
    requires
        holds(stored, not_blank(shortcut)),
    ensures
        saved_shortcut(stored) == not_blank(shortcut),
{
}

/// A shortcut is blank if and only if it consists of white space.
pub proof fn blank_shortcuts_are_none(text: Seq<char>)
    ensures
        not_blank(Some(text)) is None <==> is_blank(text),
{
    blank_texts_trim_to_nothing(text);
}

/// On the clock itself: a press of our shortcut toggles recording whenever 700
/// milliseconds or more have passed since the last one that did, however much
/// later it is, and never before. The first press always does.
pub proof fn presses_count_from_700_milliseconds_on(
    s: RecordingShortcutView,
    key: ShortcutKey,
    last: u64,
    now: u64,
)
    ensures
        s.last_trigger == Some(last) ==> (toggles(s, Some(key), KeyState::Pressed, key, now)
            <==> now >= last + 700_000_000),
        s.last_trigger is None ==> toggles(s, Some(key), KeyState::Pressed, key, now),
{
}

/// Two presses of our shortcut, the first of which toggles: the second does if
/// and only if it comes 700 milliseconds later or more.
pub proof fn second_press_counts_by_the_clock(
    s: RecordingShortcutView,
    key: ShortcutKey,
    first: u64,
    second: u64,
)
    requires
        toggles(s, Some(key), KeyState::Pressed, key, first),
    ensures
        toggles(
            after_event(s, Some(key), KeyState::Pressed, key, first),
            Some(key),
            KeyState::Pressed,
            key,
            second,
        ) <==> second >= first + 700_000_000,
{
}

/// Only a press of our own key combination toggles recording.
pub proof fn only_our_presses_toggle(
    s: RecordingShortcutView,
    ours: Option<ShortcutKey>,
    state: KeyState,
    key: ShortcutKey,
    now: u64,
)
    ensures
        toggles(s, ours, state, key, now) ==> state == KeyState::Pressed && ours == Some(key),
        after_event(s, ours, state, key, now).current == s.current,
        toggles(s, ours, state, key, now) ==> after_event(s, ours, state, key, now).last_trigger
            == Some(now),
        !toggles(s, ours, state, key, now) ==> after_event(s, ours, state, key, now).last_trigger
            == s.last_trigger,
{
}

/// A shortcut is kept letter for letter, or is none where it is white space.
pub proof fn shortcuts_are_kept_as_given(text: Seq<char>, stored: Option<StoredValue>)
    ensures
        is_blank(text) ==> not_blank(Some(text)) is None,
        !is_blank(text) ==> not_blank(Some(text)) == Some(text),
        not_blank(None) is None,
        stored matches Some(StoredValue::Text(s)) ==> saved_shortcut(stored) == not_blank(Some(s@)),
        !(stored matches Some(StoredValue::Text(_))) ==> saved_shortcut(stored) is None,
{
    blank_texts_trim_to_nothing(text);
}

/// A message holds the whole text of the shortcut, and ends with the reason.
pub proof fn complaints_name_shortcut_and_reason(what: Seq<char>, text: Seq<char>, why: Seq<char>)
    ensures
        complaint(what, text, why).len() == what.len() + text.len() + why.len() + 5,
        complaint(what, text, why).take(what.len() as int) == what,
        complaint(what, text, why).subrange(
            what.len() as int + 2,
            what.len() as int + 2 + text.len(),
        ) == text,
        complaint(what, text, why).skip(what.len() as int + 5 + text.len()) == why,
{
    reveal_strlit(" '");
    reveal_strlit("': ");
    let all = complaint(what, text, why);
    assert(all.take(what.len() as int) =~= what);
    assert(all.subrange(what.len() as int + 2, what.len() as int + 2 + text.len()) =~= text);
    assert(all.skip(what.len() as int + 5 + text.len()) =~= why);
}

/// A failed step ends the setting, but for an old shortcut that cannot be
/// unregistered; the words of a failure end with the system's.
pub proof fn failed_steps_are_told(s: ShortcutSettingView, e: Seq<char>)
    requires
        !(s.step is Unregister),
        !(s.step is Done),
    ensures
        s.after(false).step is Done,
        step_words(s.step, Err(e)) matches Err(words) && words.len() >= e.len() && words.skip(
            words.len() - e.len(),
        ) == e,
        step_words(s.step, Ok(())) is Ok,
{
    let words = step_words(s.step, Err(e))->Err_0;
    assert(words.skip(words.len() - e.len()) =~= e);
}

/// A setting that succeeds leaves the new shortcut current; one whose
/// registration is refused leaves none; one of a shortcut that names no key
/// combination leaves the old. It succeeds if and only if every step does.
pub proof fn setting_leaves_the_new_shortcut(
    current: Option<Seq<char>>,
    new: Option<Seq<char>>,
    error: Option<Seq<char>>,
    registered: Result<(), String>,
    opened: Result<(), String>,
    saved: Result<(), String>,
)
    ensures
        setting(new, error, registered, opened, saved) is Ok <==> {
            &&& new is Some ==> error is None && registered is Ok
            &&& opened is Ok
            &&& saved is Ok
        },
        setting(new, error, registered, opened, saved) is Ok ==> current_after_setting(
            current,
            new,
            error,
            registered,
        ) == new,
        new is Some && error is None && registered is Err ==> current_after_setting(
            current,
            new,
            error,
            registered,
        ) is None,
        new is Some && error is Some ==> current_after_setting(current, new, error, registered)
            == current,
{
}

/// A registration succeeds if and only if the text names a key combination and
/// the system takes it; else the words hold the text and the reason, of which
/// that of the text comes first.
pub proof fn registrations_need_key_and_system(
    text: Seq<char>,
    error: Option<Seq<char>>,
    registered: Result<(), String>,
)
    ensures
        registration(text, error, registered) is Ok <==> error is None && registered is Ok,
        error matches Some(e) ==> registration(text, error, registered) == Err::<(), Seq<char>>(
            complaint("Invalid shortcut"@, text, e),
        ),
        error is None ==> (registered matches Err(e) ==> registration(text, error, registered)
            == Err::<(), Seq<char>>(complaint("Failed to register shortcut"@, text, e@))),
{
}

/// The key combination of the current shortcut is the one that its whole text
/// names; a text that names none is neither registered nor unregistered.
pub proof fn current_key_is_that_of_the_text(text: Seq<char>, command_is_super: bool)
    ensures
        parsed_shortcut(text, command_is_super) matches Ok(k) ==> current_key(
            Some(text),
            command_is_super,
        ) == Some(k),
        parsed_shortcut(text, command_is_super) is Err ==> current_key(
            Some(text),
            command_is_super,
        ) is None,
        parsed_shortcut(text, true) matches Err(e) ==> shortcut_error(text) == Some(e)
            && registered_text(Some(text)) is None,
        parsed_shortcut(text, true) is Ok ==> shortcut_error(text) is None && registered_text(
            Some(text),
        ) == Some(text),
        error_of(Some(text)) == shortcut_error(text),
        registered_text(None) is None && error_of(None) is None,
{
}

/// A setting begins with the new shortcut as it was given and gives the old one
/// up, which is then unregistered where it names a key combination. When the
/// last press counted is not forgotten.
pub proof fn settings_begin_with_what_was_given(
    before: RecordingShortcutView,
    new: Option<Seq<char>>,
    error: Option<Seq<char>>,
    r: Result<ShortcutSetting, String>,
    after: RecordingShortcutView,
)
    requires
        is_begun(before, new, error, error_of(before.current), r, after),
    ensures
        r is Err <==> new is Some && error is Some,
        r is Err ==> after == before,
        r matches Ok(s) ==> {
            &&& s@.new == new
            &&& after.current is None
            &&& after.last_trigger == before.last_trigger
            &&& registered_text(before.current) matches Some(t) ==> s@.step
                == SettingStepView::Unregister(t)
            &&& registered_text(before.current) is None && new is Some ==> s@.step
                == SettingStepView::Register(new->0)
            &&& registered_text(before.current) is None && new is None ==> s@.step
                == SettingStepView::OpenStore
        },
{
}

/// A setting goes on with the new shortcut as it was given: that is what is
/// registered and what is stored.
pub proof fn settings_go_on_with_what_was_given(s: ShortcutSettingView, succeeded: bool)
    ensures
        s.after(succeeded).new == s.new,
        s.step is Unregister && s.new is Some ==> s.after(succeeded).step
            == SettingStepView::Register(s.new->0),
        s.step is Unregister && s.new is None ==> s.after(succeeded).step
            == SettingStepView::OpenStore,
        s.step is Register ==> s.after(true).step == SettingStepView::OpenStore,
        s.step is OpenStore ==> s.after(true).step == SettingStepView::Save(s.new),
        s.step is Save || s.step is Done ==> s.after(succeeded).step is Done,
{
}

/// Key combinations and steps stand for themselves.
pub proof fn shortcuts_stand_for_themselves(k: ShortcutKey, text: String)
    ensures
        key_view(Ok(k)) == Ok::<ShortcutKey, Seq<char>>(k),
        key_view(Err(text)) == Err::<ShortcutKey, Seq<char>>(text@),
        SettingStep::Unregister(text)@ == SettingStepView::Unregister(text@),
        SettingStep::Register(text)@ == SettingStepView::Register(text@),
        SettingStep::OpenStore@ == SettingStepView::OpenStore,
        SettingStep::Save(Some(text))@ == SettingStepView::Save(Some(text@)),
        SettingStep::Save(None)@ == SettingStepView::Save(None),
        SettingStep::Done@ == SettingStepView::Done,
{
}

} // verus!
