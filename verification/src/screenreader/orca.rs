//! The manager of the Orca screen reader.
use crate::screenreader::json::json_in;
use crate::screenreader::settings::{
    is_loaded, is_text_or_error, load_values, option_checked, set_orca_enabled, set_orca_option,
    set_orca_voice, with_option, with_voice, written, OrcaError, OrcaValues, Voice, PITCH_DEFAULT,
    PITCH_SETTING, RATE_DEFAULT, RATE_SETTING, VOLUME_DEFAULT, VOLUME_SETTING,
};
use crate::screenreader::values::{ScreenReaderAction, ScreenReaderMode};
use crate::systemd::JobMode;
use crate::text::{same_text, texts};
use crate::uinput::{
    held_after, key_event, lemma_held_concat, lemma_held_key_event, lemma_held_press, press,
    InputEvent, Key, UInputDevice,
};
use vstd::prelude::*;

verus! {

// ---------------------------------------------------------------------------
// Voices
// ---------------------------------------------------------------------------

/// The names of the voices of a language, in the order of the list.
pub open spec fn names_for(voices: Seq<Voice>, language: Seq<char>) -> Seq<Seq<char>>
    decreases voices.len(),
{
    if voices.len() == 0 {
        Seq::empty()
    } else {
        let before = names_for(voices.drop_last(), language);
        if voices.last().language@ == language {
            before.push(voices.last().name@)
        } else {
            before
        }
    }
}

/// Whether a voice speaks the language.
pub open spec fn has_language(voices: Seq<Voice>, language: Seq<char>) -> bool {
    exists|i: int| 0 <= i < voices.len() && (#[trigger] voices[i]).language@ == language
}

/// The place of the last voice with a name, if there is one.
pub open spec fn is_last_named(voices: Seq<Voice>, name: Seq<char>, i: int) -> bool {
    &&& 0 <= i < voices.len()
    &&& voices[i].name@ == name
    &&& forall|j: int| i < j < voices.len() ==> (#[trigger] voices[j]).name@ != name
}

pub open spec fn has_name(voices: Seq<Voice>, name: Seq<char>) -> bool {
    exists|i: int| 0 <= i < voices.len() && (#[trigger] voices[i]).name@ == name
}

fn list_names(voices: &Vec<Voice>, language: &str) -> (r: Vec<String>)
    ensures
        texts(r@) == names_for(voices@, language@),
{
    let mut r: Vec<String> = Vec::new();
    assert(voices@.take(0) =~= Seq::<Voice>::empty());
    assert(texts(r@) =~= Seq::<Seq<char>>::empty());
    for i in 0..voices.len()
        invariant
            texts(r@) == names_for(voices@.take(i as int), language@),
    {
        assert(voices@.take(i + 1).drop_last() =~= voices@.take(i as int));
        if same_text(voices[i].language.as_str(), language) {
            let ghost before = r@;
            r.push(voices[i].name.clone());
            assert(texts(r@) =~= texts(before).push(voices@[i as int].name@));
        }
    }
    assert(voices@.take(voices@.len() as int) =~= voices@);
    r
}

fn contains_text(list: &Vec<String>, s: &str) -> (r: bool)
    ensures
        r == texts(list@).contains(s@),
{
    for i in 0..list.len()
        invariant
            forall|j: int| 0 <= j < i ==> (#[trigger] texts(list@)[j]) != s@,
    {
        assert(texts(list@)[i as int] == list@[i as int]@);
        if same_text(list[i].as_str(), s) {
            return true;
        }
    }
    false
}

// ---------------------------------------------------------------------------
// Keys
// ---------------------------------------------------------------------------

/// The keys that switch to a mode: Insert with A twice for focus, three times
/// for browsing.
pub open spec fn keys_for_mode(mode: ScreenReaderMode) -> Seq<InputEvent> {
    match mode {
        ScreenReaderMode::Focus => key_event(Key::Insert, true) + press(Key::A) + press(Key::A)
            + key_event(Key::Insert, false),
        ScreenReaderMode::Browse => key_event(Key::Insert, true) + press(Key::A) + press(Key::A)
            + press(Key::A) + key_event(Key::Insert, false),
    }
}

/// A key pressed while another one is held.
pub open spec fn press_with(held: Key, key: Key) -> Seq<InputEvent> {
    key_event(held, true) + press(key) + key_event(held, false)
}

/// The keys of an action; none for the action that takes a signal.
pub open spec fn keys_for_action(action: ScreenReaderAction) -> Seq<InputEvent> {
    match action {
        ScreenReaderAction::StopTalking => Seq::empty(),
        ScreenReaderAction::ReadNextWord => press_with(Key::LeftCtrl, Key::Right),
        ScreenReaderAction::ReadPreviousWord => press_with(Key::LeftCtrl, Key::Left),
        ScreenReaderAction::ReadNextItem => press(Key::Down),
        ScreenReaderAction::ReadPreviousItem => press(Key::Up),
        ScreenReaderAction::MoveToNextLandmark => press(Key::M),
        ScreenReaderAction::MoveToPreviousLandmark => press_with(Key::LeftShift, Key::M),
        ScreenReaderAction::MoveToNextHeading => press(Key::H),
        ScreenReaderAction::MoveToPreviousHeading => press_with(Key::LeftShift, Key::H),
        ScreenReaderAction::ToggleMode => press_with(Key::Insert, Key::A),
    }
}

pub open spec fn other_mode(mode: ScreenReaderMode) -> ScreenReaderMode {
    match mode {
        ScreenReaderMode::Browse => ScreenReaderMode::Focus,
        ScreenReaderMode::Focus => ScreenReaderMode::Browse,
    }
}

/// What an action makes the manager do.
#[derive(Debug, PartialEq, Eq)]
pub enum OrcaReaction {
    /// Send the signal that stops the speech (`SIGUSR2`).
    StopTalking,
    /// Send these events.
    Keys(Vec<InputEvent>),
}

/// A step of switching the screen reader on or off; if one fails, those behind
/// it are not done.
#[derive(Clone, Copy, Debug, PartialEq, Eq, Structural)]
pub enum EnableStep {
    /// Set the setting of the desktop.
    SetDesktopSetting(bool),
    /// Write the settings file; that there is none is no failure.
    WriteSettings(bool),
    RestartOrca(JobMode),
    StopOrca(JobMode),
}

pub open spec fn steps_to(enabled: bool, enable: bool) -> Seq<EnableStep> {
    let changed = if enable != enabled {
        seq![EnableStep::SetDesktopSetting(enable), EnableStep::WriteSettings(enable)]
    } else {
        Seq::<EnableStep>::empty()
    };
    changed.push(
        if enable {
            EnableStep::RestartOrca(JobMode::Fail)
        } else {
            EnableStep::StopOrca(JobMode::Fail)
        },
    )
}

// ---------------------------------------------------------------------------
// The manager
// ---------------------------------------------------------------------------

/// The manager of the screen reader.
#[derive(Debug)]
pub struct OrcaManager {
    pub values: OrcaValues,
    pub enabled: bool,
    pub mode: ScreenReaderMode,
    pub voices: Vec<Voice>,
    pub locale: String,
    pub keyboard: UInputDevice,
}

impl OrcaManager {
    /// The values before any settings are read.
    pub open spec fn is_default(v: OrcaValues) -> bool {
        &&& v.pitch == PITCH_DEFAULT
        &&& v.rate == RATE_DEFAULT
        &&& v.volume == VOLUME_DEFAULT
        &&& v.voice@.len() == 0
    }

    /// The manager: `settings` is the settings file if it could be read,
    /// `enabled` the setting of the desktop, `voices` the list of voices.
    pub fn new(settings: Option<String>, enabled: bool, voices: Vec<Voice>) -> (r: OrcaManager)
        ensures
            match settings {
                None => OrcaManager::is_default(r.values),
                Some(data) => match json_in(data@) {
                    None => OrcaManager::is_default(r.values),
                    Some(json) => is_loaded(
                        json,
                        RATE_DEFAULT,
                        VOLUME_DEFAULT,
                        Seq::empty(),
                        r.values,
                    ),
                },
            },
            r.enabled == enabled,
            r.mode == ScreenReaderMode::Browse,
            r.voices@ == voices@,
            r.locale@.len() == 0,
            !r.keyboard.is_opened(),
            r.keyboard.device_name() == "steamos-manager"@,
    {
        let before = OrcaValues {
            pitch: PITCH_DEFAULT,
            rate: RATE_DEFAULT,
            volume: VOLUME_DEFAULT,
            voice: String::new(),
        };
        assert(before.voice@ =~= Seq::<char>::empty());
        let values: OrcaValues = match settings {
            None => before,
            Some(data) => load_values(data.as_str(), before).0,
        };
        let mut keyboard = UInputDevice::new();
        let _ = keyboard.set_name("steamos-manager".to_owned());
        OrcaManager {
            values,
            enabled,
            mode: ScreenReaderMode::Browse,
            voices,
            locale: String::new(),
            keyboard,
        }
    }

    /// The keys that the virtual keyboard needs.
    pub fn keybits() -> (r: Vec<Key>)
        ensures
            r@ == seq![
                Key::A,
                Key::H,
                Key::M,
                Key::Insert,
                Key::LeftCtrl,
                Key::LeftShift,
                Key::Down,
                Key::Left,
                Key::Right,
                Key::Up,
            ],
    {
        let mut r: Vec<Key> = Vec::new();
        r.push(Key::A);
        r.push(Key::H);
        r.push(Key::M);
        r.push(Key::Insert);
        r.push(Key::LeftCtrl);
        r.push(Key::LeftShift);
        r.push(Key::Down);
        r.push(Key::Left);
        r.push(Key::Right);
        r.push(Key::Up);
        r
    }

    /// Reads the settings file again; if it is no JSON, nothing changes.
    pub fn load_values(&mut self, data: &str) -> (r: Result<(), OrcaError>)
        ensures
            match json_in(data@) {
                None => r == Err::<(), OrcaError>(OrcaError::BadJson) && final(self).values
                    == old(self).values,
                Some(json) => r == Ok::<(), OrcaError>(()) && is_loaded(
                    json,
                    old(self).values.rate,
                    old(self).values.volume,
                    old(self).values.voice@,
                    final(self).values,
                ),
            },
            final(self).enabled == old(self).enabled,
            final(self).mode == old(self).mode,
            final(self).voices == old(self).voices,
            final(self).locale == old(self).locale,
            final(self).keyboard == old(self).keyboard,
    {
        let before = OrcaValues {
            pitch: self.values.pitch,
            rate: self.values.rate,
            volume: self.values.volume,
            voice: self.values.voice.clone(),
        };
        let (values, result) = load_values(data, before);
        self.values = values;
        result
    }

    /// The names of the voices of each language.
    pub fn get_voices_map(&self) -> (r: Vec<(String, Vec<String>)>)
        ensures
            forall|i: int, j: int|
                0 <= i < j < r@.len() ==> (#[trigger] r@[i]).0@ != (#[trigger] r@[j]).0@,
            forall|l: Seq<char>|
                has_language(self.voices@, l) <==> exists|i: int|
                    0 <= i < r@.len() && (#[trigger] r@[i]).0@ == l,
            forall|i: int|
                0 <= i < r@.len() ==> texts((#[trigger] r@[i]).1@) == names_for(
                    self.voices@,
                    r@[i].0@,
                ),
    {
        let locales: Vec<String> = self.get_voice_locales();
        let mut r: Vec<(String, Vec<String>)> = Vec::new();
        for i in 0..locales.len()
            invariant
                r@.len() == i,
                forall|j: int| 0 <= j < i ==> (#[trigger] r@[j]).0@ == locales@[j]@,
                forall|j: int|
                    0 <= j < i ==> texts((#[trigger] r@[j]).1@) == names_for(
                        self.voices@,
                        r@[j].0@,
                    ),
        {
            let names: Vec<String> = list_names(&self.voices, locales[i].as_str());
            r.push((locales[i].clone(), names));
        }
        assert forall|l: Seq<char>| has_language(self.voices@, l) implies exists|i: int|
            0 <= i < r@.len() && (#[trigger] r@[i]).0@ == l by {
            assert(texts(locales@).contains(l));
            let i = choose|i: int| 0 <= i < texts(locales@).len() && texts(locales@)[i] == l;
            assert(texts(locales@)[i] == locales@[i]@);
            assert(r@[i].0@ == l);
        }
        assert forall|l: Seq<char>|
            (exists|i: int| 0 <= i < r@.len() && (#[trigger] r@[i]).0@ == l) implies has_language(
            self.voices@,
            l,
        ) by {
            let i = choose|i: int| 0 <= i < r@.len() && (#[trigger] r@[i]).0@ == l;
            assert(texts(locales@)[i] == locales@[i]@);
            assert(texts(locales@).contains(l));
        }
        assert forall|i: int, j: int| 0 <= i < j < r@.len() implies (#[trigger] r@[i]).0@ != (
        #[trigger] r@[j]).0@ by {
            assert(texts(locales@)[i] == locales@[i]@);
            assert(texts(locales@)[j] == locales@[j]@);
        }
        r
    }

    /// The names of the voices of the current locale.
    pub fn get_voices(&self) -> (r: Vec<String>)
        ensures
            texts(r@) == names_for(self.voices@, self.locale@),
    {
        list_names(&self.voices, self.locale.as_str())
    }

    /// The languages of the voices, each once.
    pub fn get_voice_locales(&self) -> (r: Vec<String>)
        ensures
            texts(r@).no_duplicates(),
            forall|l: Seq<char>|
                #[trigger] texts(r@).contains(l) <==> has_language(self.voices@, l),
    {
        let mut r: Vec<String> = Vec::new();
        for i in 0..self.voices.len()
            invariant
                texts(r@).no_duplicates(),
                forall|l: Seq<char>| #[trigger]
                    texts(r@).contains(l) <==> has_language(self.voices@.take(i as int), l),
        {
            let ghost before = r@;
            let language: &str = self.voices[i].language.as_str();
            let ghost a = self.voices@.take(i as int);
            let ghost b = self.voices@.take(i + 1);
            assert forall|l: Seq<char>| #[trigger]
                has_language(b, l) == (has_language(a, l) || l == language@) by {
                if has_language(a, l) {
                    let j = choose|j: int| 0 <= j < a.len() && (#[trigger] a[j]).language@ == l;
                    assert(b[j].language@ == l);
                }
                if l == language@ {
                    assert(b[i as int].language@ == l);
                }
                if has_language(b, l) && l != language@ {
                    let j = choose|j: int| 0 <= j < b.len() && (#[trigger] b[j]).language@ == l;
                    assert(a[j].language@ == l);
                }
            }
            if !contains_text(&r, language) {
                r.push(language.to_owned());
                assert(texts(r@) =~= texts(before).push(language@));
                assert forall|l: Seq<char>| #[trigger]
                    texts(r@).contains(l) == (texts(before).contains(l) || l == language@) by {
                    if texts(before).contains(l) {
                        let j = choose|j: int|
                            0 <= j < texts(before).len() && texts(before)[j] == l;
                        assert(texts(r@)[j] == l);
                    }
                    if l == language@ {
                        assert(texts(r@)[before.len() as int] == l);
                    }
                    if texts(r@).contains(l) && l != language@ {
                        let j = choose|j: int| 0 <= j < texts(r@).len() && texts(r@)[j] == l;
                        assert(texts(before)[j] == l);
                    }
                }
            }
        }
        assert(self.voices@.take(self.voices@.len() as int) =~= self.voices@);
        r
    }

    pub fn enabled(&self) -> (r: bool)
        ensures
            r == self.enabled,
    {
        self.enabled
    }

    /// The steps that switch the screen reader on or off.
    pub fn set_enabled(&self, enable: bool) -> (r: Vec<EnableStep>)
        ensures
            r@ == steps_to(self.enabled, enable),
    {
        let mut r: Vec<EnableStep> = Vec::new();
        if enable != self.enabled {
            r.push(EnableStep::SetDesktopSetting(enable));
            r.push(EnableStep::WriteSettings(enable));
        }
        if enable {
            r.push(EnableStep::RestartOrca(JobMode::Fail));
        } else {
            r.push(EnableStep::StopOrca(JobMode::Fail));
        }
        assert(r@ =~= steps_to(self.enabled, enable));
        r
    }

    /// Notes that all steps were done.
    pub fn enabled_set(&mut self, enable: bool)
        ensures
            *final(self) == (OrcaManager { enabled: enable, ..*old(self) }),
    {
        self.enabled = enable;
    }

    pub fn locale(&self) -> (r: &str)
        ensures
            r@ == self.locale@,
    {
        self.locale.as_str()
    }

    /// Chooses the locale whose voices are offered.
    pub fn set_locale(&mut self, locale: &str) -> (r: Result<(), OrcaError>)
        ensures
            final(self).values == old(self).values,
            final(self).enabled == old(self).enabled,
            final(self).mode == old(self).mode,
            final(self).voices == old(self).voices,
            final(self).keyboard == old(self).keyboard,
            if has_language(old(self).voices@, locale@) {
                r == Ok::<(), OrcaError>(()) && final(self).locale@ == locale@
            } else {
                r == Err::<(), OrcaError>(OrcaError::InvalidLocale) && final(self).locale
                    == old(self).locale
            },
    {
        let locales: Vec<String> = self.get_voice_locales();
        if !contains_text(&locales, locale) {
            return Err(OrcaError::InvalidLocale);
        }
        self.locale = locale.to_owned();
        Ok(())
    }

    pub fn voice(&self) -> (r: &str)
        ensures
            r@ == self.values.voice@,
    {
        self.values.voice.as_str()
    }

    fn find_voice(&self, name: &str) -> (r: Option<usize>)
        ensures
            match r {
                Some(i) => is_last_named(self.voices@, name@, i as int),
                None => !has_name(self.voices@, name@),
            },
    {
        let mut i: usize = self.voices.len();
        while i > 0
            invariant
                i <= self.voices@.len(),
                forall|j: int|
                    i <= j < self.voices@.len() ==> (#[trigger] self.voices@[j]).name@ != name@,
            decreases i,
        {
            i = i - 1;
            if same_text(self.voices[i].name.as_str(), name) {
                return Some(i);
            }
        }
        None
    }

    /// The settings with the voice `name`, which is the last of that name;
    /// `data` are the settings. Once they are written, `voice_set` notes the
    /// voice and the screen reader is told to reload (`SIGUSR1`).
    pub fn set_voice(&self, name: &str, data: &str) -> (r: Result<String, OrcaError>)
        ensures
            if has_name(self.voices@, name@) {
                exists|i: int|
                    #[trigger] is_last_named(self.voices@, name@, i) && match json_in(data@) {
                        None => r matches Err(e) && e == OrcaError::BadJson,
                        Some(json) => is_text_or_error(
                            r,
                            written(with_voice(json, self.voices@[i])),
                        ),
                    }
            } else {
                r matches Err(e) && e == OrcaError::InvalidVoice
            },
    {
        match self.find_voice(name) {
            Some(i) => {
                assert(is_last_named(self.voices@, name@, i as int));
                set_orca_voice(data, &self.voices[i])
            },
            None => Err(OrcaError::InvalidVoice),
        }
    }

    /// Notes that the settings with the voice were written.
    pub fn voice_set(&mut self, name: &str)
        ensures
            final(self).values.voice@ == name@,
            final(self).values.pitch == old(self).values.pitch,
            final(self).values.rate == old(self).values.rate,
            final(self).values.volume == old(self).values.volume,
            final(self).enabled == old(self).enabled,
            final(self).mode == old(self).mode,
            final(self).voices == old(self).voices,
            final(self).locale == old(self).locale,
            final(self).keyboard == old(self).keyboard,
    {
        self.values.voice = name.to_owned();
    }

    /// The bits of the pitch.
    pub fn pitch(&self) -> (r: u64)
        ensures
            r == self.values.pitch,
    {
        self.values.pitch
    }

    /// The settings with the pitch set; `value` is a number.
    pub fn set_pitch(&self, data: &str, value: serde_json::Value) -> (r: Result<String, OrcaError>)
        ensures
            is_option_written(r, data@, PITCH_SETTING@, value),
    {
        set_orca_option(data, PITCH_SETTING, value)
    }

    /// Notes that the settings with the pitch were written.
    pub fn pitch_set(&mut self, bits: u64)
        ensures
            *final(self) == (OrcaManager {
                values: OrcaValues { pitch: bits, ..old(self).values },
                ..*old(self)
            }),
    {
        self.values.pitch = bits;
    }

    /// The bits of the rate.
    pub fn rate(&self) -> (r: u64)
        ensures
            r == self.values.rate,
    {
        self.values.rate
    }

    /// The settings with the rate set; `value` is a number.
    pub fn set_rate(&self, data: &str, value: serde_json::Value) -> (r: Result<String, OrcaError>)
        ensures
            is_option_written(r, data@, RATE_SETTING@, value),
    {
        set_orca_option(data, RATE_SETTING, value)
    }

    /// Notes that the settings with the rate were written.
    pub fn rate_set(&mut self, bits: u64)
        ensures
            *final(self) == (OrcaManager {
                values: OrcaValues { rate: bits, ..old(self).values },
                ..*old(self)
            }),
    {
        self.values.rate = bits;
    }

    /// The bits of the volume.
    pub fn volume(&self) -> (r: u64)
        ensures
            r == self.values.volume,
    {
        self.values.volume
    }

    /// The settings with the volume set; `value` is a number.
    pub fn set_volume(&self, data: &str, value: serde_json::Value) -> (r: Result<String, OrcaError>)
        ensures
            is_option_written(r, data@, VOLUME_SETTING@, value),
    {
        set_orca_option(data, VOLUME_SETTING, value)
    }

    /// Notes that the settings with the volume were written.
    pub fn volume_set(&mut self, bits: u64)
        ensures
            *final(self) == (OrcaManager {
                values: OrcaValues { volume: bits, ..old(self).values },
                ..*old(self)
            }),
    {
        self.values.volume = bits;
    }

    pub fn mode(&self) -> (r: ScreenReaderMode)
        ensures
            r == self.mode,
    {
        self.mode
    }

    /// The events that switch to a mode; none if it is the current one.
    pub fn set_mode(&self, mode: ScreenReaderMode) -> (r: Vec<InputEvent>)
        ensures
            r@ == (if self.mode == mode {
                Seq::<InputEvent>::empty()
            } else {
                keys_for_mode(mode)
            }),
    {
        let mut queue: Vec<InputEvent> = Vec::new();
        if self.mode == mode {
            return queue;
        }
        self.keyboard.key_down(&mut queue, Key::Insert);
        self.keyboard.key_press(&mut queue, Key::A);
        self.keyboard.key_press(&mut queue, Key::A);
        match mode {
            ScreenReaderMode::Focus => {},
            ScreenReaderMode::Browse => {
                self.keyboard.key_press(&mut queue, Key::A);
            },
        }
        self.keyboard.key_up(&mut queue, Key::Insert);
        assert(queue@ =~= keys_for_mode(mode));
        queue
    }

    /// Notes that the events that switch to a mode were sent.
    pub fn mode_set(&mut self, mode: ScreenReaderMode)
        ensures
            *final(self) == (OrcaManager { mode, ..*old(self) }),
    {
        self.mode = mode;
    }

    fn press_with(&self, queue: &mut Vec<InputEvent>, held: Key, key: Key)
        ensures
            final(queue)@ == old(queue)@ + press_with(held, key),
    {
        self.keyboard.key_down(queue, held);
        self.keyboard.key_press(queue, key);
        self.keyboard.key_up(queue, held);
        assert(queue@ =~= old(queue)@ + press_with(held, key));
    }

    /// What an action makes the manager do. The time of the request does not
    /// matter.
    pub fn trigger_action(&self, action: ScreenReaderAction, timestamp: u64) -> (r: OrcaReaction)
        ensures
            match action {
                ScreenReaderAction::StopTalking => r is StopTalking,
                _ => r matches OrcaReaction::Keys(events) && events@ == keys_for_action(action),
            },
    {
        let mut queue: Vec<InputEvent> = Vec::new();
        match action {
            ScreenReaderAction::StopTalking => {
                return OrcaReaction::StopTalking;
            },
            ScreenReaderAction::ReadNextWord => {
                self.press_with(&mut queue, Key::LeftCtrl, Key::Right);
            },
            ScreenReaderAction::ReadPreviousWord => {
                self.press_with(&mut queue, Key::LeftCtrl, Key::Left);
            },
            ScreenReaderAction::ReadNextItem => {
                self.keyboard.key_press(&mut queue, Key::Down);
            },
            ScreenReaderAction::ReadPreviousItem => {
                self.keyboard.key_press(&mut queue, Key::Up);
            },
            ScreenReaderAction::MoveToNextLandmark => {
                self.keyboard.key_press(&mut queue, Key::M);
            },
            ScreenReaderAction::MoveToPreviousLandmark => {
                self.press_with(&mut queue, Key::LeftShift, Key::M);
            },
            ScreenReaderAction::MoveToNextHeading => {
                self.keyboard.key_press(&mut queue, Key::H);
            },
            ScreenReaderAction::MoveToPreviousHeading => {
                self.press_with(&mut queue, Key::LeftShift, Key::H);
            },
            ScreenReaderAction::ToggleMode => {
                self.press_with(&mut queue, Key::Insert, Key::A);
            },
        }
        assert(queue@ =~= keys_for_action(action));
        OrcaReaction::Keys(queue)
    }

    /// Notes that an action was done: toggling changes the mode.
    pub fn action_triggered(&mut self, action: ScreenReaderAction)
        ensures
            *final(self) == (OrcaManager {
                mode: if action == ScreenReaderAction::ToggleMode {
                    other_mode(old(self).mode)
                } else {
                    old(self).mode
                },
                ..*old(self)
            }),
    {
        match action {
            ScreenReaderAction::ToggleMode => {
                self.mode = match self.mode {
                    ScreenReaderMode::Browse => ScreenReaderMode::Focus,
                    ScreenReaderMode::Focus => ScreenReaderMode::Browse,
                };
            },
            _ => {},
        }
    }

    /// The step that stops the screen reader.
    pub fn stop_orca(&self) -> (r: EnableStep)
        ensures
            r == EnableStep::StopOrca(JobMode::Fail),
    {
        EnableStep::StopOrca(JobMode::Fail)
    }

    /// The settings with speech switched on or off.
    pub fn set_orca_enabled(&self, data: &str, enabled: bool) -> (r: Result<String, OrcaError>)
        ensures
            match json_in(data@) {
                None => r matches Err(e) && e == OrcaError::BadJson,
                Some(json) => is_text_or_error(
                    r,
                    written(crate::screenreader::settings::with_enabled(json, enabled)),
                ),
            },
    {
        set_orca_enabled(data, enabled)
    }
}

/// What setting an option returns.
pub open spec fn is_option_written(
    r: Result<String, OrcaError>,
    data: Seq<char>,
    option: Seq<char>,
    value: serde_json::Value,
) -> bool {
    match option_checked(option, value) {
        Err(e) => r matches Err(f) && f == e,
        Ok(()) => match json_in(data) {
            None => r matches Err(e) && e == OrcaError::BadJson,
            Some(json) => is_text_or_error(r, written(with_option(json, option, value))),
        },
    }
}

// ---------------------------------------------------------------------------
// Laws
// ---------------------------------------------------------------------------

proof fn lemma_held_press_with(held: Key, key: Key)
    requires
        held != key,
    ensures
        held_after(Set::empty(), press_with(held, key)) == Set::<Key>::empty(),
{
    let none = Set::<Key>::empty();
    let first = key_event(held, true);
    lemma_held_concat(none, first + press(key), key_event(held, false));
    lemma_held_concat(none, first, press(key));
    lemma_held_key_event(none, held, true);
    lemma_held_press(none.insert(held), key);
    let middle = none.insert(held).remove(key);
    lemma_held_key_event(middle, held, false);
    assert(middle.remove(held) =~= none);
}

/// No action leaves a key down.
pub proof fn law_actions_release_all_keys(action: ScreenReaderAction)
    ensures
        held_after(Set::empty(), keys_for_action(action)) == Set::<Key>::empty(),
{
    let none = Set::<Key>::empty();
    match action {
        ScreenReaderAction::StopTalking => {},
        ScreenReaderAction::ReadNextWord => lemma_held_press_with(Key::LeftCtrl, Key::Right),
        ScreenReaderAction::ReadPreviousWord => lemma_held_press_with(Key::LeftCtrl, Key::Left),
        ScreenReaderAction::ReadNextItem => {
            lemma_held_press(none, Key::Down);
            assert(none.remove(Key::Down) =~= none);
        },
        ScreenReaderAction::ReadPreviousItem => {
            lemma_held_press(none, Key::Up);
            assert(none.remove(Key::Up) =~= none);
        },
        ScreenReaderAction::MoveToNextLandmark => {
            lemma_held_press(none, Key::M);
            assert(none.remove(Key::M) =~= none);
        },
        ScreenReaderAction::MoveToPreviousLandmark => lemma_held_press_with(Key::LeftShift, Key::M),
        ScreenReaderAction::MoveToNextHeading => {
            lemma_held_press(none, Key::H);
            assert(none.remove(Key::H) =~= none);
        },
        ScreenReaderAction::MoveToPreviousHeading => lemma_held_press_with(Key::LeftShift, Key::H),
        ScreenReaderAction::ToggleMode => lemma_held_press_with(Key::Insert, Key::A),
    }
}

/// Switching to a mode leaves no key down.
pub proof fn law_modes_release_all_keys(mode: ScreenReaderMode)
    ensures
        held_after(Set::empty(), keys_for_mode(mode)) == Set::<Key>::empty(),
{
    let none = Set::<Key>::empty();
    let a = none.insert(Key::Insert);
    let e1 = key_event(Key::Insert, true);
    let e2 = e1 + press(Key::A);
    let e3 = e2 + press(Key::A);
    let e4 = e3 + press(Key::A);
    lemma_held_key_event(none, Key::Insert, true);
    assert(a.remove(Key::A) =~= a);
    lemma_held_press(a, Key::A);
    lemma_held_concat(none, e1, press(Key::A));
    lemma_held_concat(none, e2, press(Key::A));
    lemma_held_concat(none, e3, press(Key::A));
    lemma_held_concat(none, e3, key_event(Key::Insert, false));
    lemma_held_concat(none, e4, key_event(Key::Insert, false));
    lemma_held_key_event(a, Key::Insert, false);
    assert(a.remove(Key::Insert) =~= none);
}

/// Toggling the mode twice gives the mode back.
pub proof fn law_toggle_twice(mode: ScreenReaderMode)
    ensures
        other_mode(other_mode(mode)) == mode,
        other_mode(mode) != mode,
{
}

/// The keys that some events press, in their order.
pub open spec fn pressed(events: Seq<InputEvent>) -> Seq<Key>
    decreases events.len(),
{
    if events.len() == 0 {
        Seq::empty()
    } else {
        let before = pressed(events.drop_last());
        match events.last() {
            InputEvent::Key { key, pressed: true } => before.push(key),
            _ => before,
        }
    }
}

proof fn lemma_pressed_concat(a: Seq<InputEvent>, b: Seq<InputEvent>)
    ensures
        pressed(a + b) == pressed(a) + pressed(b),
    decreases b.len(),
{
    if b.len() == 0 {
        assert(a + b =~= a);
        assert(pressed(a + b) =~= pressed(a) + pressed(b));
    } else {
        lemma_pressed_concat(a, b.drop_last());
        assert((a + b).drop_last() =~= a + b.drop_last());
        assert((a + b).last() == b.last());
        assert(pressed(a + b) =~= pressed(a) + pressed(b));
    }
}

proof fn lemma_pressed_one(key: Key)
    ensures
        pressed(key_event(key, true)) == seq![key],
        pressed(key_event(key, false)) == Seq::<Key>::empty(),
        pressed(press(key)) == seq![key],
{
    let e = Seq::<InputEvent>::empty();
    let down = key_event(key, true);
    let up = key_event(key, false);
    assert(pressed(e) =~= Seq::<Key>::empty());
    assert(down.drop_last().drop_last() =~= e);
    assert(up.drop_last().drop_last() =~= e);
    assert(pressed(down.drop_last()) =~= seq![key]);
    assert(pressed(up.drop_last()) =~= Seq::<Key>::empty());
    assert(pressed(down) =~= seq![key]);
    assert(pressed(up) =~= Seq::<Key>::empty());
    lemma_pressed_concat(down, up);
    assert(pressed(press(key)) =~= seq![key]);
}

proof fn lemma_pressed_with(held: Key, key: Key)
    ensures
        pressed(press_with(held, key)) == seq![held, key],
{
    lemma_pressed_one(held);
    lemma_pressed_one(key);
    lemma_pressed_concat(key_event(held, true), press(key));
    lemma_pressed_concat(key_event(held, true) + press(key), key_event(held, false));
    assert(pressed(press_with(held, key)) =~= seq![held, key]);
}

/// The arrow that points the other way.
pub open spec fn opposite(key: Key) -> Key {
    match key {
        Key::Left => Key::Right,
        Key::Right => Key::Left,
        Key::Up => Key::Down,
        Key::Down => Key::Up,
        k => k,
    }
}

/// Reading on goes right or down, reading back presses the same keys with the
/// arrow the other way. Moving back presses Shift with the key of moving on.
/// Words are read with Ctrl.
pub proof fn law_keys_of_directions()
    ensures
        pressed(keys_for_action(ScreenReaderAction::ReadNextWord)).last() == Key::Right,
        pressed(keys_for_action(ScreenReaderAction::ReadNextItem)).last() == Key::Down,
        pressed(keys_for_action(ScreenReaderAction::ReadNextWord)).len() == 2,
        pressed(keys_for_action(ScreenReaderAction::ReadNextWord))[0] == Key::LeftCtrl,
        pressed(keys_for_action(ScreenReaderAction::ReadNextItem)).len() == 1,
        pressed(keys_for_action(ScreenReaderAction::ReadPreviousWord)) == pressed(
            keys_for_action(ScreenReaderAction::ReadNextWord),
        ).map_values(|k: Key| opposite(k)),
        pressed(keys_for_action(ScreenReaderAction::ReadPreviousItem)) == pressed(
            keys_for_action(ScreenReaderAction::ReadNextItem),
        ).map_values(|k: Key| opposite(k)),
        pressed(keys_for_action(ScreenReaderAction::MoveToNextLandmark)) == seq![Key::M],
        pressed(keys_for_action(ScreenReaderAction::MoveToNextHeading)) == seq![Key::H],
        pressed(keys_for_action(ScreenReaderAction::MoveToPreviousLandmark)) == seq![
            Key::LeftShift,
        ] + pressed(keys_for_action(ScreenReaderAction::MoveToNextLandmark)),
        pressed(keys_for_action(ScreenReaderAction::MoveToPreviousHeading)) == seq![Key::LeftShift]
            + pressed(keys_for_action(ScreenReaderAction::MoveToNextHeading)),
        pressed(keys_for_action(ScreenReaderAction::StopTalking)).len() == 0,
{
    lemma_pressed_with(Key::LeftCtrl, Key::Right);
    lemma_pressed_with(Key::LeftCtrl, Key::Left);
    lemma_pressed_one(Key::Down);
    lemma_pressed_one(Key::Up);
    lemma_pressed_one(Key::M);
    lemma_pressed_one(Key::H);
    lemma_pressed_with(Key::LeftShift, Key::M);
    lemma_pressed_with(Key::LeftShift, Key::H);
}

/// Toggling presses Insert and A; switching to focus presses A once more, and
/// switching to browsing once more than that.
pub proof fn law_keys_of_modes()
    ensures
        pressed(keys_for_action(ScreenReaderAction::ToggleMode)) == seq![Key::Insert, Key::A],
        pressed(keys_for_mode(ScreenReaderMode::Focus)) == pressed(
            keys_for_action(ScreenReaderAction::ToggleMode),
        ).push(Key::A),
        pressed(keys_for_mode(ScreenReaderMode::Browse)) == pressed(
            keys_for_mode(ScreenReaderMode::Focus),
        ).push(Key::A),
{
    lemma_pressed_with(Key::Insert, Key::A);
    lemma_pressed_one(Key::Insert);
    lemma_pressed_one(Key::A);
    let a = press(Key::A);
    let e1 = key_event(Key::Insert, true);
    let up = key_event(Key::Insert, false);
    lemma_pressed_concat(e1, a);
    lemma_pressed_concat(e1 + a, a);
    lemma_pressed_concat(e1 + a + a, a);
    lemma_pressed_concat(e1 + a + a, up);
    lemma_pressed_concat(e1 + a + a + a, up);
}

/// Whether every key event is followed by one that synchronizes, and nothing
/// else stands there.
pub open spec fn is_synchronized(events: Seq<InputEvent>) -> bool {
    &&& events.len() % 2 == 0
    &&& forall|i: int|
        0 <= i < events.len() ==> ((#[trigger] events[i] is Synchronize) == (i % 2 == 1))
}

/// The first key of an action or a mode is held while the others are pressed: it
/// is released by the last key event and by no other. Each key event is
/// synchronized.
pub proof fn law_first_key_is_held(events: Seq<InputEvent>)
    requires
        (exists|a: ScreenReaderAction| events == #[trigger] keys_for_action(a)) || (exists|
            m: ScreenReaderMode,
        |
            events == #[trigger] keys_for_mode(m)),
    ensures
        is_synchronized(events),
        events.len() > 0 ==> {
            &&& events[0] matches InputEvent::Key { key: first, pressed: true }
            &&& forall|i: int|
                0 <= i < events.len() ==> ((#[trigger] events[i] == InputEvent::Key {
                    key: first,
                    pressed: false,
                }) <==> i == events.len() - 2)
        },
{
    if exists|a: ScreenReaderAction| events == #[trigger] keys_for_action(a) {
        let a = choose|a: ScreenReaderAction| events == #[trigger] keys_for_action(a);
        match a {
            ScreenReaderAction::StopTalking => {},
            ScreenReaderAction::ReadNextWord => {},
            ScreenReaderAction::ReadPreviousWord => {},
            ScreenReaderAction::ReadNextItem => {},
            ScreenReaderAction::ReadPreviousItem => {},
            ScreenReaderAction::MoveToNextLandmark => {},
            ScreenReaderAction::MoveToPreviousLandmark => {},
            ScreenReaderAction::MoveToNextHeading => {},
            ScreenReaderAction::MoveToPreviousHeading => {},
            ScreenReaderAction::ToggleMode => {},
        }
    } else {
        let m = choose|m: ScreenReaderMode| events == #[trigger] keys_for_mode(m);
        match m {
            ScreenReaderMode::Focus => {},
            ScreenReaderMode::Browse => {},
        }
    }
}

/// The screen reader is restarted if it is switched on and stopped if it is
/// switched off, at the very end. The settings are changed, to what is asked
/// for, exactly if they said something else.
pub proof fn law_switching(enabled: bool, enable: bool, b: bool, mode: JobMode)
    ensures
        ({
            let s = steps_to(enabled, enable);
            &&& s.len() > 0
            &&& s.contains(EnableStep::RestartOrca(mode)) <==> enable && mode == JobMode::Fail
            &&& s.contains(EnableStep::StopOrca(mode)) <==> !enable && mode == JobMode::Fail
            &&& s.contains(EnableStep::SetDesktopSetting(b)) <==> enabled != enable && b == enable
            &&& s.contains(EnableStep::WriteSettings(b)) <==> enabled != enable && b == enable
            &&& (s.last() is RestartOrca || s.last() is StopOrca)
            &&& forall|i: int|
                0 <= i < s.len() - 1 ==> !((#[trigger] s[i]) is RestartOrca) && !(s[i] is StopOrca)
            &&& s.no_duplicates()
            &&& (s.len() > 1 ==> s[0] is SetDesktopSetting)
        }),
{
    let s = steps_to(enabled, enable);
    assert(s.last() == s[s.len() - 1]);
    if enabled != enable {
        assert(s[0] == EnableStep::SetDesktopSetting(enable));
        assert(s[1] == EnableStep::WriteSettings(enable));
        assert(s.len() == 3);
    } else {
        assert(s.len() == 1);
    }
}

/// The names of a language come from the voices of that language, each voice
/// adding its name, in the order of the list.
pub proof fn law_names_of_language(a: Seq<Voice>, v: Voice, b: Seq<Voice>, language: Seq<char>)
    ensures
        names_for(a + b, language) == names_for(a, language) + names_for(b, language),
        names_for(seq![v], language) == (if v.language@ == language {
            seq![v.name@]
        } else {
            Seq::<Seq<char>>::empty()
        }),
    decreases b.len(),
{
    assert(seq![v].drop_last() =~= Seq::<Voice>::empty());
    assert(names_for(seq![v].drop_last(), language) =~= Seq::<Seq<char>>::empty());
    assert(names_for(seq![v], language) =~= (if v.language@ == language {
        seq![v.name@]
    } else {
        Seq::<Seq<char>>::empty()
    }));
    if b.len() == 0 {
        assert(a + b =~= a);
        assert(names_for(a + b, language) =~= names_for(a, language) + names_for(b, language));
    } else {
        law_names_of_language(a, v, b.drop_last(), language);
        assert((a + b).drop_last() =~= a + b.drop_last());
        assert((a + b).last() == b.last());
        assert(names_for(a + b, language) =~= names_for(a, language) + names_for(b, language));
    }
}

/// A language has voices exactly if names are listed for it.
pub proof fn law_languages_have_names(voices: Seq<Voice>, language: Seq<char>)
    ensures
        has_language(voices, language) <==> names_for(voices, language).len() > 0,
    decreases voices.len(),
{
    if voices.len() > 0 {
        let before = voices.drop_last();
        law_languages_have_names(before, language);
        if has_language(before, language) {
            let i = choose|i: int|
                0 <= i < before.len() && (#[trigger] before[i]).language@ == language;
            assert(voices[i].language@ == language);
        }
        if has_language(voices, language) && voices.last().language@ != language {
            let i = choose|i: int|
                0 <= i < voices.len() && (#[trigger] voices[i]).language@ == language;
            assert(before[i].language@ == language);
        }
        if voices.last().language@ == language {
            assert(voices[voices.len() - 1].language@ == language);
        }
    }
}

/// A voice that is added counts before all others of its name, and changes
/// nothing for other names.
pub proof fn law_last_voice_counts(voices: Seq<Voice>, v: Voice, name: Seq<char>, i: int)
    ensures
        is_last_named(voices.push(v), v.name@, i) <==> i == voices.len(),
        has_name(voices.push(v), v.name@),
        name != v.name@ ==> (is_last_named(voices.push(v), name, i) <==> is_last_named(
            voices,
            name,
            i,
        )),
        name != v.name@ ==> (has_name(voices.push(v), name) <==> has_name(voices, name)),
{
    let all = voices.push(v);
    assert(all[voices.len() as int] == v);
    if name != v.name@ {
        if is_last_named(all, name, i) {
            assert forall|j: int| i < j < voices.len() implies (#[trigger] voices[j]).name@
                != name by {
                assert(all[j] == voices[j]);
            }
        }
        if is_last_named(voices, name, i) {
            assert forall|j: int| i < j < all.len() implies (#[trigger] all[j]).name@ != name by {
                if j < voices.len() {
                    assert(all[j] == voices[j]);
                }
            }
        }
        if has_name(all, name) {
            let k = choose|k: int| 0 <= k < all.len() && (#[trigger] all[k]).name@ == name;
            assert(voices[k].name@ == name);
        }
        if has_name(voices, name) {
            let k = choose|k: int| 0 <= k < voices.len() && (#[trigger] voices[k]).name@ == name;
            assert(all[k].name@ == name);
        }
    }
}

} // verus!
