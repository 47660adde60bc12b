//! The settings file of the Orca screen reader.
use crate::screenreader::json::{
    as_number, as_text, entries, from_bool, from_object, from_optional_text, from_text, get, insert,
    into_object, json_bool, json_in, json_notation, json_object, json_text, json_text_or_null,
    members, new_object, no_members, number_in, parse, print, remove, text_in,
};
use crate::text::{concat, cut_once, has_no, law_cut_once, same_text, split_once};
use vstd::prelude::*;

verus! {

pub const PITCH_SETTING: &'static str = "average-pitch";

pub const RATE_SETTING: &'static str = "rate";

pub const VOLUME_SETTING: &'static str = "gain";

/// The bits of 5.0.
pub const PITCH_DEFAULT: u64 = 0x4014_0000_0000_0000;

/// The bits of 50.0.
pub const RATE_DEFAULT: u64 = 0x4049_0000_0000_0000;

/// The bits of 10.0.
pub const VOLUME_DEFAULT: u64 = 0x4024_0000_0000_0000;

/// The bits of 10.0.
pub const PITCH_MAX: u64 = 0x4024_0000_0000_0000;

/// The bits of 100.0.
pub const RATE_MAX: u64 = 0x4059_0000_0000_0000;

/// The bits of 10.0.
pub const VOLUME_MAX: u64 = 0x4024_0000_0000_0000;

/// The bits of -0.0.
pub const NEGATIVE_ZERO: u64 = 0x8000_0000_0000_0000;

/// A part of the settings that has to be an object.
#[derive(Clone, Copy, Debug, PartialEq, Eq, Structural)]
pub enum OrcaLevel {
    Json,
    General,
    Profiles,
    DefaultProfile,
    Voices,
    Family,
    DefaultVoice,
    DefaultVoiceFamily,
}

/// Why the screen reader cannot be set so.
#[derive(Clone, Copy, Debug, PartialEq, Eq, Structural)]
pub enum OrcaError {
    /// There is no such option.
    InvalidOption,
    /// The value is no number in the range of the option.
    OutOfRange,
    /// The settings are no JSON.
    BadJson,
    /// A part of the settings is no object.
    NotObject(OrcaLevel),
    /// "Invalid voice specified".
    InvalidVoice,
    /// "Invalid locale specified".
    InvalidLocale,
}

impl OrcaLevel {
    pub open spec fn text(self) -> Seq<char> {
        match self {
            OrcaLevel::Json => "json"@,
            OrcaLevel::General => "general"@,
            OrcaLevel::Profiles => "profiles"@,
            OrcaLevel::DefaultProfile => "default profile"@,
            OrcaLevel::Voices => "voices"@,
            OrcaLevel::Family => "family"@,
            OrcaLevel::DefaultVoice => "default voice"@,
            OrcaLevel::DefaultVoiceFamily => "default voice family"@,
        }
    }

    /// What is reported of a part that is no object.
    pub fn message(self) -> (r: String)
        ensures
            r@ == "orca user-settings.conf "@ + self.text() + " is not an object"@,
    {
        let name: &str = match self {
            OrcaLevel::Json => "json",
            OrcaLevel::General => "general",
            OrcaLevel::Profiles => "profiles",
            OrcaLevel::DefaultProfile => "default profile",
            OrcaLevel::Voices => "voices",
            OrcaLevel::Family => "family",
            OrcaLevel::DefaultVoice => "default voice",
            OrcaLevel::DefaultVoiceFamily => "default voice family",
        };
        concat(concat("orca user-settings.conf ", name).as_str(), " is not an object")
    }
}

/// A voice that can be chosen.
#[derive(Debug, PartialEq, Eq)]
pub struct Voice {
    pub name: String,
    pub language: String,
    pub variant: Option<String>,
}

// ---------------------------------------------------------------------------
// The way to the default voice
// ---------------------------------------------------------------------------

/// The object under a key; an empty one if there is none; `None` if there is
/// something else.
pub open spec fn object_at(m: Map<Seq<char>, serde_json::Value>, key: Seq<char>) -> Option<
    Map<Seq<char>, serde_json::Value>,
> {
    if m.contains_key(key) {
        members(m[key])
    } else {
        Some(no_members())
    }
}

/// The objects on the way to the default voice of the default profile.
pub struct VoicePath {
    pub root: Map<Seq<char>, serde_json::Value>,
    pub profiles: Map<Seq<char>, serde_json::Value>,
    pub profile: Map<Seq<char>, serde_json::Value>,
    pub voices: Map<Seq<char>, serde_json::Value>,
}

/// The way to the default voice, made where it is missing, or the first part of
/// it that is no object.
pub open spec fn voice_path(json: serde_json::Value) -> Result<VoicePath, OrcaLevel> {
    match members(json) {
        None => Err(OrcaLevel::Json),
        Some(root) => match object_at(root, "profiles"@) {
            None => Err(OrcaLevel::Profiles),
            Some(profiles) => match object_at(profiles, "default"@) {
                None => Err(OrcaLevel::DefaultProfile),
                Some(profile) => match object_at(profile, "voices"@) {
                    None => Err(OrcaLevel::Voices),
                    Some(voices) => Ok(VoicePath { root, profiles, profile, voices }),
                },
            },
        },
    }
}

/// The document with the default voice replaced.
pub open spec fn with_default_voice(p: VoicePath, voice: serde_json::Value) -> serde_json::Value {
    json_object(
        p.root.insert(
            "profiles"@,
            json_object(
                p.profiles.insert(
                    "default"@,
                    json_object(
                        p.profile.insert(
                            "voices"@,
                            json_object(p.voices.insert("default"@, voice)),
                        ),
                    ),
                ),
            ),
        ),
    )
}

pub open spec fn member(v: Option<serde_json::Value>, key: Seq<char>) -> Option<serde_json::Value> {
    match v {
        Some(v) => match members(v) {
            Some(m) => if m.contains_key(key) {
                Some(m[key])
            } else {
                None
            },
            None => None,
        },
        None => None,
    }
}

/// The default voice of a document, if it has one.
pub open spec fn default_voice_in(json: serde_json::Value) -> Option<serde_json::Value> {
    member(member(member(member(Some(json), "profiles"@), "default"@), "voices"@), "default"@)
}

/// Whether two values have the same members, but for those under a key.
pub open spec fn same_but(
    a: Option<serde_json::Value>,
    b: Option<serde_json::Value>,
    key: Seq<char>,
) -> bool {
    forall|k: Seq<char>| k != key ==> #[trigger] member(a, k) == member(b, k)
}

/// Whether two documents differ in nothing but the default voice.
pub open spec fn same_around_voice(a: serde_json::Value, b: serde_json::Value) -> bool {
    let a1 = member(Some(a), "profiles"@);
    let b1 = member(Some(b), "profiles"@);
    let a2 = member(a1, "default"@);
    let b2 = member(b1, "default"@);
    &&& same_but(Some(a), Some(b), "profiles"@)
    &&& same_but(a1, b1, "default"@)
    &&& same_but(a2, b2, "voices"@)
    &&& same_but(member(a2, "voices"@), member(b2, "voices"@), "default"@)
}

/// The objects on the way, each without the next one.
struct OpenPath {
    root: serde_json::Map<String, serde_json::Value>,
    profiles: serde_json::Map<String, serde_json::Value>,
    profile: serde_json::Map<String, serde_json::Value>,
    voices: serde_json::Map<String, serde_json::Value>,
}

spec fn is_open(o: OpenPath, p: VoicePath) -> bool {
    &&& entries(o.root) == p.root.remove("profiles"@)
    &&& entries(o.profiles) == p.profiles.remove("default"@)
    &&& entries(o.profile) == p.profile.remove("voices"@)
    &&& entries(o.voices) == p.voices
}

/// Takes out the object under `key`, or makes an empty one.
fn take_object(m: &mut serde_json::Map<String, serde_json::Value>, key: &str) -> (r: Option<
    serde_json::Map<String, serde_json::Value>,
>)
    ensures
        entries(*final(m)) == entries(*old(m)).remove(key@),
        match r {
            Some(o) => object_at(entries(*old(m)), key@) == Some(entries(o)),
            None => object_at(entries(*old(m)), key@) is None,
        },
{
    match remove(m, key) {
        Some(v) => into_object(v),
        None => Some(new_object()),
    }
}

fn open_path(json: serde_json::Value) -> (r: Result<OpenPath, OrcaLevel>)
    ensures
        match voice_path(json) {
            Ok(p) => r matches Ok(o) && is_open(o, p),
            Err(e) => r matches Err(f) && f == e,
        },
{
    let mut root = match into_object(json) {
        Some(m) => m,
        None => {
            return Err(OrcaLevel::Json);
        },
    };
    let mut profiles = match take_object(&mut root, "profiles") {
        Some(m) => m,
        None => {
            return Err(OrcaLevel::Profiles);
        },
    };
    let mut profile = match take_object(&mut profiles, "default") {
        Some(m) => m,
        None => {
            return Err(OrcaLevel::DefaultProfile);
        },
    };
    let voices = match take_object(&mut profile, "voices") {
        Some(m) => m,
        None => {
            return Err(OrcaLevel::Voices);
        },
    };
    Ok(OpenPath { root, profiles, profile, voices })
}

fn close_path(path: OpenPath, voice: serde_json::Value, Ghost(p): Ghost<VoicePath>) -> (r:
    serde_json::Value)
    requires
        entries(path.root) == p.root.remove("profiles"@),
        entries(path.profiles) == p.profiles.remove("default"@),
        entries(path.profile) == p.profile.remove("voices"@),
        entries(path.voices) == p.voices.remove("default"@),
    ensures
        r == with_default_voice(p, voice),
        default_voice_in(r) == Some(voice),
        forall|json: serde_json::Value|
            voice_path(json) == Ok::<VoicePath, OrcaLevel>(p) ==> #[trigger] same_around_voice(
                json,
                r,
            ),
{
    let mut path = path;
    let _ = insert(&mut path.voices, "default", voice);
    assert(entries(path.voices) =~= p.voices.insert("default"@, voice));
    let voices = from_object(path.voices);
    let _ = insert(&mut path.profile, "voices", voices);
    assert(entries(path.profile) =~= p.profile.insert("voices"@, voices));
    let profile = from_object(path.profile);
    let _ = insert(&mut path.profiles, "default", profile);
    assert(entries(path.profiles) =~= p.profiles.insert("default"@, profile));
    let profiles = from_object(path.profiles);
    let _ = insert(&mut path.root, "profiles", profiles);
    assert(entries(path.root) =~= p.root.insert("profiles"@, profiles));
    let r = from_object(path.root);
    assert forall|json: serde_json::Value|
        voice_path(json) == Ok::<VoicePath, OrcaLevel>(
            p,
        ) implies #[trigger] same_around_voice(json, r) by {
        let a1 = member(Some(json), "profiles"@);
        let a2 = member(a1, "default"@);
        assert(members(json) == Some(p.root));
        assert(member(Some(r), "profiles"@) == Some(profiles));
        assert(member(Some(profiles), "default"@) == Some(profile));
        assert(member(Some(profile), "voices"@) == Some(voices));
        assert(same_but(Some(json), Some(r), "profiles"@));
        assert(same_but(a1, Some(profiles), "default"@));
        assert(same_but(a2, Some(profile), "voices"@));
        assert(same_but(member(a2, "voices"@), Some(voices), "default"@));
    }
    r
}

// ---------------------------------------------------------------------------
// Changing the document
// ---------------------------------------------------------------------------

/// The document with an option of the default voice set.
pub open spec fn with_option(
    json: serde_json::Value,
    option: Seq<char>,
    value: serde_json::Value,
) -> Result<serde_json::Value, OrcaError> {
    match voice_path(json) {
        Err(level) => Err(OrcaError::NotObject(level)),
        Ok(p) => match object_at(p.voices, "default"@) {
            None => Err(OrcaError::NotObject(OrcaLevel::DefaultVoice)),
            Some(voice) => Ok(with_default_voice(p, json_object(voice.insert(option, value)))),
        },
    }
}

/// Sets an option of the default voice.
pub fn put_option(json: serde_json::Value, option: &str, value: serde_json::Value) -> (r: Result<
    serde_json::Value,
    OrcaError,
>)
    ensures
        r == with_option(json, option@, value),
        r matches Ok(v) ==> {
            &&& member(default_voice_in(v), option@) == Some(value)
            &&& forall|k: Seq<char>|
                k != option@ && default_voice_in(json) is Some ==> #[trigger] member(
                    default_voice_in(v),
                    k,
                ) == member(default_voice_in(json), k)
            &&& same_but(default_voice_in(json), default_voice_in(v), option@)
            &&& same_around_voice(json, v)
        },
{
    let ghost p = voice_path(json)->Ok_0;
    let mut path = match open_path(json) {
        Ok(path) => path,
        Err(level) => {
            return Err(OrcaError::NotObject(level));
        },
    };
    let mut voice = match take_object(&mut path.voices, "default") {
        Some(m) => m,
        None => {
            return Err(OrcaError::NotObject(OrcaLevel::DefaultVoice));
        },
    };
    let _ = insert(&mut voice, option, value);
    let voice = from_object(voice);
    Ok(close_path(path, voice, Ghost(p)))
}

pub open spec fn language_of(v: Voice) -> Seq<char> {
    match cut_once(v.language@, '-') {
        Some((language, _)) => language,
        None => v.language@,
    }
}

/// What follows the first hyphen of the language, if it has one.
pub open spec fn dialect_of(v: Voice) -> Seq<char> {
    match cut_once(v.language@, '-') {
        Some((_, dialect)) => dialect,
        None => Seq::empty(),
    }
}

pub open spec fn variant_of(v: Voice) -> Option<Seq<char>> {
    match v.variant {
        Some(variant) => Some(variant@),
        None => None,
    }
}

/// The family of a voice, over what stood there before.
pub open spec fn with_family(family: Map<Seq<char>, serde_json::Value>, v: Voice) -> Map<
    Seq<char>,
    serde_json::Value,
> {
    family.insert("name"@, json_text(v.name@)).insert("lang"@, json_text(language_of(v))).insert(
        "variant"@,
        json_text_or_null(variant_of(v)),
    ).insert("dialect"@, json_text(dialect_of(v)))
}

/// The document with the default voice set to `v` and marked as established.
pub open spec fn with_voice(json: serde_json::Value, v: Voice) -> Result<
    serde_json::Value,
    OrcaError,
> {
    match voice_path(json) {
        Err(level) => Err(OrcaError::NotObject(level)),
        Ok(p) => match object_at(p.voices, "default"@) {
            None => Err(OrcaError::NotObject(OrcaLevel::Family)),
            Some(voice) => match object_at(voice, "family"@) {
                None => Err(OrcaError::NotObject(OrcaLevel::DefaultVoiceFamily)),
                Some(family) => Ok(
                    with_default_voice(
                        p,
                        json_object(
                            voice.insert("family"@, json_object(with_family(family, v))).insert(
                                "established"@,
                                json_bool(true),
                            ),
                        ),
                    ),
                ),
            },
        },
    }
}

fn copy_variant(v: &Voice) -> (r: Option<String>)
    ensures
        r == v.variant,
{
    match &v.variant {
        Some(s) => Some(s.clone()),
        None => None,
    }
}

/// Sets the default voice.
pub fn put_voice(json: serde_json::Value, v: &Voice) -> (r: Result<serde_json::Value, OrcaError>)
    ensures
        r == with_voice(json, *v),
        r matches Ok(d) ==> {
            &&& voice_name_in(d) == Some(Some(v.name@))
            &&& member(default_voice_in(d), "established"@) == Some(json_bool(true))
            &&& forall|k: Seq<char>|
                k != "family"@ && k != "established"@ && default_voice_in(json) is Some
                    ==> #[trigger] member(default_voice_in(d), k) == member(
                    default_voice_in(json),
                    k,
                )
            &&& ({
                let before = member(default_voice_in(json), "family"@);
                let family = member(default_voice_in(d), "family"@);
                &&& member(family, "name"@) == Some(json_text(v.name@))
                &&& member(family, "lang"@) == Some(json_text(language_of(*v)))
                &&& member(family, "dialect"@) == Some(json_text(dialect_of(*v)))
                &&& member(family, "variant"@) == Some(json_text_or_null(variant_of(*v)))
                &&& forall|k: Seq<char>|
                    k != "name"@ && k != "lang"@ && k != "dialect"@ && k != "variant"@
                        ==> #[trigger] member(family, k) == member(before, k)
            })
            &&& same_around_voice(json, d)
        },
{
    proof {
        reveal_strlit("name");
        reveal_strlit("lang");
        reveal_strlit("variant");
        reveal_strlit("dialect");
        reveal_strlit("family");
        reveal_strlit("established");
        assert("name"@[0] != "lang"@[0]);
        assert("variant"@[0] != "dialect"@[0]);
        assert("name"@.len() == 4 && "variant"@.len() == 7 && "dialect"@.len() == 7);
        assert("family"@.len() == 6 && "established"@.len() == 11);
    }
    let ghost p = voice_path(json)->Ok_0;
    let mut path = match open_path(json) {
        Ok(path) => path,
        Err(level) => {
            return Err(OrcaError::NotObject(level));
        },
    };
    let mut voice = match take_object(&mut path.voices, "default") {
        Some(m) => m,
        None => {
            return Err(OrcaError::NotObject(OrcaLevel::Family));
        },
    };
    let ghost voice_before = entries(voice);
    let mut family = match take_object(&mut voice, "family") {
        Some(m) => m,
        None => {
            return Err(OrcaError::NotObject(OrcaLevel::DefaultVoiceFamily));
        },
    };
    let (language, dialect): (String, String) = match split_once(v.language.as_str(), '-') {
        Some((language, dialect)) => (language, dialect),
        None => (v.language.clone(), String::new()),
    };
    assert(language@ == language_of(*v));
    assert(dialect@ =~= dialect_of(*v));
    let _ = insert(&mut family, "name", from_text(v.name.as_str()));
    let _ = insert(&mut family, "lang", from_text(language.as_str()));
    let _ = insert(&mut family, "variant", from_optional_text(copy_variant(v)));
    let _ = insert(&mut family, "dialect", from_text(dialect.as_str()));
    let ghost family_after = entries(family);
    let family = from_object(family);
    let _ = insert(&mut voice, "family", family);
    assert(entries(voice) =~= voice_before.insert("family"@, family));
    let _ = insert(&mut voice, "established", from_bool(true));
    let voice = from_object(voice);
    let d = close_path(path, voice, Ghost(p));
    assert(member(default_voice_in(d), "family"@) == Some(family));
    assert(members(family) == Some(family_after));
    Ok(d)
}

/// The document with speech switched on or off.
pub open spec fn with_enabled(json: serde_json::Value, enabled: bool) -> Result<
    serde_json::Value,
    OrcaError,
> {
    match members(json) {
        None => Err(OrcaError::NotObject(OrcaLevel::Json)),
        Some(root) => match object_at(root, "general"@) {
            None => Err(OrcaError::NotObject(OrcaLevel::General)),
            Some(general) => Ok(
                json_object(
                    root.insert(
                        "general"@,
                        json_object(general.insert("enableSpeech"@, json_bool(enabled))),
                    ),
                ),
            ),
        },
    }
}

/// Switches speech on or off.
pub fn put_enabled(json: serde_json::Value, enabled: bool) -> (r: Result<
    serde_json::Value,
    OrcaError,
>)
    ensures
        r == with_enabled(json, enabled),
        r matches Ok(v) ==> {
            &&& member(member(Some(v), "general"@), "enableSpeech"@) == Some(json_bool(enabled))
            &&& same_but(Some(json), Some(v), "general"@)
            &&& same_but(
                member(Some(json), "general"@),
                member(Some(v), "general"@),
                "enableSpeech"@,
            )
        },
{
    let mut root = match into_object(json) {
        Some(m) => m,
        None => {
            return Err(OrcaError::NotObject(OrcaLevel::Json));
        },
    };
    let ghost before = entries(root);
    let mut general = match take_object(&mut root, "general") {
        Some(m) => m,
        None => {
            return Err(OrcaError::NotObject(OrcaLevel::General));
        },
    };
    let _ = insert(&mut general, "enableSpeech", from_bool(enabled));
    let general = from_object(general);
    let _ = insert(&mut root, "general", general);
    assert(entries(root) =~= before.insert("general"@, general));
    Ok(from_object(root))
}

// ---------------------------------------------------------------------------
// Reading the document
// ---------------------------------------------------------------------------

/// The name of the default voice: `None` if the document has none, `Some(None)`
/// if it is no text.
pub open spec fn voice_name_in(json: serde_json::Value) -> Option<Option<Seq<char>>> {
    match member(member(default_voice_in(json), "family"@), "name"@) {
        Some(name) => Some(text_in(name)),
        None => None,
    }
}

/// What is read from the settings.
#[derive(Debug, PartialEq, Eq)]
pub struct OrcaValues {
    /// The bits of the pitch.
    pub pitch: u64,
    /// The bits of the rate.
    pub rate: u64,
    /// The bits of the volume.
    pub volume: u64,
    /// The name of the voice.
    pub voice: String,
}

/// A number of the default voice: `missing` if it is not there, `bad` if it is
/// no number.
pub open spec fn number_at(
    voice: serde_json::Value,
    key: Seq<char>,
    missing: u64,
    bad: u64,
) -> u64 {
    match member(Some(voice), key) {
        Some(v) => match number_in(v) {
            Some(bits) => bits,
            None => bad,
        },
        None => missing,
    }
}

/// The values of a document over the rate, the volume and the voice from before.
/// Without a default voice all numbers are the defaults; else a missing pitch is
/// the default, and a missing rate or volume stays.
pub open spec fn is_loaded(
    json: serde_json::Value,
    rate: u64,
    volume: u64,
    voice_name: Seq<char>,
    after: OrcaValues,
) -> bool {
    match default_voice_in(json) {
        None => {
            &&& after.pitch == PITCH_DEFAULT
            &&& after.rate == RATE_DEFAULT
            &&& after.volume == VOLUME_DEFAULT
            &&& after.voice@ == voice_name
        },
        Some(voice) => {
            &&& after.pitch == number_at(voice, PITCH_SETTING@, PITCH_DEFAULT, PITCH_DEFAULT)
            &&& after.rate == number_at(voice, RATE_SETTING@, rate, RATE_DEFAULT)
            &&& after.volume == number_at(voice, VOLUME_SETTING@, volume, VOLUME_DEFAULT)
            &&& after.voice@ == match voice_name_in(json) {
                Some(Some(name)) => name,
                Some(None) => "default"@,
                None => voice_name,
            }
        },
    }
}

fn read_number(voice: &serde_json::Value, key: &str, missing: u64, bad: u64) -> (r: u64)
    ensures
        r == number_at(*voice, key@, missing, bad),
{
    match get(voice, key) {
        Some(v) => match as_number(v) {
            Some(bits) => bits,
            None => bad,
        },
        None => missing,
    }
}

fn find_default_voice<'a>(json: &'a serde_json::Value) -> (r: Option<&'a serde_json::Value>)
    ensures
        match r {
            Some(v) => default_voice_in(*json) == Some(*v),
            None => default_voice_in(*json) is None,
        },
{
    let profiles = match get(json, "profiles") {
        Some(v) => v,
        None => {
            return None;
        },
    };
    let profile = match get(profiles, "default") {
        Some(v) => v,
        None => {
            return None;
        },
    };
    let voices = match get(profile, "voices") {
        Some(v) => v,
        None => {
            return None;
        },
    };
    get(voices, "default")
}

/// Reads the values of a document over those from before.
pub fn read_values(json: &serde_json::Value, before: OrcaValues) -> (r: OrcaValues)
    ensures
        is_loaded(*json, before.rate, before.volume, before.voice@, r),
{
    let voice = match find_default_voice(json) {
        Some(voice) => voice,
        None => {
            return OrcaValues {
                pitch: PITCH_DEFAULT,
                rate: RATE_DEFAULT,
                volume: VOLUME_DEFAULT,
                voice: before.voice,
            };
        },
    };
    let name: String = match get(voice, "family") {
        Some(family) => match get(family, "name") {
            Some(name) => match as_text(name) {
                Some(name) => name,
                None => "default".to_owned(),
            },
            None => before.voice,
        },
        None => before.voice,
    };
    OrcaValues {
        pitch: read_number(voice, PITCH_SETTING, PITCH_DEFAULT, PITCH_DEFAULT),
        rate: read_number(voice, RATE_SETTING, before.rate, RATE_DEFAULT),
        volume: read_number(voice, VOLUME_SETTING, before.volume, VOLUME_DEFAULT),
        voice: name,
    }
}

// ---------------------------------------------------------------------------
// The settings file
// ---------------------------------------------------------------------------

/// The highest value of an option, given by its bits; the lowest is 0.
pub open spec fn max_of(option: Seq<char>) -> Option<u64> {
    if option == PITCH_SETTING@ {
        Some(PITCH_MAX)
    } else if option == RATE_SETTING@ {
        Some(RATE_MAX)
    } else if option == VOLUME_SETTING@ {
        Some(VOLUME_MAX)
    } else {
        None
    }
}

/// Whether a double lies between 0 and a positive bound, both given by their
/// bits. Doubles without a sign are ordered as their bits are; negative zero
/// equals zero.
pub open spec fn is_in_range(bits: u64, max: u64) -> bool {
    bits <= max || bits == NEGATIVE_ZERO
}

/// Whether an option may be set to a value.
pub open spec fn option_checked(option: Seq<char>, value: serde_json::Value) -> Result<
    (),
    OrcaError,
> {
    match max_of(option) {
        None => Err(OrcaError::InvalidOption),
        Some(max) => match number_in(value) {
            Some(bits) => if is_in_range(bits, max) {
                Ok(())
            } else {
                Err(OrcaError::OutOfRange)
            },
            None => Err(OrcaError::OutOfRange),
        },
    }
}

/// Checks that an option may be set to a value.
pub fn check_option(option: &str, value: &serde_json::Value) -> (r: Result<(), OrcaError>)
    ensures
        r == option_checked(option@, *value),
{
    let max: u64 = if same_text(option, PITCH_SETTING) {
        PITCH_MAX
    } else if same_text(option, RATE_SETTING) {
        RATE_MAX
    } else if same_text(option, VOLUME_SETTING) {
        VOLUME_MAX
    } else {
        return Err(OrcaError::InvalidOption);
    };
    match as_number(value) {
        Some(bits) => {
            if bits <= max || bits == NEGATIVE_ZERO {
                Ok(())
            } else {
                Err(OrcaError::OutOfRange)
            }
        },
        None => Err(OrcaError::OutOfRange),
    }
}

/// What is written for a changed document.
pub open spec fn written(document: Result<serde_json::Value, OrcaError>) -> Result<
    Seq<char>,
    OrcaError,
> {
    match document {
        Err(e) => Err(e),
        Ok(v) => Ok(json_notation(v)),
    }
}

/// Whether a function that writes settings returned what it should.
pub open spec fn is_text_or_error(
    r: Result<String, OrcaError>,
    expected: Result<Seq<char>, OrcaError>,
) -> bool {
    match expected {
        Ok(text) => r matches Ok(s) && s@ == text,
        Err(e) => r matches Err(f) && f == e,
    }
}

fn write_document(document: Result<serde_json::Value, OrcaError>) -> (r: Result<String, OrcaError>)
    ensures
        is_text_or_error(r, written(document)),
{
    match document {
        Err(e) => Err(e),
        Ok(v) => Ok(print(&v).unwrap()),
    }
}

/// The settings with speech switched on or off; `data` are the settings.
pub fn set_orca_enabled(data: &str, enabled: bool) -> (r: Result<String, OrcaError>)
    ensures
        match json_in(data@) {
            None => r matches Err(e) && e == OrcaError::BadJson,
            Some(json) => is_text_or_error(r, written(with_enabled(json, enabled))),
        },
{
    match parse(data) {
        Err(_) => Err(OrcaError::BadJson),
        Ok(json) => write_document(put_enabled(json, enabled)),
    }
}

/// The settings with the default voice set.
pub fn set_orca_voice(data: &str, voice: &Voice) -> (r: Result<String, OrcaError>)
    ensures
        match json_in(data@) {
            None => r matches Err(e) && e == OrcaError::BadJson,
            Some(json) => is_text_or_error(r, written(with_voice(json, *voice))),
        },
{
    match parse(data) {
        Err(_) => Err(OrcaError::BadJson),
        Ok(json) => write_document(put_voice(json, voice)),
    }
}

/// The settings with an option of the default voice set.
pub fn set_orca_option(data: &str, option: &str, value: serde_json::Value) -> (r: Result<
    String,
    OrcaError,
>)
    ensures
        match option_checked(option@, value) {
            Err(e) => r matches Err(f) && f == e,
            Ok(()) => match json_in(data@) {
                None => r matches Err(e) && e == OrcaError::BadJson,
                Some(json) => is_text_or_error(r, written(with_option(json, option@, value))),
            },
        },
{
    match check_option(option, &value) {
        Err(e) => {
            return Err(e);
        },
        Ok(()) => {},
    }
    match parse(data) {
        Err(_) => Err(OrcaError::BadJson),
        Ok(json) => write_document(put_option(json, option, value)),
    }
}

/// Reads the settings over the values from before; if they are no JSON, the
/// values from before stay.
pub fn load_values(data: &str, before: OrcaValues) -> (r: (OrcaValues, Result<(), OrcaError>))
    ensures
        match json_in(data@) {
            None => r.0 == before && r.1 == Err::<(), OrcaError>(OrcaError::BadJson),
            Some(json) => is_loaded(json, before.rate, before.volume, before.voice@, r.0) && r.1
                == Ok::<(), OrcaError>(()),
        },
{
    match parse(data) {
        Err(_) => (before, Err(OrcaError::BadJson)),
        Ok(json) => (read_values(&json, before), Ok(())),
    }
}

// ---------------------------------------------------------------------------
// Laws
// ---------------------------------------------------------------------------

/// The language of a voice and its dialect are the two sides of the first hyphen
/// of its locale; without a hyphen there is no dialect.
pub proof fn law_language_parts(v: Voice)
    ensures
        has_no(language_of(v), '-'),
        v.language@ == language_of(v) || v.language@ == language_of(v).push('-') + dialect_of(v),
        v.language@ == language_of(v) ==> dialect_of(v).len() == 0,
{
    law_cut_once(v.language@, '-');
}

/// Every part of the way to the default voice has to be an object if it is
/// there. The first that is not one is named.
pub proof fn law_parts_are_objects(json: serde_json::Value, option: Seq<char>, v: serde_json::Value)
    ensures
        ({
            let a1 = member(Some(json), "profiles"@);
            let a2 = member(a1, "default"@);
            let a3 = member(a2, "voices"@);
            let a4 = member(a3, "default"@);
            let bad = |a: Option<serde_json::Value>| a matches Some(x) && members(x) is None;
            let r = with_option(json, option, v);
            &&& members(json) is None <==> r == Err::<serde_json::Value, OrcaError>(
                OrcaError::NotObject(OrcaLevel::Json),
            )
            &&& bad(a1) && members(json) is Some <==> r == Err::<serde_json::Value, OrcaError>(
                OrcaError::NotObject(OrcaLevel::Profiles),
            )
            &&& bad(a2) <==> r == Err::<serde_json::Value, OrcaError>(
                OrcaError::NotObject(OrcaLevel::DefaultProfile),
            )
            &&& bad(a3) <==> r == Err::<serde_json::Value, OrcaError>(
                OrcaError::NotObject(OrcaLevel::Voices),
            )
            &&& bad(a4) <==> r == Err::<serde_json::Value, OrcaError>(
                OrcaError::NotObject(OrcaLevel::DefaultVoice),
            )
            &&& members(json) is Some && !bad(a1) && !bad(a2) && !bad(a3) && !bad(a4) <==> r is Ok
        }),
{
}

/// Switching speech needs the document and its general part to be objects; the
/// general part may be missing.
pub proof fn law_general_is_object(json: serde_json::Value, enabled: bool)
    ensures
        with_enabled(json, enabled) is Ok <==> members(json) is Some && (member(
            Some(json),
            "general"@,
        ) matches Some(x) ==> members(x) is Some),
        members(json) is None ==> with_enabled(json, enabled) == Err::<
            serde_json::Value,
            OrcaError,
        >(OrcaError::NotObject(OrcaLevel::Json)),
{
}

/// A number of the default voice is read as it stands. What is no number counts
/// as the default, and so does a missing pitch; a missing rate or volume stays
/// what it was.
pub proof fn law_numbers_are_loaded(
    json: serde_json::Value,
    rate: u64,
    volume: u64,
    name: Seq<char>,
    after: OrcaValues,
)
    requires
        is_loaded(json, rate, volume, name, after),
    ensures
        ({
            let voice = default_voice_in(json);
            &&& member(voice, "average-pitch"@) matches Some(v) ==> after.pitch == match number_in(
                v,
            ) {
                Some(bits) => bits,
                None => PITCH_DEFAULT,
            }
            &&& member(voice, "average-pitch"@) is None ==> after.pitch == PITCH_DEFAULT
            &&& member(voice, "rate"@) matches Some(v) ==> after.rate == match number_in(v) {
                Some(bits) => bits,
                None => RATE_DEFAULT,
            }
            &&& member(voice, "rate"@) is None && voice is Some ==> after.rate == rate
            &&& member(voice, "gain"@) matches Some(v) ==> after.volume == match number_in(v) {
                Some(bits) => bits,
                None => VOLUME_DEFAULT,
            }
            &&& member(voice, "gain"@) is None && voice is Some ==> after.volume == volume
            &&& voice is None ==> after.rate == RATE_DEFAULT && after.volume == VOLUME_DEFAULT
            &&& member(member(voice, "family"@), "name"@) matches Some(v) ==> after.voice@
                == match text_in(v) {
                Some(text) => text,
                None => "default"@,
            }
            &&& member(member(voice, "family"@), "name"@) is None ==> after.voice@ == name
        }),
{
}

/// Whether some bits are those of the double with the value of a whole number
/// from 1 on: a fraction of 52 bits behind a one, times a power of two.
pub open spec fn is_double_of(bits: u64, n: nat) -> bool {
    let one: nat = 0x10_0000_0000_0000;
    let exponent = bits as nat / one;
    let fraction = bits as nat % one;
    exponent >= 1023 && doubled(one + fraction, (exponent - 1023) as nat) == n * one
}

/// A number doubled some times.
pub open spec fn doubled(n: nat, times: nat) -> nat
    decreases times,
{
    if times == 0 {
        n
    } else {
        2 * doubled(n, (times - 1) as nat)
    }
}

/// The defaults are 5, 50 and 10, and the highest values 10, 100 and 10.
pub proof fn law_bounds_are_doubles()
    ensures
        is_double_of(PITCH_DEFAULT, 5),
        is_double_of(RATE_DEFAULT, 50),
        is_double_of(VOLUME_DEFAULT, 10),
        max_of("average-pitch"@) matches Some(m) && is_double_of(m, 10),
        max_of("rate"@) matches Some(m) && is_double_of(m, 100),
        max_of("gain"@) matches Some(m) && is_double_of(m, 10),
{
    reveal_with_fuel(doubled, 7);
    let one: nat = 0x10_0000_0000_0000;
    assert(PITCH_DEFAULT as nat / one == 1025);
    assert(RATE_DEFAULT as nat / one == 1028);
    assert(VOLUME_DEFAULT as nat / one == 1026);
    assert(RATE_MAX as nat / one == 1029);
    reveal_strlit("average-pitch");
    reveal_strlit("rate");
    reveal_strlit("gain");
    assert("rate"@[0] != "gain"@[0]);
    assert("average-pitch"@.len() != "rate"@.len());
}

/// Only the three options can be set, and only to a number from 0 to the highest
/// value, both included. Where one value is accepted, so is every lower one that
/// is not negative.
pub proof fn law_options_are_bounded(
    option: Seq<char>,
    value: serde_json::Value,
    lower: serde_json::Value,
    bits: u64,
    low: u64,
)
    requires
        number_in(value) == Some(bits),
        number_in(lower) == Some(low),
    ensures
        option_checked(option, value) == Err::<(), OrcaError>(OrcaError::InvalidOption) <==> option
            != "average-pitch"@ && option != "rate"@ && option != "gain"@,
        max_of(option) == Some(bits) ==> option_checked(option, value) is Ok,
        option_checked(option, value) is Ok && low <= bits && bits < 0x8000_0000_0000_0000
            ==> option_checked(option, lower) is Ok,
        max_of(option) matches Some(max) && bits > max && bits != 0x8000_0000_0000_0000
            ==> option_checked(option, value) == Err::<(), OrcaError>(OrcaError::OutOfRange),
        max_of(option) is Some && bits == 0 ==> option_checked(option, value) is Ok,
        option_checked(option, value) is Ok && bits > 0x8000_0000_0000_0000 ==> false,
{
}

/// What is no number cannot be set.
pub proof fn law_options_are_numbers(option: Seq<char>, value: serde_json::Value)
    ensures
        number_in(value) is None ==> option_checked(option, value) is Err,
{
}

} // verus!
