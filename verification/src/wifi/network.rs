//! The Wi-Fi settings of NetworkManager, and the interfaces.
use crate::numbers::{decimal, lemma_decimal, signed_decimal, to_signed_decimal};
use crate::systemd::JobMode;
use crate::text::{
    cut_once, has_prefix, is_digit, law_cut_once, lemma_cut_once, lines, lines_of, lowered,
    same_text, split_once, texts, trim, trimmed, view_of,
};
use crate::wifi::ini::{
    add_ini, are_documents, are_ini, are_plain_lines, build, config_entry, entry_int, entry_text,
    get_entry, has_huge_key, holds_documents, holds_huge_key, holds_lines, ini_sources, into_int,
    into_text, is_configuration_of, is_document, is_last_document, is_plain_key, is_plain_value,
    is_section_name, lines_text, new_builder, no_sources, open_section,
    value_in_documents, value_in_lines, value_number, IniLine,
};
use crate::wifi::values::{NmSettingWirelessPowersave, WifiBackend, WifiPowerManagement};
use vstd::prelude::*;

verus! {

// ---------------------------------------------------------------------------
// The settings
// ---------------------------------------------------------------------------

/// The Wi-Fi settings of NetworkManager.
#[derive(Clone, Copy, Debug, PartialEq, Eq, Structural)]
pub struct NmWifiSettings {
    pub backend: WifiBackend,
    pub powersave: NmSettingWirelessPowersave,
}

/// Why the settings cannot be read.
#[derive(Clone, Copy, Debug, PartialEq, Eq, Structural)]
pub enum NmError {
    /// A configuration file cannot be read.
    BadConfig,
    /// "Wi-Fi backend not found in config".
    NoBackend,
    /// The backend is no text, or not one that is known.
    BadBackend,
    /// The power saving is no number, or not one that is known.
    BadPowersave,
}

impl NmError {
    /// What is reported, where it is worded here and not by what failed.
    pub open spec fn text(self) -> Option<Seq<char>> {
        match self {
            NmError::BadConfig => None,
            NmError::NoBackend => Some("Wi-Fi backend not found in config"@),
            NmError::BadBackend => None,
            NmError::BadPowersave => None,
        }
    }

    /// What is reported, where it is worded here and not by what failed.
    pub fn message(self) -> (r: Option<String>)
        ensures
            view_of(r) == self.text(),
    {
        match self {
            NmError::BadConfig => None,
            NmError::NoBackend => Some("Wi-Fi backend not found in config".to_owned()),
            NmError::BadBackend => None,
            NmError::BadPowersave => None,
        }
    }
}

/// What the configuration says of a setting.
#[derive(Debug, PartialEq, Eq)]
pub enum Entry<T> {
    Missing,
    /// It is there, but it is not of the right kind.
    Bad,
    Value(T),
}

/// The settings that two entries stand for: there has to be a backend; power
/// saving is on unless it is set.
pub open spec fn settings_of(backend: Entry<String>, powersave: Entry<i64>) -> Result<
    NmWifiSettings,
    NmError,
> {
    match backend {
        Entry::Missing => Err(NmError::NoBackend),
        Entry::Bad => Err(NmError::BadBackend),
        Entry::Value(name) => match WifiBackend::spelled(name@) {
            None => Err(NmError::BadBackend),
            Some(backend) => match powersave {
                Entry::Missing => Ok(
                    NmWifiSettings { backend, powersave: NmSettingWirelessPowersave::Enable },
                ),
                Entry::Bad => Err(NmError::BadPowersave),
                Entry::Value(n) => match NmSettingWirelessPowersave::numbered(n) {
                    None => Err(NmError::BadPowersave),
                    Some(powersave) => Ok(NmWifiSettings { backend, powersave }),
                },
            },
        },
    }
}

/// The settings that two entries of the configuration stand for.
pub fn read_nm_settings(backend: Entry<String>, powersave: Entry<i64>) -> (r: Result<
    NmWifiSettings,
    NmError,
>)
    ensures
        r == settings_of(backend, powersave),
{
    let backend: WifiBackend = match backend {
        Entry::Missing => {
            return Err(NmError::NoBackend);
        },
        Entry::Bad => {
            return Err(NmError::BadBackend);
        },
        Entry::Value(name) => match WifiBackend::from_str(name.as_str()) {
            Ok(backend) => backend,
            Err(_) => {
                return Err(NmError::BadBackend);
            },
        },
    };
    match powersave {
        Entry::Missing => Ok(
            NmWifiSettings { backend, powersave: NmSettingWirelessPowersave::Enable },
        ),
        Entry::Bad => Err(NmError::BadPowersave),
        Entry::Value(n) => match NmSettingWirelessPowersave::try_from(n) {
            Ok(powersave) => Ok(NmWifiSettings { backend, powersave }),
            Err(_) => Err(NmError::BadPowersave),
        },
    }
}

pub open spec fn plain_setting(key: Seq<char>, value: Seq<char>) -> IniLine {
    IniLine::Setting { key, before: Seq::empty(), after: Seq::empty(), value }
}

/// The lines of the file that is written.
pub open spec fn nm_lines(s: NmWifiSettings) -> Seq<IniLine> {
    seq![
        IniLine::Section("connection"@),
        plain_setting("wifi.powersave"@, signed_decimal(s.powersave.number() as int)),
        IniLine::Section("device"@),
        plain_setting("wifi.backend"@, s.backend.spelling()),
    ]
}

/// The file that is written for some settings.
pub open spec fn nm_contents(s: NmWifiSettings) -> Seq<char> {
    "[connection]\nwifi.powersave="@ + signed_decimal(s.powersave.number() as int)
        + "\n[device]\nwifi.backend="@ + s.backend.spelling() + "\n"@
}

proof fn lemma_names_are_plain()
    ensures
        "connection"@ != "device"@,
        is_section_name("connection"@),
        is_section_name("device"@),
        is_plain_key("wifi.powersave"@),
        is_plain_key("wifi.backend"@),
{
    reveal_strlit("connection");
    reveal_strlit("device");
    reveal_strlit("wifi.powersave");
    reveal_strlit("wifi.backend");
    assert("connection"@.len() != "device"@.len());
}

proof fn lemma_number_is_plain(n: nat)
    requires
        n <= i64::MAX,
    ensures
        is_plain_value(signed_decimal(n as int)),
        value_number(signed_decimal(n as int)) == Some(n as i64),
{
    reveal_strlit("true");
    reveal_strlit("on");
    reveal_strlit("yes");
    reveal_strlit("false");
    reveal_strlit("off");
    reveal_strlit("no");
    lemma_decimal(n);
    let d = signed_decimal(n as int);
    assert(d == decimal(n));
    assert forall|i: int| 0 <= i < d.len() implies ' ' <= #[trigger] d[i] <= '~' && d[i] != '"'
        && d[i] != '\'' && d[i] != '\\' && d[i] != ' ' by {
        assert(is_digit(d[i]));
    }
    assert(is_digit(d[0]));
    assert(lowered(d)[0] == d[0]);
}

proof fn lemma_contents_are_lines(s: NmWifiSettings)
    ensures
        is_document(nm_contents(s), nm_lines(s)),
        value_in_lines(nm_lines(s), "connection"@, "wifi.powersave"@) == Some(
            signed_decimal(s.powersave.number() as int),
        ),
        value_in_lines(nm_lines(s), "device"@, "wifi.backend"@) == Some(s.backend.spelling()),
        value_number(signed_decimal(s.powersave.number() as int)) == Some(s.powersave.number()),
{
    reveal_strlit("[connection]\nwifi.powersave=");
    reveal_strlit("\n[device]\nwifi.backend=");
    reveal_strlit("\n");
    reveal_strlit("[");
    reveal_strlit("]");
    reveal_strlit("=");
    reveal_strlit("connection");
    reveal_strlit("device");
    reveal_strlit("wifi.powersave");
    reveal_strlit("wifi.backend");
    reveal_strlit("iwd");
    reveal_strlit("wpa_supplicant");
    lemma_names_are_plain();
    lemma_number_is_plain(s.powersave.number() as nat);
    let d = nm_lines(s);
    let number = signed_decimal(s.powersave.number() as int);
    let three = d.drop_last();
    let two = three.drop_last();
    let one = two.drop_last();
    assert(d.take(3) =~= three);
    assert(d.take(1) =~= one);
    assert(one.drop_last() =~= Seq::empty());
    reveal_with_fuel(lines_text, 5);
    reveal_with_fuel(open_section, 4);
    reveal_with_fuel(value_in_lines, 5);
    assert(open_section(one) == Some("connection"@));
    assert(open_section(three) == Some("device"@));
    assert(lines_text(one) =~= "["@ + "connection"@ + "]"@ + "\n"@);
    assert(lines_text(two) =~= "[connection]\nwifi.powersave="@ + number + "\n"@);
    assert(lines_text(d) =~= nm_contents(s));
    assert(is_plain_value(s.backend.spelling()));
    assert(are_plain_lines(d));
}

/// Whether the settings were just written: the last file is the one for them.
pub open spec fn is_last_written(files: Seq<String>, s: NmWifiSettings) -> bool {
    files.len() > 0 && files.last()@ == nm_contents(s)
}

/// What a configuration says of the backend.
pub open spec fn backend_entry(c: config::Config) -> Option<Option<Seq<char>>> {
    match config_entry(c, "device"@, "wifi.backend"@) {
        Some(v) => Some(entry_text(v)),
        None => None,
    }
}

/// What a configuration says of power saving.
pub open spec fn powersave_entry(c: config::Config) -> Option<Option<i64>> {
    match config_entry(c, "connection"@, "wifi.powersave"@) {
        Some(v) => Some(entry_int(v)),
        None => None,
    }
}

/// Whether an entry is what a configuration says.
pub open spec fn is_text_entry(e: Entry<String>, said: Option<Option<Seq<char>>>) -> bool {
    match e {
        Entry::Missing => said is None,
        Entry::Bad => said == Some(None::<Seq<char>>),
        Entry::Value(s) => said == Some(Some(s@)),
    }
}

pub open spec fn is_int_entry(e: Entry<i64>, said: Option<Option<i64>>) -> bool {
    match e {
        Entry::Missing => said is None,
        Entry::Bad => said == Some(None::<i64>),
        Entry::Value(n) => said == Some(Some(n)),
    }
}

/// Whether the settings are those of a configuration.
pub open spec fn are_settings_in(c: config::Config, r: Result<NmWifiSettings, NmError>) -> bool {
    exists|backend: Entry<String>, powersave: Entry<i64>|
        is_text_entry(backend, backend_entry(c)) && is_int_entry(powersave, powersave_entry(c)) && r
            == #[trigger] settings_of(backend, powersave)
}

pub open spec fn no_documents() -> Seq<Seq<IniLine>> {
    Seq::empty()
}

/// The settings in plain documents: there has to be a backend; power saving is
/// on unless it is set.
pub open spec fn settings_in_documents(documents: Seq<Seq<IniLine>>) -> Result<
    NmWifiSettings,
    NmError,
> {
    match value_in_documents(documents, "device"@, "wifi.backend"@) {
        None => Err(NmError::NoBackend),
        Some(name) => match WifiBackend::spelled(name) {
            None => Err(NmError::BadBackend),
            Some(backend) => match value_in_documents(
                documents,
                "connection"@,
                "wifi.powersave"@,
            ) {
                None => Ok(
                    NmWifiSettings { backend, powersave: NmSettingWirelessPowersave::Enable },
                ),
                Some(value) => match value_number(value) {
                    None => Err(NmError::BadPowersave),
                    Some(n) => match NmSettingWirelessPowersave::numbered(n) {
                        None => Err(NmError::BadPowersave),
                        Some(powersave) => Ok(NmWifiSettings { backend, powersave }),
                    },
                },
            },
        },
    }
}

/// Whether these are the settings in configuration files. If all files are plain
/// documents, a setting is the one of the last file that has it. If the last
/// one is the file that is written for some settings, these are the settings,
/// whatever the other files are.
pub open spec fn are_settings_of_files(
    files: Seq<String>,
    r: Result<NmWifiSettings, NmError>,
) -> bool {
    &&& r == Err::<NmWifiSettings, NmError>(NmError::BadConfig) <==> !are_ini(texts(files))
    &&& are_ini(texts(files)) ==> exists|c: config::Config|
        is_configuration_of(c, texts(files)) && #[trigger] are_settings_in(c, r)
    &&& forall|documents: Seq<Seq<IniLine>>| #[trigger]
        are_documents(texts(files), documents) ==> r == settings_in_documents(documents)
    &&& are_ini(texts(files)) ==> forall|s: NmWifiSettings| #[trigger]
        is_last_written(files, s) ==> r == Ok::<NmWifiSettings, NmError>(s)
    &&& files.len() == 0 ==> r == Err::<NmWifiSettings, NmError>(NmError::NoBackend)
}

/// The settings in the configuration files, given by their contents in the
/// order in which they are read.
pub fn get_nm_settings(files: &Vec<String>) -> (r: Result<NmWifiSettings, NmError>)
    requires
        forall|i: int| 0 <= i < files@.len() ==> !has_huge_key((#[trigger] files@[i])@),
    ensures
        are_settings_of_files(files@, r),
{
    let mut builder = new_builder();
    assert(texts(files@).take(0) =~= no_sources());
    for i in 0..files.len()
        invariant
            ini_sources(builder) == texts(files@).take(i as int),
    {
        assert(texts(files@).take(i + 1) =~= texts(files@).take(i as int).push(files@[i as int]@));
        builder = add_ini(builder, files[i].as_str());
    }
    assert(texts(files@).take(files@.len() as int) =~= texts(files@));
    assert forall|i: int| 0 <= i < ini_sources(builder).len() implies !has_huge_key(
        #[trigger] ini_sources(builder)[i],
    ) by {
        assert(ini_sources(builder)[i] == files@[i]@);
    }
    let config = match build(builder) {
        Ok(config) => config,
        Err(_) => {
            return Err(NmError::BadConfig);
        },
    };
    let backend: Entry<String> = match get_entry(&config, "device", "wifi.backend") {
        Some(v) => match into_text(v) {
            Ok(s) => Entry::Value(s),
            Err(_) => Entry::Bad,
        },
        None => Entry::Missing,
    };
    let powersave: Entry<i64> = match get_entry(&config, "connection", "wifi.powersave") {
        Some(v) => match into_int(v) {
            Ok(n) => Entry::Value(n),
            Err(_) => Entry::Bad,
        },
        None => Entry::Missing,
    };
    assert forall|s: NmWifiSettings| #[trigger] is_last_written(files@, s) implies settings_of(
        backend,
        powersave,
    ) == Ok::<NmWifiSettings, NmError>(s) by {
        lemma_contents_are_lines(s);
        assert(texts(files@).last() == files@.last()@);
        assert(is_last_document(ini_sources(builder), nm_lines(s)));
        assert(holds_lines(config, nm_lines(s)));
        s.backend.law_spelling_reads_back();
        s.powersave.law_number_reads_back(s.powersave.number());
        assert(backend matches Entry::Value(name) && name@ == s.backend.spelling());
        assert(powersave matches Entry::Value(n) && n == s.powersave.number());
    }
    assert forall|documents: Seq<Seq<IniLine>>| #[trigger]
        are_documents(texts(files@), documents) implies settings_of(backend, powersave)
        == settings_in_documents(documents) by {
        lemma_names_are_plain();
        assert(holds_documents(config, documents));
        let b = value_in_documents(documents, "device"@, "wifi.backend"@);
        let p = value_in_documents(documents, "connection"@, "wifi.powersave"@);
    }
    assert(is_text_entry(backend, backend_entry(config)));
    assert(is_int_entry(powersave, powersave_entry(config)));
    let r = read_nm_settings(backend, powersave);
    assert(r == settings_of(backend, powersave));
    assert(are_settings_in(config, r));
    assert(files@.len() == 0 ==> are_documents(texts(files@), no_documents()));
    r
}

/// The settings in the configuration files; `None` if one of the files has a key
/// that no configuration can be made for.
pub fn check_nm_settings(files: &Vec<String>) -> (r: Option<Result<NmWifiSettings, NmError>>)
    ensures
        match r {
            Some(settings) => are_settings_of_files(files@, settings) && forall|i: int|
                0 <= i < files@.len() ==> !has_huge_key((#[trigger] files@[i])@),
            None => exists|i: int| 0 <= i < files@.len() && has_huge_key((#[trigger] files@[i])@),
        },
        forall|documents: Seq<Seq<IniLine>>| #[trigger]
            are_documents(texts(files@), documents) ==> r is Some,
{
    for i in 0..files.len()
        invariant
            forall|k: int| 0 <= k < i ==> !has_huge_key((#[trigger] files@[k])@),
    {
        if holds_huge_key(files[i].as_str()) {
            assert(has_huge_key(files@[i as int]@));
            assert forall|documents: Seq<Seq<IniLine>>| #[trigger]
                are_documents(texts(files@), documents) implies false by {
                assert(is_document(texts(files@)[i as int], documents[i as int]));
            }
            return None;
        }
    }
    Some(get_nm_settings(files))
}

/// A step of putting settings into effect; if one fails, those behind it are
/// not done.
#[derive(Debug, PartialEq, Eq)]
pub enum NmStep {
    /// Write the settings file.
    Write(String),
    /// Stop the unit and wait until it has stopped.
    StopAndWait(&'static str, JobMode),
    Disable(&'static str),
    /// See to it that there is a Wi-Fi interface.
    EnsureInterface,
    Start(&'static str, JobMode),
    /// Make the unit reload and wait until it has.
    ReloadAndWait(&'static str, JobMode),
}

/// The unit that must not run with a backend.
pub open spec fn other_unit(backend: WifiBackend) -> Seq<char> {
    match backend {
        WifiBackend::Iwd => "wpa_supplicant.service"@,
        WifiBackend::WPASupplicant => "iwd.service"@,
    }
}

/// The steps behind the writing: with a restart, NetworkManager is stopped, the
/// other backend is disabled and stopped, the interface is made if need be,
/// and NetworkManager is started; else it is reloaded.
pub open spec fn are_nm_steps(r: Seq<NmStep>, s: NmWifiSettings, restart: bool) -> bool {
    &&& r.len() == (if restart { 6nat } else { 2nat })
    &&& r[0] matches NmStep::Write(contents) && contents@ == nm_contents(s)
    &&& restart ==> {
        &&& r[1] matches NmStep::StopAndWait(unit, mode) && unit@ == "NetworkManager.service"@
            && mode == JobMode::Fail
        &&& r[2] matches NmStep::Disable(unit) && unit@ == other_unit(s.backend)
        &&& r[3] matches NmStep::StopAndWait(unit, mode) && unit@ == other_unit(s.backend) && mode
            == JobMode::Fail
        &&& r[4] is EnsureInterface
        &&& r[5] matches NmStep::Start(unit, mode) && unit@ == "NetworkManager.service"@ && mode
            == JobMode::Fail
    }
    &&& !restart ==> (r[1] matches NmStep::ReloadAndWait(unit, mode) && unit@
        == "NetworkManager.service"@ && mode == JobMode::Fail)
}

/// The steps that put settings into effect.
pub fn set_nm_settings(settings: NmWifiSettings, restart: bool) -> (r: Vec<NmStep>)
    ensures
        are_nm_steps(r@, settings, restart),
{
    let mut contents: String = "[connection]\nwifi.powersave=".to_owned();
    contents.append(to_signed_decimal(settings.powersave.to_i64()).as_str());
    contents.append("\n[device]\nwifi.backend=");
    contents.append(settings.backend.to_string().as_str());
    contents.append("\n");
    let mut r: Vec<NmStep> = Vec::new();
    r.push(NmStep::Write(contents));
    if restart {
        let other: &'static str = match settings.backend {
            WifiBackend::Iwd => "wpa_supplicant.service",
            WifiBackend::WPASupplicant => "iwd.service",
        };
        r.push(NmStep::StopAndWait("NetworkManager.service", JobMode::Fail));
        r.push(NmStep::Disable(other));
        r.push(NmStep::StopAndWait(other, JobMode::Fail));
        r.push(NmStep::EnsureInterface);
        r.push(NmStep::Start("NetworkManager.service", JobMode::Fail));
    } else {
        r.push(NmStep::ReloadAndWait("NetworkManager.service", JobMode::Fail));
    }
    r
}

/// The backend of the settings that were read.
pub fn get_wifi_backend(settings: Result<NmWifiSettings, NmError>) -> (r: Result<
    WifiBackend,
    NmError,
>)
    ensures
        r == match settings {
            Ok(s) => Ok::<WifiBackend, NmError>(s.backend),
            Err(e) => Err(e),
        },
{
    match settings {
        Ok(s) => Ok(s.backend),
        Err(e) => Err(e),
    }
}

/// The steps that change the backend of the settings that were read.
pub fn set_wifi_backend(settings: Result<NmWifiSettings, NmError>, backend: WifiBackend) -> (r:
    Result<Vec<NmStep>, NmError>)
    ensures
        match settings {
            Ok(s) => r matches Ok(steps) && are_nm_steps(
                steps@,
                NmWifiSettings { backend, ..s },
                true,
            ),
            Err(e) => r matches Err(f) && f == e,
        },
{
    match settings {
        Ok(s) => Ok(
            set_nm_settings(NmWifiSettings { backend, powersave: s.powersave }, true),
        ),
        Err(e) => Err(e),
    }
}

// ---------------------------------------------------------------------------
// Interfaces
// ---------------------------------------------------------------------------

/// The interfaces in what `iw dev` prints: what follows the word `Interface`
/// and a blank.
pub open spec fn interfaces_in(rows: Seq<Seq<char>>) -> Seq<Seq<char>>
    decreases rows.len(),
{
    if rows.len() == 0 {
        Seq::empty()
    } else {
        let before = interfaces_in(rows.drop_last());
        match cut_once(trimmed(rows.last()), ' ') {
            Some((word, name)) => if word == "Interface"@ {
                before.push(name)
            } else {
                before
            },
            None => before,
        }
    }
}

/// The Wi-Fi interfaces, from what `iw dev` prints.
pub fn list_wifi_interfaces(output: &str) -> (r: Vec<String>)
    ensures
        texts(r@) == interfaces_in(lines_of(output@)),
{
    let rows: Vec<String> = lines(output);
    let mut r: Vec<String> = Vec::new();
    assert(texts(rows@).take(0) =~= Seq::<Seq<char>>::empty());
    assert(texts(r@) =~= Seq::<Seq<char>>::empty());
    for i in 0..rows.len()
        invariant
            texts(r@) == interfaces_in(texts(rows@).take(i as int)),
    {
        assert(texts(rows@).take(i + 1).drop_last() =~= texts(rows@).take(i as int));
        assert(texts(rows@).take(i + 1).last() == rows@[i as int]@);
        match split_once(trim(rows[i].as_str()).as_str(), ' ') {
            Some((word, name)) => {
                if same_text(word.as_str(), "Interface") {
                    let ghost before = r@;
                    r.push(name);
                    assert(texts(r@) =~= texts(before).push(name@));
                }
            },
            None => {},
        }
    }
    assert(texts(rows@).take(rows@.len() as int) =~= texts(rows@));
    r
}

/// How far the making of the interface is.
#[derive(Clone, Copy, Debug, PartialEq, Eq, Structural)]
pub enum InterfaceState {
    /// The interfaces are listed for the first time.
    Starting,
    /// The interface was added; so many lists have not shown it yet.
    Added { looked: u32 },
}

/// What is done after a list of the interfaces.
#[derive(Clone, Copy, Debug, PartialEq, Eq, Structural)]
pub enum InterfaceAction {
    /// There is an interface.
    Finish,
    /// Add the interface, by `iw` with the arguments for it, and list again.
    Add,
    /// Wait for a tenth of a second and list again.
    WaitAndList,
    /// Wait for a tenth of a second and fail: "wlan0 could not be created".
    WaitAndFail,
}

/// The arguments of the call of `iw` that adds the interface.
pub fn add_interface_arguments() -> (r: Vec<String>)
    ensures
        texts(r@) == seq![
            "phy"@,
            "phy0"@,
            "interface"@,
            "add"@,
            "wlan0"@,
            "type"@,
            "station"@,
        ],
{
    let mut r: Vec<String> = Vec::new();
    r.push("phy".to_owned());
    r.push("phy0".to_owned());
    r.push("interface".to_owned());
    r.push("add".to_owned());
    r.push("wlan0".to_owned());
    r.push("type".to_owned());
    r.push("station".to_owned());
    assert(texts(r@) =~= seq![
        "phy"@,
        "phy0"@,
        "interface"@,
        "add"@,
        "wlan0"@,
        "type"@,
        "station"@,
    ]);
    r
}

/// One look at the interfaces: whether there is one, and what is done.
pub open spec fn looked_at(state: InterfaceState, found: bool) -> (
    InterfaceState,
    InterfaceAction,
) {
    if found {
        (state, InterfaceAction::Finish)
    } else {
        match state {
            InterfaceState::Starting => (
                InterfaceState::Added { looked: 0 },
                InterfaceAction::Add,
            ),
            InterfaceState::Added { looked } => if looked < 9 {
                (
                    InterfaceState::Added { looked: (looked + 1) as u32 },
                    InterfaceAction::WaitAndList,
                )
            } else {
                (state, InterfaceAction::WaitAndFail)
            },
        }
    }
}

/// One look at the interfaces; `interfaces` is what was listed.
pub fn ensure_default_interface(state: InterfaceState, interfaces: &Vec<String>) -> (r: (
    InterfaceState,
    InterfaceAction,
))
    ensures
        r == looked_at(state, interfaces@.len() > 0),
{
    if interfaces.len() > 0 {
        return (state, InterfaceAction::Finish);
    }
    match state {
        InterfaceState::Starting => (InterfaceState::Added { looked: 0 }, InterfaceAction::Add),
        InterfaceState::Added { looked } => {
            if looked < 9 {
                (InterfaceState::Added { looked: looked + 1 }, InterfaceAction::WaitAndList)
            } else {
                (state, InterfaceAction::WaitAndFail)
            }
        },
    }
}

/// Where the making of the interface stands after so many lists without one.
pub open spec fn after_looks(n: nat) -> (InterfaceState, InterfaceAction)
    decreases n,
{
    if n == 0 {
        (InterfaceState::Starting, InterfaceAction::WaitAndList)
    } else {
        looked_at(after_looks((n - 1) as nat).0, false)
    }
}

/// The interface is added after the first list that shows none, and looked for
/// ten more times before it is given up.
pub proof fn law_interface_looked_for_ten_times(n: nat)
    requires
        1 <= n <= 11,
    ensures
        after_looks(n).1 == (if n == 1 {
            InterfaceAction::Add
        } else if n <= 10 {
            InterfaceAction::WaitAndList
        } else {
            InterfaceAction::WaitAndFail
        }),
        after_looks(n).0 == (InterfaceState::Added {
            looked: if n <= 10 { (n - 1) as u32 } else { 9 },
        }),
    decreases n,
{
    if n > 1 {
        law_interface_looked_for_ten_times((n - 1) as nat);
    } else {
        assert(after_looks(0).0 == InterfaceState::Starting);
    }
}

// ---------------------------------------------------------------------------
// Power saving
// ---------------------------------------------------------------------------

/// Whether one of the outputs has the line, once it is trimmed.
pub open spec fn has_row(outputs: Seq<String>, row: Seq<char>) -> bool {
    exists|i: int, j: int|
        0 <= i < outputs.len() && 0 <= j < lines_of(outputs[i]@).len() && trimmed(
            #[trigger] lines_of(outputs[i]@)[j],
        ) == row
}

/// "No interfaces found".
#[derive(Clone, Copy, Debug, PartialEq, Eq, Structural)]
pub struct NoInterfaces;

fn output_has_row(output: &str, row: &str) -> (r: bool)
    ensures
        r == exists|j: int|
            0 <= j < lines_of(output@).len() && trimmed(#[trigger] lines_of(output@)[j]) == row@,
{
    let rows: Vec<String> = lines(output);
    assert(texts(rows@).len() == rows@.len());
    for j in 0..rows.len()
        invariant
            texts(rows@) == lines_of(output@),
            texts(rows@).len() == rows@.len(),
            forall|k: int| 0 <= k < j ==> trimmed(#[trigger] lines_of(output@)[k]) != row@,
    {
        assert(lines_of(output@)[j as int] == rows@[j as int]@);
        if same_text(trim(rows[j].as_str()).as_str(), row) {
            return true;
        }
    }
    false
}

/// Whether Wi-Fi saves power, from what `iw` prints for each interface: it does
/// if it does on one of them.
pub fn get_wifi_power_management_state(outputs: &Vec<String>) -> (r: Result<
    WifiPowerManagement,
    NoInterfaces,
>)
    ensures
        r == (if has_row(outputs@, "Power save: on"@) {
            Ok::<WifiPowerManagement, NoInterfaces>(WifiPowerManagement::Enabled)
        } else if has_row(outputs@, "Power save: off"@) {
            Ok(WifiPowerManagement::Disabled)
        } else {
            Err(NoInterfaces)
        }),
{
    let mut found_any: bool = false;
    for i in 0..outputs.len()
        invariant
            forall|k: int, j: int|
                0 <= k < i && 0 <= j < lines_of(outputs@[k]@).len() ==> trimmed(
                    #[trigger] lines_of(outputs@[k]@)[j],
                ) != "Power save: on"@,
            found_any == exists|k: int, j: int|
                0 <= k < i && 0 <= j < lines_of(outputs@[k]@).len() && trimmed(
                    #[trigger] lines_of(outputs@[k]@)[j],
                ) == "Power save: off"@,
    {
        let output: &str = outputs[i].as_str();
        if output_has_row(output, "Power save: on") {
            let ghost j = choose|j: int|
                0 <= j < lines_of(output@).len() && trimmed(#[trigger] lines_of(output@)[j])
                    == "Power save: on"@;
            assert(trimmed(lines_of(outputs@[i as int]@)[j]) == "Power save: on"@);
            return Ok(WifiPowerManagement::Enabled);
        }
        if output_has_row(output, "Power save: off") {
            let ghost j = choose|j: int|
                0 <= j < lines_of(output@).len() && trimmed(#[trigger] lines_of(output@)[j])
                    == "Power save: off"@;
            assert(trimmed(lines_of(outputs@[i as int]@)[j]) == "Power save: off"@);
            found_any = true;
        }
    }
    if found_any {
        Ok(WifiPowerManagement::Disabled)
    } else {
        Err(NoInterfaces)
    }
}

/// The word that `iw` takes for a state.
pub open spec fn iw_word(state: WifiPowerManagement) -> Seq<char> {
    match state {
        WifiPowerManagement::Disabled => "off"@,
        WifiPowerManagement::Enabled => "on"@,
    }
}

/// The arguments of `iw` that set the state of an interface.
pub open spec fn iw_arguments(interface: Seq<char>, state: WifiPowerManagement) -> Seq<Seq<char>> {
    seq!["dev"@, interface, "set"@, "power_save"@, iw_word(state)]
}

/// The arguments of the calls of `iw`, one for each interface, that set the
/// state until the next reboot.
pub fn set_wifi_power_management_state(interfaces: &Vec<String>, state: WifiPowerManagement) -> (r:
    Vec<Vec<String>>)
    ensures
        r@.len() == interfaces@.len(),
        forall|i: int|
            0 <= i < r@.len() ==> texts((#[trigger] r@[i])@) == iw_arguments(
                interfaces@[i]@,
                state,
            ),
{
    let mut r: Vec<Vec<String>> = Vec::new();
    for i in 0..interfaces.len()
        invariant
            r@.len() == i,
            forall|k: int|
                0 <= k < i ==> texts((#[trigger] r@[k])@) == iw_arguments(interfaces@[k]@, state),
    {
        let mut call: Vec<String> = Vec::new();
        call.push("dev".to_owned());
        call.push(interfaces[i].clone());
        call.push("set".to_owned());
        call.push("power_save".to_owned());
        match state {
            WifiPowerManagement::Disabled => {
                call.push("off".to_owned());
            },
            WifiPowerManagement::Enabled => {
                call.push("on".to_owned());
            },
        }
        assert(texts(call@) =~= iw_arguments(interfaces@[i as int]@, state));
        r.push(call);
    }
    r
}

/// The steps that keep the state over a reboot: those of the settings that were
/// read, with the state in them.
pub fn keep_wifi_power_management_state(
    settings: Result<NmWifiSettings, NmError>,
    state: WifiPowerManagement,
) -> (r: Result<Vec<NmStep>, NmError>)
    ensures
        match settings {
            Ok(s) => r matches Ok(steps) && are_nm_steps(
                steps@,
                NmWifiSettings {
                    powersave: match state {
                        WifiPowerManagement::Disabled => NmSettingWirelessPowersave::Disable,
                        WifiPowerManagement::Enabled => NmSettingWirelessPowersave::Enable,
                    },
                    ..s
                },
                false,
            ),
            Err(e) => r matches Err(f) && f == e,
        },
{
    match settings {
        Ok(s) => {
            let powersave: NmSettingWirelessPowersave = NmSettingWirelessPowersave::from(state);
            Ok(set_nm_settings(NmWifiSettings { backend: s.backend, powersave }, false))
        },
        Err(e) => Err(e),
    }
}

// ---------------------------------------------------------------------------
// Laws
// ---------------------------------------------------------------------------

/// Settings are read exactly if there is a known backend, and power saving is
/// missing, which turns it on, or has a known number.
pub proof fn law_settings_of_entries(
    backend: Entry<String>,
    powersave: Entry<i64>,
    s: NmWifiSettings,
)
    ensures
        settings_of(backend, powersave) == Ok::<NmWifiSettings, NmError>(s) <==> (
        backend matches Entry::Value(name) && WifiBackend::spelled(name@) == Some(s.backend)) && (
        if powersave is Missing {
            s.powersave == NmSettingWirelessPowersave::Enable
        } else {
            powersave == Entry::Value(s.powersave.number())
        }),
        settings_of(backend, powersave) == Err::<NmWifiSettings, NmError>(NmError::NoBackend)
            <==> backend is Missing,
        settings_of(backend, powersave) == Err::<NmWifiSettings, NmError>(NmError::BadBackend)
            <==> !(backend is Missing) && !(backend matches Entry::Value(name)
            && WifiBackend::spelled(name@) is Some),
        settings_of(backend, powersave) != Err::<NmWifiSettings, NmError>(NmError::BadConfig),
{
    if powersave is Value {
        s.powersave.law_number_reads_back(powersave->Value_0);
    }
}

/// The settings in plain documents name the backend by its text and power saving
/// by its number; a document that sets neither changes nothing.
pub proof fn law_settings_of_documents(
    documents: Seq<Seq<IniLine>>,
    d: Seq<IniLine>,
    s: NmWifiSettings,
)
    ensures
        settings_in_documents(documents) == Ok::<NmWifiSettings, NmError>(s) ==> {
            let name = value_in_documents(documents, "device"@, "wifi.backend"@);
            let number = value_in_documents(documents, "connection"@, "wifi.powersave"@);
            &&& name matches Some(n) && WifiBackend::spelled(n) == Some(s.backend)
            &&& (number is None ==> s.powersave == NmSettingWirelessPowersave::Enable)
            &&& (number matches Some(n) ==> value_number(n) == Some(s.powersave.number()))
        },
        value_in_lines(d, "device"@, "wifi.backend"@) is None && value_in_lines(
            d,
            "connection"@,
            "wifi.powersave"@,
        ) is None ==> settings_in_documents(documents.push(d)) == settings_in_documents(documents),
        value_in_documents(documents, "device"@, "wifi.backend"@) is None
            <==> settings_in_documents(documents) == Err::<NmWifiSettings, NmError>(
            NmError::NoBackend,
        ),
{
    assert(documents.push(d).drop_last() =~= documents);
    assert(documents.push(d).last() == d);
    let number = value_in_documents(documents, "connection"@, "wifi.powersave"@);
    if number is Some && value_number(number->0) is Some {
        s.powersave.law_number_reads_back(value_number(number->0)->0);
    }
}

/// The unit that must not run with one backend is the unit of the other one.
pub proof fn law_other_unit(backend: WifiBackend, other: WifiBackend)
    requires
        backend != other,
    ensures
        other_unit(backend) == other.spelling() + ".service"@,
        other_unit(backend) != backend.spelling() + ".service"@,
{
    reveal_strlit("iwd");
    reveal_strlit("wpa_supplicant");
    reveal_strlit(".service");
    reveal_strlit("iwd.service");
    reveal_strlit("wpa_supplicant.service");
    assert("iwd.service"@ =~= "iwd"@ + ".service"@);
    assert("wpa_supplicant.service"@ =~= "wpa_supplicant"@ + ".service"@);
}

/// The unit that a step stops or disables, if it does so.
pub open spec fn unit_ended(step: NmStep) -> Option<Seq<char>> {
    match step {
        NmStep::StopAndWait(unit, _) => Some(unit@),
        NmStep::Disable(unit) => Some(unit@),
        _ => None,
    }
}

/// The settings are written first and once. With a restart, NetworkManager is
/// stopped right after that and started at the very end; in between the unit of
/// the other backend is disabled and stopped, and then the interface is seen to.
/// The unit of the backend itself is left alone. Without a restart nothing is
/// stopped, disabled or started.
pub proof fn law_steps_in_order(r: Seq<NmStep>, s: NmWifiSettings, restart: bool, i: int)
    requires
        are_nm_steps(r, s, restart),
        0 <= i < r.len(),
    ensures
        (r[i] is Write) <==> i == 0,
        r[i] matches NmStep::Write(contents) ==> contents@ == nm_contents(s),
        r[i] matches NmStep::StopAndWait(_, mode) ==> mode == JobMode::Fail,
        r[i] matches NmStep::Start(_, mode) ==> mode == JobMode::Fail,
        r[i] matches NmStep::ReloadAndWait(_, mode) ==> mode == JobMode::Fail,
        unit_ended(r[i]) matches Some(unit) ==> {
            &&& restart
            &&& unit != s.backend.spelling() + ".service"@
            &&& (unit == "NetworkManager.service"@ <==> i == 1)
            &&& (i != 1 ==> unit == other_unit(s.backend) && 1 < i)
        },
        (r[i] is Start) <==> restart && i == r.len() - 1,
        r[i] matches NmStep::Start(unit, _) ==> unit@ == "NetworkManager.service"@,
        (r[i] is ReloadAndWait) <==> !restart && i == r.len() - 1,
        r[i] matches NmStep::ReloadAndWait(unit, _) ==> unit@ == "NetworkManager.service"@,
        restart ==> {
            &&& r[1] matches NmStep::StopAndWait(unit, _) && unit@ == "NetworkManager.service"@
            &&& r[r.len() - 2] is EnsureInterface
        },
{
    reveal_strlit("iwd");
    reveal_strlit("wpa_supplicant");
    reveal_strlit(".service");
    reveal_strlit("iwd.service");
    reveal_strlit("wpa_supplicant.service");
    reveal_strlit("NetworkManager.service");
    assert("iwd.service"@.len() == 11);
    assert("wpa_supplicant.service"@.len() == 22);
    assert("NetworkManager.service"@.len() == 22);
    assert("NetworkManager.service"@[0] != "wpa_supplicant.service"@[0]);
    assert("NetworkManager.service"@ != "wpa_supplicant.service"@);
    match s.backend {
        WifiBackend::Iwd => {
            law_other_unit(WifiBackend::Iwd, WifiBackend::WPASupplicant);
            assert(("iwd"@ + ".service"@).len() == 11);
        },
        WifiBackend::WPASupplicant => {
            law_other_unit(WifiBackend::WPASupplicant, WifiBackend::Iwd);
            assert(("wpa_supplicant"@ + ".service"@)[0] == 'w');
        },
    }
}

/// A line that is the word `Interface`, a blank and a name, once it is trimmed,
/// adds that name; any other line adds nothing.
pub proof fn law_interface_rows(rows: Seq<Seq<char>>, row: Seq<char>, name: Seq<char>)
    ensures
        trimmed(row) == "Interface "@ + name ==> interfaces_in(rows.push(row)) == interfaces_in(
            rows,
        ).push(name),
        !has_prefix(trimmed(row), "Interface "@) ==> interfaces_in(rows.push(row))
            == interfaces_in(rows),
        interfaces_in(Seq::empty()).len() == 0,
{
    reveal_strlit("Interface ");
    reveal_strlit("Interface");
    let word = "Interface"@;
    assert(rows.push(row).drop_last() =~= rows);
    assert(rows.push(row).last() == row);
    assert("Interface "@ =~= word.push(' '));
    lemma_cut_once(word, ' ', name);
    law_cut_once(trimmed(row), ' ');
    if !has_prefix(trimmed(row), "Interface "@) {
        match cut_once(trimmed(row), ' ') {
            Some((a, b)) => {
                if a == word {
                    assert(trimmed(row) == word.push(' ') + b);
                    assert(trimmed(row).take("Interface "@.len() as int) =~= "Interface "@);
                }
            },
            None => {},
        }
    }
}

/// As soon as an interface is there, nothing more is done. It is added only
/// after the first list, and given up only if the tenth list behind that shows
/// none.
pub proof fn law_found_interface_ends(state: InterfaceState, found: bool)
    ensures
        found <==> looked_at(state, found).1 == InterfaceAction::Finish,
        found ==> looked_at(state, found).0 == state,
        looked_at(state, found).1 == InterfaceAction::Add <==> !found && state
            == InterfaceState::Starting,
        looked_at(state, found).1 == InterfaceAction::WaitAndFail <==> !found && (
        state matches InterfaceState::Added { looked } && looked >= 9),
{
}

/// A line counts in whichever of the outputs it stands.
pub proof fn law_row_of_any_output(a: Seq<String>, b: Seq<String>, row: Seq<char>)
    ensures
        has_row(a + b, row) <==> has_row(a, row) || has_row(b, row),
{
    let c = a + b;
    if has_row(a, row) {
        let (i, j) = choose|i: int, j: int|
            0 <= i < a.len() && 0 <= j < lines_of(a[i]@).len() && trimmed(
                #[trigger] lines_of(a[i]@)[j],
            ) == row;
        assert(c[i] == a[i]);
        assert(trimmed(lines_of(c[i]@)[j]) == row);
    }
    if has_row(b, row) {
        let (i, j) = choose|i: int, j: int|
            0 <= i < b.len() && 0 <= j < lines_of(b[i]@).len() && trimmed(
                #[trigger] lines_of(b[i]@)[j],
            ) == row;
        assert(c[i + a.len()] == b[i]);
        assert(trimmed(lines_of(c[i + a.len()]@)[j]) == row);
    }
    if has_row(c, row) {
        let (i, j) = choose|i: int, j: int|
            0 <= i < c.len() && 0 <= j < lines_of(c[i]@).len() && trimmed(
                #[trigger] lines_of(c[i]@)[j],
            ) == row;
        if i < a.len() {
            assert(c[i] == a[i]);
            assert(trimmed(lines_of(a[i]@)[j]) == row);
        } else {
            assert(c[i] == b[i - a.len()]);
            assert(trimmed(lines_of(b[i - a.len()]@)[j]) == row);
        }
    }
}

/// The word that `iw` takes for a state is read as that state. The call for an
/// interface names it, and sets power saving.
pub proof fn law_iw_words(interface: Seq<char>, state: WifiPowerManagement)
    ensures
        WifiPowerManagement::spelled(iw_word(state)) == Some(state),
        iw_arguments(interface, state).len() == 5,
        iw_arguments(interface, state)[1] == interface,
        iw_arguments(interface, state)[3] == "power_save"@,
        iw_arguments(interface, state).last() == iw_word(state),
{
    state.law_only_spelling_reads(iw_word(state));
    reveal_strlit("on");
    reveal_strlit("off");
    assert(lowered("on"@) =~= "on"@);
    assert(lowered("off"@) =~= "off"@);
}

} // verus!
