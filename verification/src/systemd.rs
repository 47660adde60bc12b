//! What the service manager is asked and what it answers.
use crate::enums::{or_not_found, VariantNotFound};
use crate::numbers::{
    hex_char, hexadecimal, hexadecimal_2, hexadecimal_value, law_hexadecimal_reads_back,
    lemma_hexadecimal_pair, push_hexadecimal_2,
};
use crate::text::{chars_of, concat, same_text};
use vstd::prelude::*;

verus! {

/// Whether a unit runs.
#[derive(Clone, Copy, Debug, PartialEq, Eq, Structural, Hash)]
pub enum ActiveState {
    Active,
    Inactive,
    Failed,
    Activating,
    Deactivating,
    Reloading,
    Refreshing,
}

impl ActiveState {
    /// How the value is written.
    pub open spec fn spelling(self) -> Seq<char> {
        match self {
            ActiveState::Active => "active"@,
            ActiveState::Inactive => "inactive"@,
            ActiveState::Failed => "failed"@,
            ActiveState::Activating => "activating"@,
            ActiveState::Deactivating => "deactivating"@,
            ActiveState::Reloading => "reloading"@,
            ActiveState::Refreshing => "refreshing"@,
        }
    }

    /// The value that a text stands for.
    pub open spec fn spelled(s: Seq<char>) -> Option<ActiveState> {
        if s == "active"@ {
            Some(ActiveState::Active)
        } else if s == "inactive"@ {
            Some(ActiveState::Inactive)
        } else if s == "failed"@ {
            Some(ActiveState::Failed)
        } else if s == "activating"@ {
            Some(ActiveState::Activating)
        } else if s == "deactivating"@ {
            Some(ActiveState::Deactivating)
        } else if s == "reloading"@ {
            Some(ActiveState::Reloading)
        } else if s == "refreshing"@ {
            Some(ActiveState::Refreshing)
        } else {
            None
        }
    }

    /// The text of the value.
    pub fn to_string(&self) -> (r: String)
        ensures
            r@ == self.spelling(),
    {
        match self {
            ActiveState::Active => "active".to_owned(),
            ActiveState::Inactive => "inactive".to_owned(),
            ActiveState::Failed => "failed".to_owned(),
            ActiveState::Activating => "activating".to_owned(),
            ActiveState::Deactivating => "deactivating".to_owned(),
            ActiveState::Reloading => "reloading".to_owned(),
            ActiveState::Refreshing => "refreshing".to_owned(),
        }
    }

    /// Reads a value.
    pub fn from_str(s: &str) -> (r: Result<ActiveState, VariantNotFound>)
        ensures
            r == or_not_found(ActiveState::spelled(s@)),
    {
        if same_text(s, "active") {
            Ok(ActiveState::Active)
        } else if same_text(s, "inactive") {
            Ok(ActiveState::Inactive)
        } else if same_text(s, "failed") {
            Ok(ActiveState::Failed)
        } else if same_text(s, "activating") {
            Ok(ActiveState::Activating)
        } else if same_text(s, "deactivating") {
            Ok(ActiveState::Deactivating)
        } else if same_text(s, "reloading") {
            Ok(ActiveState::Reloading)
        } else if same_text(s, "refreshing") {
            Ok(ActiveState::Refreshing)
        } else {
            Err(VariantNotFound)
        }
    }

    /// A value is read only from its own text.
    pub proof fn law_only_spelling_reads(self, s: Seq<char>)
        ensures
            ActiveState::spelled(s) == Some(self) ==> s == self.spelling(),
    {
    }

    /// What is written reads back as the same value.
    pub proof fn law_spelling_reads_back(self)
        ensures
            ActiveState::spelled(self.spelling()) == Some(self),
    {
        reveal_strlit("active");
        reveal_strlit("inactive");
        reveal_strlit("failed");
        reveal_strlit("activating");
        reveal_strlit("deactivating");
        reveal_strlit("reloading");
        reveal_strlit("refreshing");
        assert("active"@.len() == 6);
        assert("inactive"@.len() == 8);
        assert("failed"@.len() == 6);
        assert("activating"@.len() == 10);
        assert("deactivating"@.len() == 12);
        assert("reloading"@.len() == 9);
        assert("refreshing"@.len() == 10);
        assert("active"@[0] == 'a');
        assert("failed"@[0] == 'f');
        assert("activating"@[0] == 'a');
        assert("refreshing"@[0] == 'r');
    }
}

impl ActiveState {
    /// Whether the unit counts as running.
    pub fn is_active(self) -> (r: bool)
        ensures
            r == (self == ActiveState::Active || self == ActiveState::Activating || self
                == ActiveState::Reloading || self == ActiveState::Refreshing),
    {
        match self {
            ActiveState::Active => true,
            ActiveState::Activating => true,
            ActiveState::Reloading => true,
            ActiveState::Refreshing => true,
            ActiveState::Inactive => false,
            ActiveState::Deactivating => false,
            ActiveState::Failed => false,
        }
    }
}

/// Whether a unit file is enabled.
#[derive(Clone, Copy, Debug, PartialEq, Eq, Structural, Hash)]
pub enum EnableState {
    Disabled,
    Enabled,
    Masked,
    Static,
}

impl EnableState {
    /// How the value is written.
    pub open spec fn spelling(self) -> Seq<char> {
        match self {
            EnableState::Disabled => "disabled"@,
            EnableState::Enabled => "enabled"@,
            EnableState::Masked => "masked"@,
            EnableState::Static => "static"@,
        }
    }

    /// The value that a text stands for.
    pub open spec fn spelled(s: Seq<char>) -> Option<EnableState> {
        if s == "disabled"@ {
            Some(EnableState::Disabled)
        } else if s == "enabled"@ {
            Some(EnableState::Enabled)
        } else if s == "masked"@ {
            Some(EnableState::Masked)
        } else if s == "static"@ {
            Some(EnableState::Static)
        } else {
            None
        }
    }

    /// The text of the value.
    pub fn to_string(&self) -> (r: String)
        ensures
            r@ == self.spelling(),
    {
        match self {
            EnableState::Disabled => "disabled".to_owned(),
            EnableState::Enabled => "enabled".to_owned(),
            EnableState::Masked => "masked".to_owned(),
            EnableState::Static => "static".to_owned(),
        }
    }

    /// Reads a value.
    pub fn from_str(s: &str) -> (r: Result<EnableState, VariantNotFound>)
        ensures
            r == or_not_found(EnableState::spelled(s@)),
    {
        if same_text(s, "disabled") {
            Ok(EnableState::Disabled)
        } else if same_text(s, "enabled") {
            Ok(EnableState::Enabled)
        } else if same_text(s, "masked") {
            Ok(EnableState::Masked)
        } else if same_text(s, "static") {
            Ok(EnableState::Static)
        } else {
            Err(VariantNotFound)
        }
    }

    /// A value is read only from its own text.
    pub proof fn law_only_spelling_reads(self, s: Seq<char>)
        ensures
            EnableState::spelled(s) == Some(self) ==> s == self.spelling(),
    {
    }

    /// What is written reads back as the same value.
    pub proof fn law_spelling_reads_back(self)
        ensures
            EnableState::spelled(self.spelling()) == Some(self),
    {
        reveal_strlit("disabled");
        reveal_strlit("enabled");
        reveal_strlit("masked");
        reveal_strlit("static");
        assert("disabled"@.len() == 8);
        assert("enabled"@.len() == 7);
        assert("masked"@.len() == 6);
        assert("static"@.len() == 6);
        assert("masked"@[0] == 'm');
        assert("static"@[0] == 's');
    }
}

/// What a new job does to queued ones.
#[derive(Clone, Copy, Debug, PartialEq, Eq, Structural, Hash)]
pub enum JobMode {
    Replace,
    Fail,
    Isolate,
    IgnoreDependencies,
    IgnoreRequirements,
}

impl JobMode {
    /// How the value is written.
    pub open spec fn spelling(self) -> Seq<char> {
        match self {
            JobMode::Replace => "replace"@,
            JobMode::Fail => "fail"@,
            JobMode::Isolate => "isolate"@,
            JobMode::IgnoreDependencies => "ignore-dependencies"@,
            JobMode::IgnoreRequirements => "ignore-requirements"@,
        }
    }

    /// The value that a text stands for.
    pub open spec fn spelled(s: Seq<char>) -> Option<JobMode> {
        if s == "replace"@ {
            Some(JobMode::Replace)
        } else if s == "fail"@ {
            Some(JobMode::Fail)
        } else if s == "isolate"@ {
            Some(JobMode::Isolate)
        } else if s == "ignore-dependencies"@ {
            Some(JobMode::IgnoreDependencies)
        } else if s == "ignore-requirements"@ {
            Some(JobMode::IgnoreRequirements)
        } else {
            None
        }
    }

    /// The text of the value.
    pub fn to_string(&self) -> (r: String)
        ensures
            r@ == self.spelling(),
    {
        match self {
            JobMode::Replace => "replace".to_owned(),
            JobMode::Fail => "fail".to_owned(),
            JobMode::Isolate => "isolate".to_owned(),
            JobMode::IgnoreDependencies => "ignore-dependencies".to_owned(),
            JobMode::IgnoreRequirements => "ignore-requirements".to_owned(),
        }
    }

    /// Reads a value.
    pub fn from_str(s: &str) -> (r: Result<JobMode, VariantNotFound>)
        ensures
            r == or_not_found(JobMode::spelled(s@)),
    {
        if same_text(s, "replace") {
            Ok(JobMode::Replace)
        } else if same_text(s, "fail") {
            Ok(JobMode::Fail)
        } else if same_text(s, "isolate") {
            Ok(JobMode::Isolate)
        } else if same_text(s, "ignore-dependencies") {
            Ok(JobMode::IgnoreDependencies)
        } else if same_text(s, "ignore-requirements") {
            Ok(JobMode::IgnoreRequirements)
        } else {
            Err(VariantNotFound)
        }
    }

    /// A value is read only from its own text.
    pub proof fn law_only_spelling_reads(self, s: Seq<char>)
        ensures
            JobMode::spelled(s) == Some(self) ==> s == self.spelling(),
    {
    }

    /// What is written reads back as the same value.
    pub proof fn law_spelling_reads_back(self)
        ensures
            JobMode::spelled(self.spelling()) == Some(self),
    {
        reveal_strlit("replace");
        reveal_strlit("fail");
        reveal_strlit("isolate");
        reveal_strlit("ignore-dependencies");
        reveal_strlit("ignore-requirements");
        assert("replace"@.len() == 7);
        assert("fail"@.len() == 4);
        assert("isolate"@.len() == 7);
        assert("ignore-dependencies"@.len() == 19);
        assert("ignore-requirements"@.len() == 19);
        assert("replace"@[0] == 'r');
        assert("isolate"@[0] == 'i');
        assert("ignore-dependencies"@[7] == 'd');
        assert("ignore-requirements"@[7] == 'r');
    }
}

/// How a job ended.
#[derive(Clone, Copy, Debug, PartialEq, Eq, Structural, Hash)]
pub enum JobResult {
    Done,
    Canceled,
    Timeout,
    Failed,
    Dependency,
    Skipped,
}

impl JobResult {
    /// How the value is written.
    pub open spec fn spelling(self) -> Seq<char> {
        match self {
            JobResult::Done => "done"@,
            JobResult::Canceled => "canceled"@,
            JobResult::Timeout => "timeout"@,
            JobResult::Failed => "failed"@,
            JobResult::Dependency => "dependency"@,
            JobResult::Skipped => "skipped"@,
        }
    }

    /// The value that a text stands for.
    pub open spec fn spelled(s: Seq<char>) -> Option<JobResult> {
        if s == "done"@ {
            Some(JobResult::Done)
        } else if s == "canceled"@ {
            Some(JobResult::Canceled)
        } else if s == "timeout"@ {
            Some(JobResult::Timeout)
        } else if s == "failed"@ {
            Some(JobResult::Failed)
        } else if s == "dependency"@ {
            Some(JobResult::Dependency)
        } else if s == "skipped"@ {
            Some(JobResult::Skipped)
        } else {
            None
        }
    }

    /// The text of the value.
    pub fn to_string(&self) -> (r: String)
        ensures
            r@ == self.spelling(),
    {
        match self {
            JobResult::Done => "done".to_owned(),
            JobResult::Canceled => "canceled".to_owned(),
            JobResult::Timeout => "timeout".to_owned(),
            JobResult::Failed => "failed".to_owned(),
            JobResult::Dependency => "dependency".to_owned(),
            JobResult::Skipped => "skipped".to_owned(),
        }
    }

    /// Reads a value.
    pub fn from_str(s: &str) -> (r: Result<JobResult, VariantNotFound>)
        ensures
            r == or_not_found(JobResult::spelled(s@)),
    {
        if same_text(s, "done") {
            Ok(JobResult::Done)
        } else if same_text(s, "canceled") {
            Ok(JobResult::Canceled)
        } else if same_text(s, "timeout") {
            Ok(JobResult::Timeout)
        } else if same_text(s, "failed") {
            Ok(JobResult::Failed)
        } else if same_text(s, "dependency") {
            Ok(JobResult::Dependency)
        } else if same_text(s, "skipped") {
            Ok(JobResult::Skipped)
        } else {
            Err(VariantNotFound)
        }
    }

    /// A value is read only from its own text.
    pub proof fn law_only_spelling_reads(self, s: Seq<char>)
        ensures
            JobResult::spelled(s) == Some(self) ==> s == self.spelling(),
    {
    }

    /// What is written reads back as the same value.
    pub proof fn law_spelling_reads_back(self)
        ensures
            JobResult::spelled(self.spelling()) == Some(self),
    {
        reveal_strlit("done");
        reveal_strlit("canceled");
        reveal_strlit("timeout");
        reveal_strlit("failed");
        reveal_strlit("dependency");
        reveal_strlit("skipped");
        assert("done"@.len() == 4);
        assert("canceled"@.len() == 8);
        assert("timeout"@.len() == 7);
        assert("failed"@.len() == 6);
        assert("dependency"@.len() == 10);
        assert("skipped"@.len() == 7);
        assert("timeout"@[0] == 't');
        assert("skipped"@[0] == 's');
    }
}

// ---------------------------------------------------------------------------
// Unit names in object paths
// ---------------------------------------------------------------------------

pub open spec fn is_alphanumeric(c: char) -> bool {
    ||| '0' <= c <= '9'
    ||| 'A' <= c <= 'Z'
    ||| 'a' <= c <= 'z'
}

/// A letter or digit of ASCII stands for itself; any other character for an
/// underscore and its code in hexadecimal.
pub open spec fn escaped_char(c: char) -> Seq<char> {
    if is_alphanumeric(c) {
        seq![c]
    } else {
        seq!['_'] + hexadecimal_2((c as u32) as nat)
    }
}

pub open spec fn escaped(s: Seq<char>) -> Seq<char>
    decreases s.len(),
{
    if s.len() == 0 {
        Seq::empty()
    } else {
        escaped_char(s[0]) + escaped(s.skip(1))
    }
}

/// A name in the form that an object path may hold.
pub fn escape(name: &str) -> (r: String)
    ensures
        r@ == escaped(name@),
{
    let v: Vec<char> = chars_of(name);
    let mut r: String = String::new();
    assert(v@.skip(0) =~= name@);
    for i in 0..v.len()
        invariant
            v@ == name@,
            r@ + escaped(v@.skip(i as int)) == escaped(name@),
    {
        let c: char = v[i];
        let ghost before = r@;
        assert(v@.skip(i as int).skip(1) =~= v@.skip(i + 1));
        assert(v@.skip(i as int)[0] == c);
        if (c >= '0' && c <= '9') || (c >= 'A' && c <= 'Z') || (c >= 'a' && c <= 'z') {
            r.push(c);
        } else {
            r.push('_');
            push_hexadecimal_2(&mut r, c as u32);
        }
        assert(r@ =~= before + escaped_char(c));
        assert(r@ + escaped(v@.skip(i + 1)) =~= before + escaped(v@.skip(i as int)));
    }
    assert(v@.skip(v@.len() as int) =~= Seq::<char>::empty());
    assert(r@ + Seq::<char>::empty() =~= r@);
    r
}

pub open spec fn is_path_char(c: char) -> bool {
    is_alphanumeric(c) || c == '_'
}

proof fn lemma_hexadecimal_path_chars(n: nat)
    ensures
        forall|i: int| 0 <= i < hexadecimal(n).len() ==> is_path_char(#[trigger] hexadecimal(n)[i]),
    decreases n,
{
    if n >= 16 {
        lemma_hexadecimal_path_chars(n / 16);
        let head = hexadecimal(n / 16);
        assert forall|i: int| 0 <= i < hexadecimal(n).len() implies is_path_char(
            #[trigger] hexadecimal(n)[i],
        ) by {
            if i < head.len() {
                assert(is_path_char(head[i]));
            }
        }
    }
}

/// An escaped name holds only letters and digits of ASCII and underscores.
pub proof fn law_escape_alphabet(s: Seq<char>)
    ensures
        forall|i: int| 0 <= i < escaped(s).len() ==> is_path_char(#[trigger] escaped(s)[i]),
    decreases s.len(),
{
    if s.len() > 0 {
        law_escape_alphabet(s.skip(1));
        lemma_hexadecimal_path_chars((s[0] as u32) as nat);
        let head = escaped_char(s[0]);
        assert forall|i: int| 0 <= i < escaped(s).len() implies is_path_char(
            #[trigger] escaped(s)[i],
        ) by {
            if i < head.len() {
                assert(escaped(s)[i] == head[i]);
            } else {
                assert(escaped(s)[i] == escaped(s.skip(1))[i - head.len()]);
            }
        }
    }
}

/// Different names of characters below U+0100 have different escaped forms.
pub proof fn law_escape_injective(a: Seq<char>, b: Seq<char>)
    requires
        forall|i: int| 0 <= i < a.len() ==> '\0' <= #[trigger] a[i] <= '\u{ff}',
        forall|i: int| 0 <= i < b.len() ==> '\0' <= #[trigger] b[i] <= '\u{ff}',
        escaped(a) == escaped(b),
    ensures
        a == b,
    decreases a.len(),
{
    if a.len() == 0 || b.len() == 0 {
        if a.len() > 0 {
            assert(escaped(a).len() >= escaped_char(a[0]).len());
        }
        if b.len() > 0 {
            assert(escaped(b).len() >= escaped_char(b[0]).len());
        }
        assert(a =~= b);
    } else {
        let s = escaped(a);
        let x = a[0];
        let y = b[0];
        let ra = escaped(a.skip(1));
        let rb = escaped(b.skip(1));
        assert(s[0] == escaped_char(x)[0]);
        assert(s[0] == escaped_char(y)[0]);
        lemma_hexadecimal_pair(x as nat);
        lemma_hexadecimal_pair(y as nat);
        if is_alphanumeric(x) {
            assert(is_alphanumeric(y));
            assert(s.skip(1) =~= ra);
            assert(s.skip(1) =~= rb);
        } else {
            assert(!is_alphanumeric(y));
            assert(s[1] == hex_char(x as nat / 16) && s[1] == hex_char(y as nat / 16));
            assert(s[2] == hex_char(x as nat % 16) && s[2] == hex_char(y as nat % 16));
            assert(s.skip(3) =~= ra);
            assert(s.skip(3) =~= rb);
        }
        assert(x == y);
        assert(ra == rb);
        assert forall|i: int| 0 <= i < a.skip(1).len() implies '\0' <= #[trigger] a.skip(1)[i]
            <= '\u{ff}' by {
            assert(a.skip(1)[i] == a[i + 1]);
        }
        assert forall|i: int| 0 <= i < b.skip(1).len() implies '\0' <= #[trigger] b.skip(1)[i]
            <= '\u{ff}' by {
            assert(b.skip(1)[i] == b[i + 1]);
        }
        law_escape_injective(a.skip(1), b.skip(1));
        assert(a =~= seq![x] + a.skip(1));
        assert(b =~= seq![y] + b.skip(1));
    }
}

// ---------------------------------------------------------------------------
// Units and jobs
// ---------------------------------------------------------------------------

/// What the manager answers when it is asked for a unit.
#[derive(Debug, PartialEq, Eq)]
pub enum GetUnitReply {
    Found,
    /// An error with a name.
    MethodError(String),
    /// An error with only a message.
    Failure(String),
    OtherError,
}

/// What a unit is told.
#[derive(Clone, Copy, Debug, PartialEq, Eq, Structural)]
pub enum UnitMethod {
    Restart,
    Start,
    Stop,
    Reload,
}

/// A call that makes a job for a unit.
#[derive(Debug, PartialEq, Eq)]
pub struct UnitCall {
    pub path: String,
    pub method: UnitMethod,
    pub mode: String,
}

/// A unit of the service manager.
#[derive(Debug, PartialEq, Eq)]
pub struct SystemdUnit {
    pub name: String,
}

/// The object path of the unit `name`.
pub open spec fn unit_path(name: Seq<char>) -> Seq<char> {
    "/org/freedesktop/systemd1/unit/"@ + escaped(name)
}

/// The call of `method` on the unit `name`.
pub open spec fn is_unit_call(
    call: UnitCall,
    name: Seq<char>,
    method: UnitMethod,
    mode: JobMode,
) -> bool {
    &&& call.path@ == unit_path(name)
    &&& call.method == method
    &&& call.mode@ == mode.spelling()
}

impl SystemdUnit {
    /// Whether the unit `name` is loaded: `None` if the answer does not tell.
    pub fn is_loaded(name: &str, reply: &GetUnitReply) -> (r: Option<bool>)
        ensures
            r == match *reply {
                GetUnitReply::Found => Some(true),
                GetUnitReply::MethodError(error) => if error@
                    == "org.freedesktop.systemd1.NoSuchUnit"@ {
                    Some(false)
                } else {
                    None
                },
                GetUnitReply::Failure(message) => if message@ == "Unit "@ + name@
                    + " not loaded."@ {
                    Some(false)
                } else {
                    None
                },
                GetUnitReply::OtherError => None,
            },
    {
        match reply {
            GetUnitReply::Found => Some(true),
            GetUnitReply::MethodError(error) => {
                if same_text(error.as_str(), "org.freedesktop.systemd1.NoSuchUnit") {
                    Some(false)
                } else {
                    None
                }
            },
            GetUnitReply::Failure(message) => {
                let expected: String = concat(concat("Unit ", name).as_str(), " not loaded.");
                if *message == expected {
                    Some(false)
                } else {
                    None
                }
            },
            GetUnitReply::OtherError => None,
        }
    }

    pub fn new(name: &str) -> (r: SystemdUnit)
        ensures
            r.name@ == name@,
    {
        SystemdUnit { name: name.to_owned() }
    }

    /// The object path of the unit.
    pub fn path(&self) -> (r: String)
        ensures
            r@ == unit_path(self.name@),
    {
        concat("/org/freedesktop/systemd1/unit/", escape(self.name.as_str()).as_str())
    }

    fn call(&self, method: UnitMethod, job_mode: JobMode) -> (r: UnitCall)
        ensures
            is_unit_call(r, self.name@, method, job_mode),
    {
        UnitCall { path: self.path(), method, mode: job_mode.to_string() }
    }

    pub fn restart(&self, job_mode: JobMode) -> (r: UnitCall)
        ensures
            is_unit_call(r, self.name@, UnitMethod::Restart, job_mode),
    {
        self.call(UnitMethod::Restart, job_mode)
    }

    pub fn start(&self, job_mode: JobMode) -> (r: UnitCall)
        ensures
            is_unit_call(r, self.name@, UnitMethod::Start, job_mode),
    {
        self.call(UnitMethod::Start, job_mode)
    }

    pub fn stop(&self, job_mode: JobMode) -> (r: UnitCall)
        ensures
            is_unit_call(r, self.name@, UnitMethod::Stop, job_mode),
    {
        self.call(UnitMethod::Stop, job_mode)
    }

    pub fn reload(&self, job_mode: JobMode) -> (r: UnitCall)
        ensures
            is_unit_call(r, self.name@, UnitMethod::Reload, job_mode),
    {
        self.call(UnitMethod::Reload, job_mode)
    }

    /// Whether enabling the unit changed anything; `changes` is what the
    /// manager reports: kind, link and target of each change.
    pub fn enable(&self, changes: &Vec<(String, String, String)>) -> (r: bool)
        ensures
            r == (changes@.len() > 0),
    {
        changes.len() > 0
    }

    /// Whether disabling the unit changed anything.
    pub fn disable(&self, changes: &Vec<(String, String, String)>) -> (r: bool)
        ensures
            r == (changes@.len() > 0),
    {
        changes.len() > 0
    }

    /// Whether masking the unit changed anything.
    pub fn mask(&self, changes: &Vec<(String, String, String)>) -> (r: bool)
        ensures
            r == (changes@.len() > 0),
    {
        changes.len() > 0
    }

    /// Whether unmasking the unit changed anything.
    pub fn unmask(&self, changes: &Vec<(String, String, String)>) -> (r: bool)
        ensures
            r == (changes@.len() > 0),
    {
        changes.len() > 0
    }

    /// The state that the unit reports.
    pub fn active(&self, state: &str) -> (r: Result<ActiveState, VariantNotFound>)
        ensures
            r == or_not_found(ActiveState::spelled(state@)),
    {
        ActiveState::from_str(state)
    }

    /// The state that the unit file reports.
    pub fn enabled(&self, state: &str) -> (r: Result<EnableState, VariantNotFound>)
        ensures
            r == or_not_found(EnableState::spelled(state@)),
    {
        EnableState::from_str(state)
    }
}

/// Two units with different names below U+0100 have different object paths.
pub proof fn law_unit_paths_differ(a: Seq<char>, b: Seq<char>)
    requires
        forall|i: int| 0 <= i < a.len() ==> '\0' <= #[trigger] a[i] <= '\u{ff}',
        forall|i: int| 0 <= i < b.len() ==> '\0' <= #[trigger] b[i] <= '\u{ff}',
        unit_path(a) == unit_path(b),
    ensures
        a == b,
{
    let n = "/org/freedesktop/systemd1/unit/"@.len() as int;
    assert(unit_path(a).skip(n) =~= escaped(a));
    assert(unit_path(b).skip(n) =~= escaped(b));
    law_escape_injective(a, b);
}

/// A job that is waited for.
#[derive(Debug, PartialEq, Eq)]
pub struct SystemdJobWaiter {
    pub object: String,
}

/// What comes of a signal while a job is waited for.
#[derive(Clone, Copy, Debug, PartialEq, Eq, Structural)]
pub enum JobWait {
    /// The signal was about another job.
    Waiting,
    /// The job ended so.
    Ended(JobResult),
    /// The job ended in a way that has no name.
    UnknownResult,
    /// "Job removed pipe exited prematurely".
    PipeExited,
}

/// What waiting for `object` comes to when the signals are those given, in
/// their order, each with the job and its result.
pub open spec fn waited(object: Seq<char>, signals: Seq<(String, String)>) -> JobWait
    decreases signals.len(),
{
    if signals.len() == 0 {
        JobWait::PipeExited
    } else if signals[0].0@ != object {
        waited(object, signals.skip(1))
    } else {
        match JobResult::spelled(signals[0].1@) {
            Some(result) => JobWait::Ended(result),
            None => JobWait::UnknownResult,
        }
    }
}

impl SystemdJobWaiter {
    /// What one signal means for the waiter; `None` is the end of the signals.
    pub fn on_signal(&self, signal: &Option<(String, String)>) -> (r: JobWait)
        ensures
            r == match *signal {
                None => JobWait::PipeExited,
                Some((job, result)) => if job@ != self.object@ {
                    JobWait::Waiting
                } else {
                    match JobResult::spelled(result@) {
                        Some(result) => JobWait::Ended(result),
                        None => JobWait::UnknownResult,
                    }
                },
            },
    {
        match signal {
            None => JobWait::PipeExited,
            Some((job, result)) => {
                if *job != self.object {
                    JobWait::Waiting
                } else {
                    match JobResult::from_str(result.as_str()) {
                        Ok(result) => JobWait::Ended(result),
                        Err(_) => JobWait::UnknownResult,
                    }
                }
            },
        }
    }

    /// What the wait comes to over all signals until they end.
    pub fn wait(self, signals: &Vec<(String, String)>) -> (r: JobWait)
        ensures
            r == waited(self.object@, signals@),
    {
        let mut i: usize = 0;
        assert(signals@.skip(0) =~= signals@);
        while i < signals.len()
            invariant
                i <= signals@.len(),
                waited(self.object@, signals@) == waited(self.object@, signals@.skip(i as int)),
            decreases signals@.len() - i,
        {
            assert(signals@.skip(i as int).skip(1) =~= signals@.skip(i + 1));
            let signal: Option<(String, String)> = Some(
                (signals[i].0.clone(), signals[i].1.clone()),
            );
            let step: JobWait = self.on_signal(&signal);
            if step != JobWait::Waiting {
                return step;
            }
            i = i + 1;
        }
        JobWait::PipeExited
    }
}

/// A name is escaped character by character: a letter or digit of ASCII stays,
/// and any other character becomes an underscore and hexadecimal digits, at least
/// two, that stand for its code.
pub proof fn law_escape_by_char(a: Seq<char>, c: char, b: Seq<char>)
    ensures
        escaped(a + b) == escaped(a) + escaped(b),
        is_alphanumeric(c) ==> escaped(seq![c]) == seq![c],
        !is_alphanumeric(c) ==> {
            &&& escaped(seq![c]).len() >= 3
            &&& escaped(seq![c])[0] == '_'
            &&& hexadecimal_value(escaped(seq![c]).skip(1)) == c as nat
        },
    decreases a.len(),
{
    let one = seq![c];
    assert(one.skip(1) =~= Seq::<char>::empty());
    assert(escaped(one.skip(1)) =~= Seq::<char>::empty());
    assert(escaped(one) == escaped_char(one[0]) + escaped(one.skip(1)));
    assert(escaped(one) =~= escaped_char(c));
    law_hexadecimal_reads_back((c as u32) as nat);
    if !is_alphanumeric(c) {
        assert(escaped(seq![c]).skip(1) =~= hexadecimal_2((c as u32) as nat));
    }
    if a.len() == 0 {
        assert(a + b =~= b);
        assert(escaped(a) + escaped(b) =~= escaped(b));
    } else {
        law_escape_by_char(a.skip(1), c, b);
        assert((a + b).skip(1) =~= a.skip(1) + b);
        assert(escaped(a + b) =~= escaped(a) + escaped(b));
    }
}

/// The first signal about the job decides how the wait ends. Signals about other
/// jobs, and those behind it, do not matter. Without one the wait fails.
pub proof fn law_first_signal_of_job(object: Seq<char>, signals: Seq<(String, String)>, i: int)
    requires
        0 <= i <= signals.len(),
        forall|j: int| 0 <= j < i ==> (#[trigger] signals[j]).0@ != object,
        i < signals.len() ==> signals[i].0@ == object,
    ensures
        i == signals.len() ==> waited(object, signals) == JobWait::PipeExited,
        i < signals.len() ==> match JobResult::spelled(signals[i].1@) {
            Some(result) => waited(object, signals) == JobWait::Ended(result),
            None => waited(object, signals) == JobWait::UnknownResult,
        },
    decreases signals.len(),
{
    if i > 0 {
        assert(signals[0].0@ != object);
        let t = signals.skip(1);
        assert forall|j: int| 0 <= j < i - 1 implies (#[trigger] t[j]).0@ != object by {
            assert(t[j] == signals[j + 1]);
        }
        law_first_signal_of_job(object, t, i - 1);
    }
}

/// A call names the unit by its path, and the way in which the job is queued by
/// a text that is read as it.
pub proof fn law_unit_calls(call: UnitCall, name: Seq<char>, method: UnitMethod, mode: JobMode)
    requires
        is_unit_call(call, name, method, mode),
    ensures
        call.path@ == "/org/freedesktop/systemd1/unit/"@ + escaped(name),
        JobMode::spelled(call.mode@) == Some(mode),
        call.method == method,
{
    mode.law_spelling_reads_back();
}

} // verus!
