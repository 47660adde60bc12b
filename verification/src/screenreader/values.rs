//! The enumerations of the screen reader.
use crate::enums::{or_not_found, or_unknown, UnknownNumber, VariantNotFound};
use crate::text::{lowered, same_text, to_ascii_lowercase};
use vstd::prelude::*;

verus! {

/// How the screen reader handles keys.
#[derive(Clone, Copy, Debug, PartialEq, Eq, Structural, Hash)]
pub enum ScreenReaderMode {
    /// Keys move through the page.
    Browse,
    /// Keys go to the control in focus.
    Focus,
}

impl ScreenReaderMode {
    /// How the value is written.
    pub open spec fn spelling(self) -> Seq<char> {
        match self {
            ScreenReaderMode::Browse => "browse"@,
            ScreenReaderMode::Focus => "focus"@,
        }
    }

    /// The value that a text stands for, in upper or lower case.
    pub open spec fn spelled(s: Seq<char>) -> Option<ScreenReaderMode> {
        let l = lowered(s);
        if l == "browse"@ {
            Some(ScreenReaderMode::Browse)
        } else if l == "focus"@ {
            Some(ScreenReaderMode::Focus)
        } else {
            None
        }
    }

    /// The text of the value.
    pub fn to_string(&self) -> (r: String)
        ensures
            r@ == self.spelling(),
    {
        match self {
            ScreenReaderMode::Browse => "browse".to_owned(),
            ScreenReaderMode::Focus => "focus".to_owned(),
        }
    }

    /// Reads a value, in upper or lower case.
    pub fn from_str(s: &str) -> (r: Result<ScreenReaderMode, VariantNotFound>)
        ensures
            r == or_not_found(ScreenReaderMode::spelled(s@)),
    {
        let lower: String = to_ascii_lowercase(s);
        let l: &str = lower.as_str();
        if same_text(l, "browse") {
            Ok(ScreenReaderMode::Browse)
        } else if same_text(l, "focus") {
            Ok(ScreenReaderMode::Focus)
        } else {
            Err(VariantNotFound)
        }
    }

    /// A value is read only from its own text, in upper or lower case.
    pub proof fn law_only_spelling_reads(self, s: Seq<char>)
        ensures
            ScreenReaderMode::spelled(s) == Some(self) ==> lowered(s) == self.spelling(),
    {
    }

    /// What is written reads back as the same value.
    pub proof fn law_spelling_reads_back(self)
        ensures
            ScreenReaderMode::spelled(self.spelling()) == Some(self),
    {
        reveal_strlit("browse");
        reveal_strlit("focus");
        assert(lowered("browse"@) =~= "browse"@);
        assert(lowered("focus"@) =~= "focus"@);
    }

    /// The number of the value.
    pub open spec fn number(self) -> u32 {
        match self {
            ScreenReaderMode::Browse => 0,
            ScreenReaderMode::Focus => 1,
        }
    }

    /// The value with a given number.
    pub open spec fn numbered(n: u32) -> Option<ScreenReaderMode> {
        if n == 0 {
            Some(ScreenReaderMode::Browse)
        } else if n == 1 {
            Some(ScreenReaderMode::Focus)
        } else {
            None
        }
    }

    /// The number of the value.
    pub fn to_u32(self) -> (r: u32)
        ensures
            r == self.number(),
    {
        match self {
            ScreenReaderMode::Browse => 0,
            ScreenReaderMode::Focus => 1,
        }
    }

    /// The value with the number `n`.
    pub fn try_from(n: u32) -> (r: Result<ScreenReaderMode, UnknownNumber>)
        ensures
            r == or_unknown(ScreenReaderMode::numbered(n), n as i64),
    {
        if n == 0 {
            Ok(ScreenReaderMode::Browse)
        } else if n == 1 {
            Ok(ScreenReaderMode::Focus)
        } else {
            Err(UnknownNumber { number: n as i64 })
        }
    }

    /// The number of a value gives the value back, and no other number does.
    pub proof fn law_number_reads_back(self, n: u32)
        ensures
            ScreenReaderMode::numbered(n) == Some(self) <==> n == self.number(),
    {
    }
}

/// What the screen reader can be told to do.
#[derive(Clone, Copy, Debug, PartialEq, Eq, Structural, Hash)]
pub enum ScreenReaderAction {
    StopTalking,
    ReadNextWord,
    ReadPreviousWord,
    ReadNextItem,
    ReadPreviousItem,
    MoveToNextLandmark,
    MoveToPreviousLandmark,
    MoveToNextHeading,
    MoveToPreviousHeading,
    ToggleMode,
}

impl ScreenReaderAction {
    /// How the value is written.
    pub open spec fn spelling(self) -> Seq<char> {
        match self {
            ScreenReaderAction::StopTalking => "stop_talking"@,
            ScreenReaderAction::ReadNextWord => "read_next_word"@,
            ScreenReaderAction::ReadPreviousWord => "read_previous_word"@,
            ScreenReaderAction::ReadNextItem => "read_next_item"@,
            ScreenReaderAction::ReadPreviousItem => "read_previous_item"@,
            ScreenReaderAction::MoveToNextLandmark => "move_to_next_landmark"@,
            ScreenReaderAction::MoveToPreviousLandmark => "move_to_previous_landmark"@,
            ScreenReaderAction::MoveToNextHeading => "move_to_next_heading"@,
            ScreenReaderAction::MoveToPreviousHeading => "move_to_previous_heading"@,
            ScreenReaderAction::ToggleMode => "toggle_mode"@,
        }
    }

    /// The value that a text stands for, in upper or lower case.
    pub open spec fn spelled(s: Seq<char>) -> Option<ScreenReaderAction> {
        let l = lowered(s);
        if l == "stop_talking"@ {
            Some(ScreenReaderAction::StopTalking)
        } else if l == "read_next_word"@ {
            Some(ScreenReaderAction::ReadNextWord)
        } else if l == "read_previous_word"@ {
            Some(ScreenReaderAction::ReadPreviousWord)
        } else if l == "read_next_item"@ {
            Some(ScreenReaderAction::ReadNextItem)
        } else if l == "read_previous_item"@ {
            Some(ScreenReaderAction::ReadPreviousItem)
        } else if l == "move_to_next_landmark"@ {
            Some(ScreenReaderAction::MoveToNextLandmark)
        } else if l == "move_to_previous_landmark"@ {
            Some(ScreenReaderAction::MoveToPreviousLandmark)
        } else if l == "move_to_next_heading"@ {
            Some(ScreenReaderAction::MoveToNextHeading)
        } else if l == "move_to_previous_heading"@ {
            Some(ScreenReaderAction::MoveToPreviousHeading)
        } else if l == "toggle_mode"@ {
            Some(ScreenReaderAction::ToggleMode)
        } else {
            None
        }
    }

    /// The text of the value.
    pub fn to_string(&self) -> (r: String)
        ensures
            r@ == self.spelling(),
    {
        match self {
            ScreenReaderAction::StopTalking => "stop_talking".to_owned(),
            ScreenReaderAction::ReadNextWord => "read_next_word".to_owned(),
            ScreenReaderAction::ReadPreviousWord => "read_previous_word".to_owned(),
            ScreenReaderAction::ReadNextItem => "read_next_item".to_owned(),
            ScreenReaderAction::ReadPreviousItem => "read_previous_item".to_owned(),
            ScreenReaderAction::MoveToNextLandmark => "move_to_next_landmark".to_owned(),
            ScreenReaderAction::MoveToPreviousLandmark => "move_to_previous_landmark".to_owned(),
            ScreenReaderAction::MoveToNextHeading => "move_to_next_heading".to_owned(),
            ScreenReaderAction::MoveToPreviousHeading => "move_to_previous_heading".to_owned(),
            ScreenReaderAction::ToggleMode => "toggle_mode".to_owned(),
        }
    }

    /// Reads a value, in upper or lower case.
    pub fn from_str(s: &str) -> (r: Result<ScreenReaderAction, VariantNotFound>)
        ensures
            r == or_not_found(ScreenReaderAction::spelled(s@)),
    {
        let lower: String = to_ascii_lowercase(s);
        let l: &str = lower.as_str();
        if same_text(l, "stop_talking") {
            Ok(ScreenReaderAction::StopTalking)
        } else if same_text(l, "read_next_word") {
            Ok(ScreenReaderAction::ReadNextWord)
        } else if same_text(l, "read_previous_word") {
            Ok(ScreenReaderAction::ReadPreviousWord)
        } else if same_text(l, "read_next_item") {
            Ok(ScreenReaderAction::ReadNextItem)
        } else if same_text(l, "read_previous_item") {
            Ok(ScreenReaderAction::ReadPreviousItem)
        } else if same_text(l, "move_to_next_landmark") {
            Ok(ScreenReaderAction::MoveToNextLandmark)
        } else if same_text(l, "move_to_previous_landmark") {
            Ok(ScreenReaderAction::MoveToPreviousLandmark)
        } else if same_text(l, "move_to_next_heading") {
            Ok(ScreenReaderAction::MoveToNextHeading)
        } else if same_text(l, "move_to_previous_heading") {
            Ok(ScreenReaderAction::MoveToPreviousHeading)
        } else if same_text(l, "toggle_mode") {
            Ok(ScreenReaderAction::ToggleMode)
        } else {
            Err(VariantNotFound)
        }
    }

    /// A value is read only from its own text, in upper or lower case.
    pub proof fn law_only_spelling_reads(self, s: Seq<char>)
        ensures
            ScreenReaderAction::spelled(s) == Some(self) ==> lowered(s) == self.spelling(),
    {
    }

    /// What is written reads back as the same value.
    pub proof fn law_spelling_reads_back(self)
        ensures
            ScreenReaderAction::spelled(self.spelling()) == Some(self),
    {
        reveal_strlit("stop_talking");
        reveal_strlit("read_next_word");
        reveal_strlit("read_previous_word");
        reveal_strlit("read_next_item");
        reveal_strlit("read_previous_item");
        reveal_strlit("move_to_next_landmark");
        reveal_strlit("move_to_previous_landmark");
        reveal_strlit("move_to_next_heading");
        reveal_strlit("move_to_previous_heading");
        reveal_strlit("toggle_mode");
        assert("read_next_word"@[10] == 'w');
        assert("read_next_item"@[10] == 'i');
        assert("read_previous_word"@[14] == 'w');
        assert("read_previous_item"@[14] == 'i');
        assert(lowered("stop_talking"@) =~= "stop_talking"@);
        assert(lowered("read_next_word"@) =~= "read_next_word"@);
        assert(lowered("read_previous_word"@) =~= "read_previous_word"@);
        assert(lowered("read_next_item"@) =~= "read_next_item"@);
        assert(lowered("read_previous_item"@) =~= "read_previous_item"@);
        assert(lowered("move_to_next_landmark"@) =~= "move_to_next_landmark"@);
        assert(lowered("move_to_previous_landmark"@) =~= "move_to_previous_landmark"@);
        assert(lowered("move_to_next_heading"@) =~= "move_to_next_heading"@);
        assert(lowered("move_to_previous_heading"@) =~= "move_to_previous_heading"@);
        assert(lowered("toggle_mode"@) =~= "toggle_mode"@);
    }

    /// The number of the value.
    pub open spec fn number(self) -> u32 {
        match self {
            ScreenReaderAction::StopTalking => 0,
            ScreenReaderAction::ReadNextWord => 1,
            ScreenReaderAction::ReadPreviousWord => 2,
            ScreenReaderAction::ReadNextItem => 3,
            ScreenReaderAction::ReadPreviousItem => 4,
            ScreenReaderAction::MoveToNextLandmark => 5,
            ScreenReaderAction::MoveToPreviousLandmark => 6,
            ScreenReaderAction::MoveToNextHeading => 7,
            ScreenReaderAction::MoveToPreviousHeading => 8,
            ScreenReaderAction::ToggleMode => 9,
        }
    }

    /// The value with a given number.
    pub open spec fn numbered(n: u32) -> Option<ScreenReaderAction> {
        if n == 0 {
            Some(ScreenReaderAction::StopTalking)
        } else if n == 1 {
            Some(ScreenReaderAction::ReadNextWord)
        } else if n == 2 {
            Some(ScreenReaderAction::ReadPreviousWord)
        } else if n == 3 {
            Some(ScreenReaderAction::ReadNextItem)
        } else if n == 4 {
            Some(ScreenReaderAction::ReadPreviousItem)
        } else if n == 5 {
            Some(ScreenReaderAction::MoveToNextLandmark)
        } else if n == 6 {
            Some(ScreenReaderAction::MoveToPreviousLandmark)
        } else if n == 7 {
            Some(ScreenReaderAction::MoveToNextHeading)
        } else if n == 8 {
            Some(ScreenReaderAction::MoveToPreviousHeading)
        } else if n == 9 {
            Some(ScreenReaderAction::ToggleMode)
        } else {
            None
        }
    }

    /// The number of the value.
    pub fn to_u32(self) -> (r: u32)
        ensures
            r == self.number(),
    {
        match self {
            ScreenReaderAction::StopTalking => 0,
            ScreenReaderAction::ReadNextWord => 1,
            ScreenReaderAction::ReadPreviousWord => 2,
            ScreenReaderAction::ReadNextItem => 3,
            ScreenReaderAction::ReadPreviousItem => 4,
            ScreenReaderAction::MoveToNextLandmark => 5,
            ScreenReaderAction::MoveToPreviousLandmark => 6,
            ScreenReaderAction::MoveToNextHeading => 7,
            ScreenReaderAction::MoveToPreviousHeading => 8,
            ScreenReaderAction::ToggleMode => 9,
        }
    }

    /// The value with the number `n`.
    pub fn try_from(n: u32) -> (r: Result<ScreenReaderAction, UnknownNumber>)
        ensures
            r == or_unknown(ScreenReaderAction::numbered(n), n as i64),
    {
        if n == 0 {
            Ok(ScreenReaderAction::StopTalking)
        } else if n == 1 {
            Ok(ScreenReaderAction::ReadNextWord)
        } else if n == 2 {
            Ok(ScreenReaderAction::ReadPreviousWord)
        } else if n == 3 {
            Ok(ScreenReaderAction::ReadNextItem)
        } else if n == 4 {
            Ok(ScreenReaderAction::ReadPreviousItem)
        } else if n == 5 {
            Ok(ScreenReaderAction::MoveToNextLandmark)
        } else if n == 6 {
            Ok(ScreenReaderAction::MoveToPreviousLandmark)
        } else if n == 7 {
            Ok(ScreenReaderAction::MoveToNextHeading)
        } else if n == 8 {
            Ok(ScreenReaderAction::MoveToPreviousHeading)
        } else if n == 9 {
            Ok(ScreenReaderAction::ToggleMode)
        } else {
            Err(UnknownNumber { number: n as i64 })
        }
    }

    /// The number of a value gives the value back, and no other number does.
    pub proof fn law_number_reads_back(self, n: u32)
        ensures
            ScreenReaderAction::numbered(n) == Some(self) <==> n == self.number(),
    {
    }
}

/// The actions are numbered from 0 to 9: stopping comes first and toggling last,
/// between them words, items, landmarks and headings, each with the way back
/// right behind the way on.
pub proof fn law_action_numbers(n: u32)
    ensures
        ScreenReaderAction::numbered(n) is Some <==> n < 10,
        ScreenReaderAction::ReadPreviousWord.number() == ScreenReaderAction::ReadNextWord.number()
            + 1,
        ScreenReaderAction::ReadPreviousItem.number() == ScreenReaderAction::ReadNextItem.number()
            + 1,
        ScreenReaderAction::MoveToPreviousLandmark.number()
            == ScreenReaderAction::MoveToNextLandmark.number() + 1,
        ScreenReaderAction::MoveToPreviousHeading.number()
            == ScreenReaderAction::MoveToNextHeading.number() + 1,
        ScreenReaderAction::StopTalking.number() < ScreenReaderAction::ReadNextWord.number()
            < ScreenReaderAction::ReadNextItem.number()
            < ScreenReaderAction::MoveToNextLandmark.number()
            < ScreenReaderAction::MoveToNextHeading.number()
            < ScreenReaderAction::ToggleMode.number(),
{
}

/// The text of the way back is that of the way on with `previous` for `next`.
pub proof fn law_action_texts()
    ensures
        ScreenReaderAction::ReadNextWord.spelling() == "read_"@ + "next"@ + "_word"@,
        ScreenReaderAction::ReadPreviousWord.spelling() == "read_"@ + "previous"@ + "_word"@,
        ScreenReaderAction::ReadNextItem.spelling() == "read_"@ + "next"@ + "_item"@,
        ScreenReaderAction::ReadPreviousItem.spelling() == "read_"@ + "previous"@ + "_item"@,
        ScreenReaderAction::MoveToNextLandmark.spelling() == "move_to_"@ + "next"@ + "_landmark"@,
        ScreenReaderAction::MoveToPreviousLandmark.spelling() == "move_to_"@ + "previous"@
            + "_landmark"@,
        ScreenReaderAction::MoveToNextHeading.spelling() == "move_to_"@ + "next"@ + "_heading"@,
        ScreenReaderAction::MoveToPreviousHeading.spelling() == "move_to_"@ + "previous"@
            + "_heading"@,
{
    reveal_strlit("read_");
    reveal_strlit("move_to_");
    reveal_strlit("next");
    reveal_strlit("previous");
    reveal_strlit("_word");
    reveal_strlit("_item");
    reveal_strlit("_landmark");
    reveal_strlit("_heading");
    reveal_strlit("read_next_word");
    reveal_strlit("read_previous_word");
    reveal_strlit("read_next_item");
    reveal_strlit("read_previous_item");
    reveal_strlit("move_to_next_landmark");
    reveal_strlit("move_to_previous_landmark");
    reveal_strlit("move_to_next_heading");
    reveal_strlit("move_to_previous_heading");
    assert("read_next_word"@ =~= "read_"@ + "next"@ + "_word"@);
    assert("read_previous_word"@ =~= "read_"@ + "previous"@ + "_word"@);
    assert("read_next_item"@ =~= "read_"@ + "next"@ + "_item"@);
    assert("read_previous_item"@ =~= "read_"@ + "previous"@ + "_item"@);
    assert("move_to_next_landmark"@ =~= "move_to_"@ + "next"@ + "_landmark"@);
    assert("move_to_previous_landmark"@ =~= "move_to_"@ + "previous"@ + "_landmark"@);
    assert("move_to_next_heading"@ =~= "move_to_"@ + "next"@ + "_heading"@);
    assert("move_to_previous_heading"@ =~= "move_to_"@ + "previous"@ + "_heading"@);
}

/// The modes are numbered from 0, browsing first.
pub proof fn law_mode_numbers(n: u32)
    ensures
        ScreenReaderMode::numbered(n) is Some <==> n < 2,
        ScreenReaderMode::Browse.number() < ScreenReaderMode::Focus.number(),
{
}

} // verus!
