//! The configuration files of `config`, as far as the Wi-Fi settings need them.
use crate::numbers::{
    all_digits, decimal, digits_value, i64_of, law_signed_reads_back, lemma_decimal, parse_up_to,
    signed_decimal,
};
use crate::text::{chars_of, has_no, is_digit, lowered, text_of, texts};
use vstd::prelude::*;

verus! {

/// The builder of `config` that reads its sources at once.
#[verifier::external_body]
pub struct IniBuilder {
    inner: config::ConfigBuilder<config::builder::DefaultState>,
}

/// A configuration of `config`.
#[verifier::external_type_specification]
#[verifier::external_body]
pub struct ExConfig(config::Config);

/// A value of a configuration.
#[verifier::external_type_specification]
#[verifier::external_body]
pub struct ExConfigValue(config::Value);

/// An error of `config`.
#[verifier::external_type_specification]
#[verifier::external_body]
pub struct ExConfigError(config::ConfigError);

/// The INI texts that were added to a builder, in their order.
pub uninterp spec fn ini_sources(b: IniBuilder) -> Seq<Seq<char>>;

/// The keys at the top of an INI text: its sections, and what is set before the
/// first of them. `None` if the text is no INI text.
pub uninterp spec fn ini_keys(text: Seq<char>) -> Option<Set<Seq<char>>>;

/// Whether a configuration is one of the texts. Where the texts name one place
/// in several ways, they have more than one.
pub uninterp spec fn is_configuration_of(c: config::Config, sources: Seq<Seq<char>>) -> bool;

/// What a configuration holds for a key of a section.
pub uninterp spec fn config_entry(c: config::Config, section: Seq<char>, key: Seq<char>) -> Option<
    config::Value,
>;

/// The text that a value can be turned into.
pub uninterp spec fn entry_text(v: config::Value) -> Option<Seq<char>>;

/// The number that a value can be turned into.
pub uninterp spec fn entry_int(v: config::Value) -> Option<i64>;

pub open spec fn no_sources() -> Seq<Seq<char>> {
    Seq::empty()
}

/// Whether a text is an INI text.
pub open spec fn is_ini(text: Seq<char>) -> bool {
    ini_keys(text) is Some
}

pub open spec fn is_word_char(c: char) -> bool {
    'a' <= c <= 'z' || 'A' <= c <= 'Z' || '0' <= c <= '9' || c == '_' || c == '-'
}

/// Letters, digits, underscores and hyphens.
pub open spec fn is_section_name(s: Seq<char>) -> bool {
    s.len() > 0 && forall|i: int| 0 <= i < s.len() ==> is_word_char(#[trigger] s[i])
}

/// Letters, digits, underscores, hyphens and dots.
pub open spec fn is_plain_key(s: Seq<char>) -> bool {
    s.len() > 0 && forall|i: int|
        0 <= i < s.len() ==> is_word_char(#[trigger] s[i]) || s[i] == '.'
}

/// ASCII characters that can be seen, and blanks between them, without quotes
/// and backslashes.
pub open spec fn is_plain_value(s: Seq<char>) -> bool {
    &&& forall|i: int|
        0 <= i < s.len() ==> ' ' <= #[trigger] s[i] <= '~' && s[i] != '"' && s[i] != '\'' && s[i]
            != '\\'
    &&& s.len() > 0 ==> s[0] != ' ' && s.last() != ' '
}

pub open spec fn is_blank(c: char) -> bool {
    c == ' ' || c == '\t'
}

pub open spec fn are_blanks(s: Seq<char>) -> bool {
    forall|i: int| 0 <= i < s.len() ==> is_blank(#[trigger] s[i])
}

/// A line of a plain document.
pub enum IniLine {
    Empty,
    /// A comment, with the mark that it starts with.
    Comment(Seq<char>),
    /// The start of a section.
    Section(Seq<char>),
    /// A setting, with the blanks before and after the equals sign.
    Setting { key: Seq<char>, before: Seq<char>, after: Seq<char>, value: Seq<char> },
}

pub open spec fn is_plain_line(line: IniLine) -> bool {
    match line {
        IniLine::Empty => true,
        IniLine::Comment(text) => text.len() > 0 && (text[0] == '#' || text[0] == ';') && has_no(
            text,
            '\n',
        ),
        IniLine::Section(name) => is_section_name(name),
        IniLine::Setting { key, before, after, value } => is_plain_key(key) && are_blanks(before)
            && are_blanks(after) && is_plain_value(value),
    }
}

pub open spec fn line_text(line: IniLine) -> Seq<char> {
    match line {
        IniLine::Empty => Seq::empty(),
        IniLine::Comment(text) => text,
        IniLine::Section(name) => "["@ + name + "]"@,
        IniLine::Setting { key, before, after, value } => key + before + "="@ + after + value,
    }
}

/// The text of some lines, with a line end behind each.
pub open spec fn lines_text(lines: Seq<IniLine>) -> Seq<char>
    decreases lines.len(),
{
    if lines.len() == 0 {
        Seq::empty()
    } else {
        lines_text(lines.drop_last()) + line_text(lines.last()) + "\n"@
    }
}

/// The section that is open behind some lines.
pub open spec fn open_section(lines: Seq<IniLine>) -> Option<Seq<char>>
    decreases lines.len(),
{
    if lines.len() == 0 {
        None
    } else {
        match lines.last() {
            IniLine::Section(name) => Some(name),
            _ => open_section(lines.drop_last()),
        }
    }
}

/// Plain lines, with every setting in a section, and with no section twice.
pub open spec fn are_plain_lines(lines: Seq<IniLine>) -> bool {
    &&& forall|i: int| 0 <= i < lines.len() ==> is_plain_line(#[trigger] lines[i])
    &&& forall|i: int|
        0 <= i < lines.len() && #[trigger] lines[i] is Setting ==> open_section(
            lines.take(i),
        ) is Some
    &&& forall|i: int, j: int|
        0 <= i < j < lines.len() && lines[i] is Section && lines[j] is Section
            ==> #[trigger] lines[i] != #[trigger] lines[j]
}

/// Whether a text is that of plain lines; the last line end may be missing.
pub open spec fn is_document(text: Seq<char>, lines: Seq<IniLine>) -> bool {
    are_plain_lines(lines) && (text == lines_text(lines) || text + "\n"@ == lines_text(lines))
}

/// The value of a key of a section among some lines: the last one that is set.
pub open spec fn value_in_lines(lines: Seq<IniLine>, name: Seq<char>, key: Seq<char>) -> Option<
    Seq<char>,
>
    decreases lines.len(),
{
    if lines.len() == 0 {
        None
    } else {
        let before = value_in_lines(lines.drop_last(), name, key);
        match lines.last() {
            IniLine::Setting { key: k, value, .. } => if k == key && open_section(
                lines.drop_last(),
            ) == Some(name) {
                Some(value)
            } else {
                before
            },
            _ => before,
        }
    }
}

/// The value of a key of a section in some documents: the one of the last
/// document that has one.
pub open spec fn value_in_documents(
    documents: Seq<Seq<IniLine>>,
    name: Seq<char>,
    key: Seq<char>,
) -> Option<Seq<char>>
    decreases documents.len(),
{
    if documents.len() == 0 {
        None
    } else {
        match value_in_lines(documents.last(), name, key) {
            Some(value) => Some(value),
            None => value_in_documents(documents.drop_last(), name, key),
        }
    }
}

/// Whether the texts are those of plain documents.
pub open spec fn are_documents(sources: Seq<Seq<char>>, documents: Seq<Seq<IniLine>>) -> bool {
    &&& sources.len() == documents.len()
    &&& forall|i: int| 0 <= i < documents.len() ==> is_document(sources[i], #[trigger] documents[i])
}

/// The number that a plain value stands for: it may be spelled out as a switch.
pub open spec fn value_number(value: Seq<char>) -> Option<i64> {
    let word = lowered(value);
    if word == "true"@ || word == "on"@ || word == "yes"@ {
        Some(1)
    } else if word == "false"@ || word == "off"@ || word == "no"@ {
        Some(0)
    } else {
        i64_of(value)
    }
}

/// Whether a configuration has a plain value for a key of a section.
pub open spec fn has_value(
    c: config::Config,
    name: Seq<char>,
    key: Seq<char>,
    value: Seq<char>,
) -> bool {
    config_entry(c, name, key) matches Some(v) && entry_text(v) == Some(value) && entry_int(v)
        == value_number(value)
}

/// Whether a configuration holds what the documents say, and nothing else in
/// sections with plain names.
pub open spec fn holds_documents(c: config::Config, documents: Seq<Seq<IniLine>>) -> bool {
    forall|name: Seq<char>, key: Seq<char>|
        is_section_name(name) ==> match #[trigger] value_in_documents(documents, name, key) {
            Some(value) => has_value(c, name, key, value),
            None => config_entry(c, name, key) is None,
        }
}

/// Whether a configuration holds at least what the lines say.
pub open spec fn holds_lines(c: config::Config, lines: Seq<IniLine>) -> bool {
    forall|name: Seq<char>, key: Seq<char>|
        (#[trigger] value_in_lines(lines, name, key) matches Some(value) ==> has_value(
            c,
            name,
            key,
            value,
        ))
}

/// Whether the last text is that of plain lines.
pub open spec fn is_last_document(sources: Seq<Seq<char>>, lines: Seq<IniLine>) -> bool {
    sources.len() > 0 && is_document(sources.last(), lines)
}

pub open spec fn are_ini(sources: Seq<Seq<char>>) -> bool {
    forall|i: int| 0 <= i < sources.len() ==> is_ini(#[trigger] sources[i])
}

/// How many characters for which `p` holds a text starts with.
pub open spec fn run_of(s: Seq<char>, p: spec_fn(char) -> bool) -> int
    decreases s.len(),
{
    if s.len() > 0 && p(s[0]) {
        1 + run_of(s.skip(1), p)
    } else {
        0
    }
}

/// What follows the characters for which `p` holds at the start of a text.
pub open spec fn behind(s: Seq<char>, p: spec_fn(char) -> bool) -> Seq<char> {
    s.skip(run_of(s, p))
}

pub open spec fn has_minus(s: Seq<char>) -> bool {
    s.len() > 0 && s[0] == '-'
}

/// What a text starts with if that is a subscript, behind its bracket: how long
/// a list has to be for it, and what follows the closing bracket. A subscript
/// from the end takes a list of just that length.
pub open spec fn subscript(s: Seq<char>) -> Option<(int, Seq<char>)> {
    let a = behind(s, |c: char| is_blank(c));
    let b = if has_minus(a) {
        a.skip(1)
    } else {
        a
    };
    let digits = b.take(run_of(b, |c: char| is_digit(c)));
    let rest = behind(behind(b, |c: char| is_digit(c)), |c: char| is_blank(c));
    let max = if has_minus(a) {
        isize::MAX + 1
    } else {
        isize::MAX as int
    };
    if digits.len() > 0 && digits_value(digits) <= max && rest.len() > 0 && rest[0] == ']' {
        Some(
            (
                if has_minus(a) {
                    digits_value(digits) as int
                } else {
                    digits_value(digits) as int + 1
                },
                rest.skip(1),
            ),
        )
    } else {
        None
    }
}

/// How much a path asks for: the longest list in it, and the number of its
/// steps.
pub struct PathSize {
    pub longest: int,
    pub steps: int,
}

/// A path with one more step, which takes a list of the given length.
pub open spec fn one_step(path: Option<PathSize>, length: int) -> Option<PathSize> {
    match path {
        Some(p) => Some(
            PathSize {
                longest: if length > p.longest {
                    length
                } else {
                    p.longest
                },
                steps: p.steps + 1,
            },
        ),
        None => None,
    }
}

/// The steps of a path behind its first word: a dot and a word, or a subscript
/// in brackets. `None` if the text is none of this.
pub open spec fn steps_of(s: Seq<char>) -> Option<PathSize>
    decreases s.len(),
{
    if s.len() == 0 {
        Some(PathSize { longest: 0, steps: 0 })
    } else if s[0] == '.' {
        let rest = behind(s.skip(1), |c: char| is_word_char(c));
        if rest.len() < s.len() - 1 {
            one_step(steps_of(rest), 0)
        } else {
            None
        }
    } else if s[0] == '[' {
        match subscript(s.skip(1)) {
            Some((length, rest)) => if rest.len() < s.len() {
                one_step(steps_of(rest), length)
            } else {
                None
            },
            None => None,
        }
    } else {
        None
    }
}

/// The path that a key is read as, if it can be read as one.
pub open spec fn path_of(key: Seq<char>) -> Option<PathSize> {
    let rest = behind(key, |c: char| is_word_char(c));
    if rest.len() < key.len() {
        steps_of(rest)
    } else {
        None
    }
}

/// Whether a key is a path to a place that no configuration can be made for: in
/// a list that has more bytes than can be addressed, or too deep for the stack
/// of a thread. A value of a list takes some hundred bytes, and lists may grow
/// to twice the length that they need.
pub open spec fn is_huge_key(key: Seq<char>) -> bool {
    path_of(key) matches Some(p) && (p.longest > isize::MAX / 256 || p.steps > 1000)
}

/// Whether an INI text has such a key at its top.
pub open spec fn has_huge_key(text: Seq<char>) -> bool {
    ini_keys(text) matches Some(keys) && exists|key: Seq<char>| #[trigger]
        keys.contains(key) && is_huge_key(key)
}

proof fn lemma_run(s: Seq<char>, p: spec_fn(char) -> bool)
    ensures
        0 <= run_of(s, p) <= s.len(),
        forall|i: int| 0 <= i < run_of(s, p) ==> p(#[trigger] s[i]),
        run_of(s, p) < s.len() ==> !p(s[run_of(s, p)]),
    decreases s.len(),
{
    if s.len() > 0 && p(s[0]) {
        lemma_run(s.skip(1), p);
        assert forall|i: int| 0 <= i < run_of(s, p) implies p(#[trigger] s[i]) by {
            if i > 0 {
                assert(s[i] == s.skip(1)[i - 1]);
            }
        }
    }
}

proof fn lemma_section_name_is_not_huge(name: Seq<char>)
    requires
        is_section_name(name),
    ensures
        !is_huge_key(name),
{
    let p = |c: char| is_word_char(c);
    lemma_run(name, p);
    if run_of(name, p) < name.len() {
        assert(is_word_char(name[run_of(name, p)]));
    }
    assert(behind(name, p).len() == 0);
}

fn blanks_end(v: &Vec<char>, from: usize) -> (r: usize)
    requires
        from <= v@.len(),
    ensures
        from <= r <= v@.len(),
        r - from == run_of(v@.skip(from as int), |c: char| is_blank(c)),
{
    let ghost p = |c: char| is_blank(c);
    let mut i: usize = from;
    while i < v.len() && (v[i] == ' ' || v[i] == '\t')
        invariant
            from <= i <= v@.len(),
            p == (|c: char| is_blank(c)),
            run_of(v@.skip(from as int), p) == i - from + run_of(v@.skip(i as int), p),
        decreases v@.len() - i,
    {
        assert(v@.skip(i as int).skip(1) =~= v@.skip(i + 1));
        i = i + 1;
    }
    i
}

fn digits_end(v: &Vec<char>, from: usize) -> (r: usize)
    requires
        from <= v@.len(),
    ensures
        from <= r <= v@.len(),
        r - from == run_of(v@.skip(from as int), |c: char| is_digit(c)),
{
    let ghost p = |c: char| is_digit(c);
    let mut i: usize = from;
    while i < v.len() && v[i] >= '0' && v[i] <= '9'
        invariant
            from <= i <= v@.len(),
            p == (|c: char| is_digit(c)),
            run_of(v@.skip(from as int), p) == i - from + run_of(v@.skip(i as int), p),
        decreases v@.len() - i,
    {
        assert(v@.skip(i as int).skip(1) =~= v@.skip(i + 1));
        i = i + 1;
    }
    i
}

fn word_end(v: &Vec<char>, from: usize) -> (r: usize)
    requires
        from <= v@.len(),
    ensures
        from <= r <= v@.len(),
        r - from == run_of(v@.skip(from as int), |c: char| is_word_char(c)),
{
    let ghost p = |c: char| is_word_char(c);
    let mut i: usize = from;
    while i < v.len() && ((v[i] >= 'a' && v[i] <= 'z') || (v[i] >= 'A' && v[i] <= 'Z') || (v[i]
        >= '0' && v[i] <= '9') || v[i] == '_' || v[i] == '-')
        invariant
            from <= i <= v@.len(),
            p == (|c: char| is_word_char(c)),
            run_of(v@.skip(from as int), p) == i - from + run_of(v@.skip(i as int), p),
        decreases v@.len() - i,
    {
        assert(v@.skip(i as int).skip(1) =~= v@.skip(i + 1));
        i = i + 1;
    }
    i
}

/// Reads a subscript behind its bracket: whether its list is too long, and the
/// place behind the closing bracket.
fn read_subscript(v: &Vec<char>, from: usize) -> (r: Option<(bool, usize)>)
    requires
        from <= v@.len(),
    ensures
        match subscript(v@.skip(from as int)) {
            Some((length, rest)) => {
                &&& r matches Some((long, to))
                &&& long == (length > isize::MAX / 256)
                &&& from < to <= v@.len()
                &&& v@.skip(to as int) == rest
            },
            None => r is None,
        },
{
    let ghost blank = |c: char| is_blank(c);
    let ghost digit = |c: char| is_digit(c);
    let ghost s = v@.skip(from as int);
    let mut start: usize = blanks_end(v, from);
    let ghost a = v@.skip(start as int);
    assert(behind(s, blank) =~= a);
    let minus: bool = start < v.len() && v[start] == '-';
    if minus {
        assert(a.skip(1) =~= v@.skip(start + 1));
        start = start + 1;
    }
    let ghost b = v@.skip(start as int);
    let end: usize = digits_end(v, start);
    let ghost digits = v@.subrange(start as int, end as int);
    assert(b.take(run_of(b, digit)) =~= digits);
    assert(behind(b, digit) =~= v@.skip(end as int));
    let close: usize = blanks_end(v, end);
    let ghost rest = v@.skip(close as int);
    assert(behind(v@.skip(end as int), blank) =~= rest);
    if start == end || close == v.len() || v[close] != ']' {
        return None;
    }
    assert(rest.skip(1) =~= v@.skip(close + 1));
    assert(all_digits(digits)) by {
        lemma_run(b, digit);
        assert forall|i: int| 0 <= i < digits.len() implies is_digit(#[trigger] digits[i]) by {
            assert(digits[i] == b[i]);
        }
    }
    assert(is_digit(digits[0]));
    let limit: u64 = if minus {
        isize::MAX as u64 + 1
    } else {
        isize::MAX as u64
    };
    let most: u64 = isize::MAX as u64 / 256;
    match parse_up_to(text_of(v, start, end).as_str(), limit) {
        Some(n) => {
            let long: bool = if minus {
                n > most
            } else {
                n >= most
            };
            Some((long, close + 1))
        },
        None => None,
    }
}

/// `path` with more steps before it.
spec fn with_steps(path: Option<PathSize>, longest: int, steps: int) -> Option<PathSize> {
    match path {
        Some(p) => Some(
            PathSize {
                longest: if longest > p.longest {
                    longest
                } else {
                    p.longest
                },
                steps: p.steps + steps,
            },
        ),
        None => None,
    }
}

fn is_too_large(key: &str) -> (r: bool)
    ensures
        r == is_huge_key(key@),
{
    let v: Vec<char> = chars_of(key);
    assert(v@.skip(0) =~= v@);
    let mut i: usize = word_end(&v, 0);
    assert(behind(v@, |c: char| is_word_char(c)) == v@.skip(i as int));
    if i == 0 {
        return false;
    }
    let mut long: bool = false;
    let mut steps: usize = 0;
    let ghost mut longest: int = 0;
    assert(with_steps(steps_of(v@.skip(i as int)), 0, 0) == steps_of(v@.skip(i as int))) by {
        lemma_longest_is_not_negative(v@.skip(i as int));
    }
    while i < v.len()
        invariant
            v@ == key@,
            steps <= i <= v@.len(),
            longest >= 0,
            long == (longest > isize::MAX / 256),
            path_of(key@) == with_steps(steps_of(v@.skip(i as int)), longest, steps as int),
        decreases v@.len() - i,
    {
        let ghost s = v@.skip(i as int);
        let ghost old_longest = longest;
        assert(s.skip(1) =~= v@.skip(i + 1));
        assert(s[0] == v@[i as int]);
        if v[i] == '.' {
            let to: usize = word_end(&v, i + 1);
            assert(behind(s.skip(1), |c: char| is_word_char(c)) =~= v@.skip(to as int));
            if to == i + 1 {
                return false;
            }
            i = to;
        } else if v[i] == '[' {
            match read_subscript(&v, i + 1) {
                Some((list_is_long, to)) => {
                    proof {
                        let length = (subscript(s.skip(1))->0).0;
                        if length > longest {
                            longest = length;
                        }
                    }
                    long = long || list_is_long;
                    i = to;
                },
                None => {
                    return false;
                },
            }
        } else {
            return false;
        }
        steps = steps + 1;
    }
    assert(v@.skip(i as int).len() == 0);
    long || steps > 1000
}

proof fn lemma_longest_is_not_negative(s: Seq<char>)
    ensures
        steps_of(s) matches Some(p) ==> p.longest >= 0,
    decreases s.len(),
{
    if s.len() > 0 && s[0] == '.' {
        let rest = behind(s.skip(1), |c: char| is_word_char(c));
        if rest.len() < s.len() - 1 {
            lemma_longest_is_not_negative(rest);
        }
    } else if s.len() > 0 && s[0] == '[' {
        match subscript(s.skip(1)) {
            Some((length, rest)) => {
                if rest.len() < s.len() {
                    lemma_longest_is_not_negative(rest);
                }
            },
            None => {},
        }
    }
}

/// Whether no configuration can be made for `text` because of one of its keys.
pub fn holds_huge_key(text: &str) -> (r: bool)
    ensures
        r == has_huge_key(text@),
        forall|lines: Seq<IniLine>| #[trigger] is_document(text@, lines) ==> !r,
{
    match top_keys(text) {
        Ok(keys) => {
            for i in 0..keys.len()
                invariant
                    ini_keys(text@) == Some(texts(keys@).to_set()),
                    are_top_sections(texts(keys@), text@),
                    forall|k: int| 0 <= k < i ==> !is_huge_key((#[trigger] keys@[k])@),
            {
                if is_too_large(keys[i].as_str()) {
                    assert(texts(keys@)[i as int] == keys@[i as int]@);
                    assert((ini_keys(text@)->0).contains(keys@[i as int]@));
                    assert forall|lines: Seq<IniLine>| #[trigger]
                        is_document(text@, lines) implies false by {
                        assert(lines.contains(IniLine::Section(texts(keys@)[i as int])));
                        let k = choose|k: int|
                            0 <= k < lines.len() && lines[k] == IniLine::Section(
                                texts(keys@)[i as int],
                            );
                        assert(is_plain_line(lines[k]));
                        lemma_section_name_is_not_huge(keys@[i as int]@);
                    }
                    return true;
                }
            }
            assert forall|key: Seq<char>| #[trigger]
                texts(keys@).to_set().contains(key) implies !is_huge_key(key) by {
                let k = choose|k: int| 0 <= k < texts(keys@).len() && texts(keys@)[k] == key;
                assert(texts(keys@)[k] == keys@[k]@);
            }
            false
        },
        Err(_) => false,
    }
}

/// If all texts are those of plain documents, there is a configuration, and it
/// holds what they say.
pub open spec fn holds_all_documents(
    r: Result<config::Config, config::ConfigError>,
    sources: Seq<Seq<char>>,
) -> bool {
    forall|documents: Seq<Seq<IniLine>>| #[trigger]
        are_documents(sources, documents) ==> (r matches Ok(c) && holds_documents(c, documents))
}

/// If the last text is that of a plain document, the configuration holds what
/// it says.
pub open spec fn holds_last_document(c: config::Config, sources: Seq<Seq<char>>) -> bool {
    forall|lines: Seq<IniLine>| #[trigger]
        is_last_document(sources, lines) ==> holds_lines(c, lines)
}

pub open spec fn int_in(r: Result<i64, config::ConfigError>) -> Option<i64> {
    match r {
        Ok(n) => Some(n),
        Err(_) => None,
    }
}

/// The keys at the top of a plain document are its sections.
pub open spec fn are_top_sections(keys: Seq<Seq<char>>, text: Seq<char>) -> bool {
    forall|lines: Seq<IniLine>, i: int|
        #[trigger] is_document(text, lines) && 0 <= i < keys.len() ==> lines.contains(
            IniLine::Section(#[trigger] keys[i]),
        )
}

pub open spec fn is_no_document(text: Seq<char>) -> bool {
    forall|lines: Seq<IniLine>| !#[trigger] is_document(text, lines)
}

/// `Source::collect` of `File::from_str` with the INI format: the keys at the top
/// of the text, with their escapes resolved, in no given order, or an error if
/// the text is no INI text. A plain document is one, and its keys at the top are
/// its sections.
#[verifier::external_body]
fn top_keys(text: &str) -> (r: Result<Vec<String>, config::ConfigError>)
    ensures
        match r {
            Ok(keys) => ini_keys(text@) == Some(texts(keys@).to_set()) && are_top_sections(
                texts(keys@),
                text@,
            ),
            Err(_) => ini_keys(text@) is None && is_no_document(text@),
        },
{
    let file = config::File::from_str(text, config::FileFormat::Ini);
    config::Source::collect(&file).map(|m| m.into_keys().collect())
}

/// `Config::builder`: a builder without sources.
#[verifier::external_body]
pub(crate) fn new_builder() -> (r: IniBuilder)
    ensures
        ini_sources(r) == no_sources(),
{
    IniBuilder { inner: config::Config::builder() }
}

/// `ConfigBuilder::add_source` with `File::from_str` and the INI format: the
/// builder with one more text behind its others.
#[verifier::external_body]
pub(crate) fn add_ini(b: IniBuilder, text: &str) -> (r: IniBuilder)
    ensures
        ini_sources(r) == ini_sources(b).push(text@),
{
    IniBuilder {
        inner: b.inner.add_source(config::File::from_str(text, config::FileFormat::Ini)),
    }
}

/// `ConfigBuilder::build`: a configuration of all texts, or an error if one of
/// them is no INI text. The keys at the top of a text are read as paths; it would
/// panic on a list that has more bytes than can be addressed, and overflow the
/// stack on a value with a great many steps to it. If all texts are those of plain
/// documents, they are INI texts, and the configuration holds their settings, a
/// later one before an earlier one. If the last text is that of a plain
/// document, the configuration holds its settings, whatever the others are.
/// What else a configuration of some texts holds is not stated: where they name
/// one place in several ways, it depends on the order of a hash map.
#[verifier::external_body]
pub(crate) fn build(b: IniBuilder) -> (r: Result<config::Config, config::ConfigError>)
    requires
        forall|i: int|
            0 <= i < ini_sources(b).len() ==> !has_huge_key(#[trigger] ini_sources(b)[i]),
    ensures
        r is Ok <==> are_ini(ini_sources(b)),
        r matches Ok(c) ==> is_configuration_of(c, ini_sources(b)),
        holds_all_documents(r, ini_sources(b)),
        r matches Ok(c) ==> holds_last_document(c, ini_sources(b)),
{
    b.inner.build()
}

/// `Config::get_table` and the entry of that table: the value of `key` in
/// `section`, if there is one.
#[verifier::external_body]
pub(crate) fn get_entry(c: &config::Config, section: &str, key: &str) -> (r: Option<config::Value>)
    ensures
        r == config_entry(*c, section@, key@),
{
    c.get_table(section).ok().and_then(|mut t| t.remove(key))
}

/// `Value::into_string`: the text of the value, if it can be turned into one.
#[verifier::external_body]
pub(crate) fn into_text(v: config::Value) -> (r: Result<String, config::ConfigError>)
    ensures
        match r {
            Ok(s) => entry_text(v) == Some(s@),
            Err(_) => entry_text(v) is None,
        },
{
    v.into_string()
}

/// `Value::into_int`: the number of the value, if it can be turned into one.
#[verifier::external_body]
pub(crate) fn into_int(v: config::Value) -> (r: Result<i64, config::ConfigError>)
    ensures
        int_in(r) == entry_int(v),
{
    v.into_int()
}

// ---------------------------------------------------------------------------
// Laws
// ---------------------------------------------------------------------------

/// The section that is open is the last one that starts.
pub proof fn law_open_section(lines: Seq<IniLine>, line: IniLine)
    ensures
        line matches IniLine::Section(name) ==> open_section(lines.push(line)) == Some(name),
        !(line is Section) ==> open_section(lines.push(line)) == open_section(lines),
        open_section(Seq::empty()) is None,
{
    assert(lines.push(line).drop_last() =~= lines);
    assert(lines.push(line).last() == line);
}

/// A setting sets its key in the section that is open and nothing else; other
/// lines set nothing.
pub proof fn law_setting_sets_its_key(
    lines: Seq<IniLine>,
    line: IniLine,
    name: Seq<char>,
    key: Seq<char>,
)
    ensures
        (line matches IniLine::Setting { key: k, value, .. } && k == key && open_section(lines)
            == Some(name)) ==> value_in_lines(lines.push(line), name, key) == Some(
            line->Setting_value,
        ),
        !(line matches IniLine::Setting { key: k, .. } && k == key) || open_section(lines) != Some(
            name,
        ) ==> value_in_lines(lines.push(line), name, key) == value_in_lines(lines, name, key),
        value_in_lines(Seq::empty(), name, key) is None,
{
    assert(lines.push(line).drop_last() =~= lines);
    assert(lines.push(line).last() == line);
}

/// The last document that has a value for a key decides.
pub proof fn law_last_document_counts(
    documents: Seq<Seq<IniLine>>,
    i: int,
    name: Seq<char>,
    key: Seq<char>,
)
    requires
        0 <= i < documents.len(),
        value_in_lines(documents[i], name, key) is Some,
        forall|j: int|
            i < j < documents.len() ==> value_in_lines(#[trigger] documents[j], name, key) is None,
    ensures
        value_in_documents(documents, name, key) == value_in_lines(documents[i], name, key),
    decreases documents.len(),
{
    if i < documents.len() - 1 {
        let w = documents.drop_last();
        assert(value_in_lines(documents[documents.len() - 1], name, key) is None);
        assert forall|j: int| i < j < w.len() implies value_in_lines(#[trigger] w[j], name, key)
            is None by {
            assert(w[j] == documents[j]);
        }
        law_last_document_counts(w, i, name, key);
    }
}

/// A word that says yes is 1 and one that says no is 0, in upper or lower case;
/// a decimal number that fits is itself.
pub proof fn law_value_numbers(value: Seq<char>, n: i64)
    ensures
        lowered(value) == "true"@ || lowered(value) == "on"@ || lowered(value) == "yes"@
            ==> value_number(value) == Some(1i64),
        lowered(value) == "false"@ || lowered(value) == "off"@ || lowered(value) == "no"@
            ==> value_number(value) == Some(0i64),
        value_number(signed_decimal(n as int)) == Some(n),
{
    reveal_strlit("true");
    reveal_strlit("on");
    reveal_strlit("yes");
    reveal_strlit("false");
    reveal_strlit("off");
    reveal_strlit("no");
    assert("true"@.len() == 4 && "on"@.len() == 2 && "yes"@.len() == 3 && "false"@.len() == 5);
    assert("off"@.len() == 3 && "no"@.len() == 2);
    assert("yes"@ != "off"@) by {
        assert("yes"@[0] != "off"@[0]);
    }
    assert("on"@ != "no"@) by {
        assert("on"@[0] != "no"@[0]);
    }
    let d = signed_decimal(n as int);
    law_signed_reads_back(n as int);
    if n < 0 {
        lemma_decimal((0 - n) as nat);
        assert(d[0] == '-');
    } else {
        lemma_decimal(n as nat);
        assert(is_digit(d[0]));
    }
    assert(lowered(d)[0] == d[0]);
}

proof fn lemma_run_is(s: Seq<char>, p: spec_fn(char) -> bool, i: int)
    requires
        0 <= i <= s.len(),
        forall|j: int| 0 <= j < i ==> p(#[trigger] s[j]),
        i < s.len() ==> !p(s[i]),
    ensures
        run_of(s, p) == i,
        behind(s, p) == s.skip(i),
    decreases s.len(),
{
    if i > 0 {
        assert(p(s[0]));
        let t = s.skip(1);
        assert forall|j: int| 0 <= j < i - 1 implies p(#[trigger] t[j]) by {
            assert(t[j] == s[j + 1]);
        }
        lemma_run_is(t, p, i - 1);
    }
}

/// A key that is one word takes no list and no step. A word behind a dot is one
/// step more; so is a subscript, which takes a list that reaches as far as it
/// says, from the start or from the end.
#[verifier::rlimit(60)]
pub proof fn law_paths_of_keys(word: Seq<char>, n: nat, rest: Seq<char>)
    requires
        is_section_name(word),
        rest.len() > 0 ==> !is_word_char(rest[0]),
    ensures
        path_of(word) == Some(PathSize { longest: 0, steps: 0 }),
        path_of(word + rest) == steps_of(rest),
        steps_of(seq!['.'] + (word + rest)) == one_step(steps_of(rest), 0),
        n <= isize::MAX ==> steps_of(seq!['['] + (decimal(n) + (seq![']'] + rest))) == one_step(
            steps_of(rest),
            n as int + 1,
        ),
        n <= isize::MAX ==> steps_of(seq!['['] + (seq!['-'] + (decimal(n) + (seq![']'] + rest))))
            == one_step(steps_of(rest), n as int),
        n > isize::MAX ==> steps_of(seq!['['] + (decimal(n) + (seq![']'] + rest))) is None,
{
    let p = |c: char| is_word_char(c);
    let e = Seq::<char>::empty();
    lemma_run_is(word, p, word.len() as int);
    assert(word.skip(word.len() as int) =~= e);
    let wr = word + rest;
    assert forall|j: int| 0 <= j < word.len() implies p(#[trigger] wr[j]) by {
        assert(wr[j] == word[j]);
        assert(is_word_char(word[j]));
    }
    if rest.len() > 0 {
        assert(wr[word.len() as int] == rest[0]);
    }
    lemma_run_is(wr, p, word.len() as int);
    assert(wr.skip(word.len() as int) =~= rest);
    let d = seq!['.'] + wr;
    assert(d.skip(1) =~= wr);
    assert(d[0] == '.');
    lemma_subscript(n, rest, false);
    lemma_subscript(n, rest, true);
    let tail = decimal(n) + (seq![']'] + rest);
    let a = seq!['['] + tail;
    assert(a.skip(1) =~= tail);
    assert(a[0] == '[');
    let m = seq!['['] + (seq!['-'] + tail);
    assert(m.skip(1) =~= seq!['-'] + tail);
    assert(m[0] == '[');
}

#[verifier::rlimit(60)]
proof fn lemma_subscript(n: nat, rest: Seq<char>, minus: bool)
    ensures
        ({
            let tail = decimal(n) + (seq![']'] + rest);
            let s = if minus {
                seq!['-'] + tail
            } else {
                tail
            };
            &&& n <= isize::MAX ==> subscript(s) == Some(
                (
                    if minus {
                        n as int
                    } else {
                        n as int + 1
                    },
                    rest,
                ),
            )
            &&& n > isize::MAX && !minus ==> subscript(s) is None
        }),
{
    let blank = |c: char| is_blank(c);
    let digit = |c: char| is_digit(c);
    let d = decimal(n);
    lemma_decimal(n);
    assert(is_digit(d[0]));
    let close = seq![']'] + rest;
    let tail = d + close;
    let s = if minus {
        seq!['-'] + tail
    } else {
        tail
    };
    assert(s[0] == (if minus {
        '-'
    } else {
        d[0]
    }));
    lemma_run_is(s, blank, 0);
    assert(s.skip(0) =~= s);
    if minus {
        assert(s.skip(1) =~= tail);
    }
    assert forall|j: int| 0 <= j < d.len() implies digit(#[trigger] tail[j]) by {
        assert(tail[j] == d[j]);
        assert(is_digit(d[j]));
    }
    assert(tail[d.len() as int] == ']');
    lemma_run_is(tail, digit, d.len() as int);
    assert(tail.take(d.len() as int) =~= d);
    assert(tail.skip(d.len() as int) =~= close);
    lemma_run_is(close, blank, 0);
    assert(close.skip(0) =~= close);
    assert(close.skip(1) =~= rest);
}

/// A key asks for too much exactly if it is a path of more than a thousand steps,
/// or into a list whose values, at 256 bytes each, do not fit in memory. What is
/// no path asks for nothing.
pub proof fn law_huge_keys(key: Seq<char>)
    ensures
        path_of(key) is None ==> !is_huge_key(key),
        path_of(key) matches Some(p) ==> (is_huge_key(key) <==> p.steps >= 1001 || p.longest * 256
            > isize::MAX),
{
    assert(isize::MAX % 256 == 255);
}

} // verus!
