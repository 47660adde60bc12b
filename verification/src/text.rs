//! Text helpers: the parts of `str` handling that the rest of the library is
//! stated over, on the sequence of characters of a text.
use vstd::prelude::*;

verus! {

/// `String::push`: appends one character.
pub assume_specification[ String::push ](s: &mut String, c: char)
    ensures
        final(s)@ == old(s)@.push(c),
;

// ---------------------------------------------------------------------------
// Characters
// ---------------------------------------------------------------------------

/// The characters with the Unicode property `White_Space`.
pub open spec fn is_white(c: char) -> bool {
    ||| 0x9 <= c as u32 <= 0xd
    ||| c as u32 == 0x20
    ||| c as u32 == 0x85
    ||| c as u32 == 0xa0
    ||| c as u32 == 0x1680
    ||| 0x2000 <= c as u32 <= 0x200a
    ||| c as u32 == 0x2028
    ||| c as u32 == 0x2029
    ||| c as u32 == 0x202f
    ||| c as u32 == 0x205f
    ||| c as u32 == 0x3000
}

/// Whether `c` is white space.
pub fn is_whitespace(c: char) -> (r: bool)
    ensures
        r == is_white(c),
{
    let n: u32 = c as u32;
    (n >= 0x9 && n <= 0xd) || n == 0x20 || n == 0x85 || n == 0xa0 || n == 0x1680 || (n >= 0x2000
        && n <= 0x200a) || n == 0x2028 || n == 0x2029 || n == 0x202f || n == 0x205f || n == 0x3000
}

pub open spec fn is_digit(c: char) -> bool {
    '0' <= c <= '9'
}

/// The ASCII lower case of one character; every other character stays.
pub open spec fn lower_char(c: char) -> char {
    if 'A' <= c <= 'Z' {
        ((c as u8 + 32) as u8) as char
    } else {
        c
    }
}

/// The ASCII lower case of a text.
pub open spec fn lowered(s: Seq<char>) -> Seq<char> {
    s.map_values(|c: char| lower_char(c))
}

pub open spec fn is_ascii_text(s: Seq<char>) -> bool {
    forall|i: int| 0 <= i < s.len() ==> '\0' <= #[trigger] s[i] <= '\x7f'
}

/// The lower case of a text by the rules of Unicode: what `str::to_lowercase`
/// returns.
pub uninterp spec fn unicode_lowered(s: Seq<char>) -> Seq<char>;

/// `str::to_lowercase`: the lower case of `s` by the rules of Unicode. On a text
/// of ASCII characters it is the ASCII lower case.
#[verifier::external_body]
pub(crate) fn to_lowercase(s: &str) -> (r: String)
    ensures
        r@ == unicode_lowered(s@),
        is_ascii_text(s@) ==> r@ == lowered(s@),
{
    s.to_lowercase()
}

fn lower_one(c: char) -> (r: char)
    ensures
        r == lower_char(c),
{
    if c >= 'A' && c <= 'Z' {
        (c as u8 + 32) as char
    } else {
        c
    }
}

// ---------------------------------------------------------------------------
// Texts and their characters
// ---------------------------------------------------------------------------

/// The characters of `s`.
pub fn chars_of(s: &str) -> (r: Vec<char>)
    ensures
        r@ == s@,
{
    let mut v: Vec<char> = Vec::new();
    for c in it: s.chars()
        invariant
            it.seq() == s@,
            v@ == s@.take(it.index() as int),
    {
        v.push(c);
    }
    v
}

/// The text made of the characters `from..to` of `v`.
pub fn text_of(v: &Vec<char>, from: usize, to: usize) -> (r: String)
    requires
        from <= to <= v@.len(),
    ensures
        r@ == v@.subrange(from as int, to as int),
{
    let mut s: String = String::new();
    for i in from..to
        invariant
            from <= to <= v@.len(),
            s@ == v@.subrange(from as int, i as int),
    {
        s.push(v[i]);
    }
    s
}

/// Whether two texts hold the same characters.
pub fn same_text(a: &str, b: &str) -> (r: bool)
    ensures
        r == (a@ == b@),
{
    a.to_owned() == b.to_owned()
}

/// `s` in ASCII lower case.
pub fn to_ascii_lowercase(s: &str) -> (r: String)
    ensures
        r@ == lowered(s@),
{
    let v: Vec<char> = chars_of(s);
    let mut r: String = String::new();
    for i in 0..v.len()
        invariant
            v@ == s@,
            r@ == lowered(s@).take(i as int),
    {
        r.push(lower_one(v[i]));
    }
    r
}

/// The concatenation of two texts.
pub fn concat(a: &str, b: &str) -> (r: String)
    ensures
        r@ == a@ + b@,
{
    let mut r: String = a.to_owned();
    r.append(b);
    r
}

// ---------------------------------------------------------------------------
// Prefixes, suffixes, parts
// ---------------------------------------------------------------------------

pub open spec fn has_prefix(s: Seq<char>, p: Seq<char>) -> bool {
    p.len() <= s.len() && s.take(p.len() as int) == p
}

pub open spec fn has_suffix(s: Seq<char>, p: Seq<char>) -> bool {
    p.len() <= s.len() && s.skip(s.len() - p.len()) == p
}

pub open spec fn has_part(s: Seq<char>, p: Seq<char>) -> bool {
    exists|i: int| 0 <= i && i + p.len() <= s.len() && #[trigger] s.subrange(i, i + p.len()) == p
}

fn matches_at(v: &Vec<char>, p: &Vec<char>, at: usize) -> (r: bool)
    requires
        at + p@.len() <= v@.len(),
    ensures
        r == (v@.subrange(at as int, at + p@.len()) == p@),
{
    for i in 0..p.len()
        invariant
            at + p@.len() <= v@.len(),
            v.len() == v@.len(),
            forall|j: int| 0 <= j < i ==> v@[at + j] == p@[j],
    {
        if v[at + i] != p[i] {
            assert(v@.subrange(at as int, at + p@.len())[i as int] != p@[i as int]);
            return false;
        }
    }
    assert(v@.subrange(at as int, at + p@.len()) =~= p@);
    true
}

/// Whether `s` starts with `p`.
pub fn starts_with(s: &str, p: &str) -> (r: bool)
    ensures
        r == has_prefix(s@, p@),
{
    let v: Vec<char> = chars_of(s);
    let w: Vec<char> = chars_of(p);
    if v.len() < w.len() {
        return false;
    }
    assert(v@.subrange(0, w@.len() as int) =~= s@.take(w@.len() as int));
    matches_at(&v, &w, 0)
}

/// Whether `s` ends with `p`.
pub fn ends_with(s: &str, p: &str) -> (r: bool)
    ensures
        r == has_suffix(s@, p@),
{
    let v: Vec<char> = chars_of(s);
    let w: Vec<char> = chars_of(p);
    if v.len() < w.len() {
        return false;
    }
    assert(v@.subrange(v@.len() - w@.len(), v@.len() as int) =~= s@.skip(s@.len() - p@.len()));
    matches_at(&v, &w, v.len() - w.len())
}

/// Whether `p` occurs somewhere in `s`.
pub fn contains(s: &str, p: &str) -> (r: bool)
    ensures
        r == has_part(s@, p@),
{
    let v: Vec<char> = chars_of(s);
    let w: Vec<char> = chars_of(p);
    if v.len() < w.len() {
        return false;
    }
    let last: usize = v.len() - w.len();
    let mut at: usize = 0;
    while at <= last
        invariant
            v@ == s@,
            w@ == p@,
            last == v@.len() - w@.len(),
            last < usize::MAX || w@.len() == 0,
            at <= last + 1,
            v@.len() == v.len(),
            forall|i: int| 0 <= i < at ==> #[trigger] s@.subrange(i, i + p@.len()) != p@,
        decreases last + 1 - at,
    {
        if matches_at(&v, &w, at) {
            assert(s@.subrange(at as int, at + p@.len()) == p@);
            return true;
        }
        assert(w@.len() > 0) by {
            if w@.len() == 0 {
                assert(v@.subrange(at as int, at + w@.len()) =~= w@);
            }
        }
        at = at + 1;
    }
    false
}

// ---------------------------------------------------------------------------
// Trimming
// ---------------------------------------------------------------------------

pub open spec fn trimmed_start(s: Seq<char>) -> Seq<char>
    decreases s.len(),
{
    if s.len() > 0 && is_white(s[0]) {
        trimmed_start(s.skip(1))
    } else {
        s
    }
}

pub open spec fn trimmed_end(s: Seq<char>) -> Seq<char>
    decreases s.len(),
{
    if s.len() > 0 && is_white(s.last()) {
        trimmed_end(s.drop_last())
    } else {
        s
    }
}

/// A text without the white space at both ends.
pub open spec fn trimmed(s: Seq<char>) -> Seq<char> {
    trimmed_end(trimmed_start(s))
}

fn start_index(v: &Vec<char>) -> (i: usize)
    ensures
        i <= v@.len(),
        trimmed_start(v@) == v@.skip(i as int),
{
    let mut i: usize = 0;
    assert(v@.skip(0) =~= v@);
    while i < v.len() && is_whitespace(v[i])
        invariant
            i <= v@.len(),
            trimmed_start(v@) == trimmed_start(v@.skip(i as int)),
        decreases v@.len() - i,
    {
        assert(v@.skip(i as int).skip(1) =~= v@.skip(i + 1));
        i = i + 1;
    }
    i
}

fn end_index(v: &Vec<char>, from: usize) -> (j: usize)
    requires
        from <= v@.len(),
    ensures
        from <= j <= v@.len(),
        trimmed_end(v@.skip(from as int)) == v@.subrange(from as int, j as int),
{
    let mut j: usize = v.len();
    assert(v@.subrange(from as int, j as int) =~= v@.skip(from as int));
    while from < j && is_whitespace(v[j - 1])
        invariant
            from <= j <= v@.len(),
            trimmed_end(v@.skip(from as int)) == trimmed_end(v@.subrange(from as int, j as int)),
        decreases j,
    {
        assert(v@.subrange(from as int, j as int).drop_last() =~= v@.subrange(
            from as int,
            j - 1,
        ));
        j = j - 1;
    }
    j
}

/// `s` without the white space at both ends.
pub fn trim(s: &str) -> (r: String)
    ensures
        r@ == trimmed(s@),
{
    let v: Vec<char> = chars_of(s);
    let i: usize = start_index(&v);
    let j: usize = end_index(&v, i);
    text_of(&v, i, j)
}

/// `s` without the white space at its end.
pub fn trim_end(s: &str) -> (r: String)
    ensures
        r@ == trimmed_end(s@),
{
    let v: Vec<char> = chars_of(s);
    let j: usize = end_index(&v, 0);
    assert(v@.skip(0) =~= v@);
    text_of(&v, 0, j)
}

// ---------------------------------------------------------------------------
// Splitting
// ---------------------------------------------------------------------------

/// The parts of a text between the characters for which `sep` holds: one more
/// than there are such characters.
pub open spec fn pieces_by(s: Seq<char>, sep: spec_fn(char) -> bool) -> Seq<Seq<char>>
    decreases s.len(),
{
    if s.len() == 0 {
        seq![Seq::<char>::empty()]
    } else {
        let rest = pieces_by(s.drop_last(), sep);
        if sep(s.last()) {
            rest.push(Seq::<char>::empty())
        } else {
            rest.drop_last().push(rest.last().push(s.last()))
        }
    }
}

pub open spec fn at_char(c: char) -> spec_fn(char) -> bool {
    |x: char| x == c
}

pub open spec fn at_white() -> spec_fn(char) -> bool {
    |x: char| is_white(x)
}

/// The parts of `s` between its occurrences of `c`.
pub open spec fn pieces_of(s: Seq<char>, c: char) -> Seq<Seq<char>> {
    pieces_by(s, at_char(c))
}

/// The words of `s`: its longest parts without white space.
pub open spec fn words_of(s: Seq<char>) -> Seq<Seq<char>> {
    pieces_by(s, at_white()).filter(|w: Seq<char>| w.len() > 0)
}

pub open spec fn without_return(line: Seq<char>) -> Seq<char> {
    if line.len() > 0 && line.last() == '\r' {
        line.drop_last()
    } else {
        line
    }
}

/// The lines of `s`, without the line ends `\n` or `\r\n`; what follows the
/// last line end is a line if it is not empty.
pub open spec fn lines_of(s: Seq<char>) -> Seq<Seq<char>> {
    let parts = pieces_of(s, '\n');
    let ended = parts.drop_last().map_values(|l: Seq<char>| without_return(l));
    if parts.last().len() == 0 {
        ended
    } else {
        ended.push(parts.last())
    }
}

/// The text of a string, if there is one.
pub open spec fn view_of(s: Option<String>) -> Option<Seq<char>> {
    match s {
        Some(s) => Some(s@),
        None => None,
    }
}

/// The texts of a list of strings.
pub open spec fn texts(v: Seq<String>) -> Seq<Seq<char>> {
    v.map_values(|s: String| s@)
}

pub proof fn lemma_pieces_not_empty(s: Seq<char>, sep: spec_fn(char) -> bool)
    ensures
        pieces_by(s, sep).len() >= 1,
    decreases s.len(),
{
    if s.len() > 0 {
        lemma_pieces_not_empty(s.drop_last(), sep);
    }
}

/// A text without a separator is its only part.
pub proof fn lemma_pieces_plain(s: Seq<char>, sep: spec_fn(char) -> bool)
    requires
        forall|i: int| 0 <= i < s.len() ==> !sep(#[trigger] s[i]),
    ensures
        pieces_by(s, sep) == seq![s],
    decreases s.len(),
{
    if s.len() > 0 {
        assert forall|i: int| 0 <= i < s.drop_last().len() implies !sep(
            #[trigger] s.drop_last()[i],
        ) by {
            assert(s.drop_last()[i] == s[i]);
        }
        lemma_pieces_plain(s.drop_last(), sep);
        assert(s.drop_last().push(s.last()) =~= s);
        assert(!sep(s[s.len() - 1]));
        assert(pieces_by(s, sep) =~= seq![s]);
    } else {
        assert(s =~= Seq::<char>::empty());
    }
}

/// A separator cuts a text in two, and the parts are those of both sides.
pub proof fn lemma_pieces_cut(a: Seq<char>, c: char, b: Seq<char>, sep: spec_fn(char) -> bool)
    requires
        sep(c),
    ensures
        pieces_by(a.push(c) + b, sep) == pieces_by(a, sep) + pieces_by(b, sep),
    decreases b.len(),
{
    let all = a.push(c) + b;
    if b.len() == 0 {
        assert(all =~= a.push(c));
        assert(all.drop_last() =~= a);
        assert(pieces_by(b, sep) =~= seq![Seq::<char>::empty()]);
        assert(pieces_by(all, sep) =~= pieces_by(a, sep) + pieces_by(b, sep));
    } else {
        lemma_pieces_cut(a, c, b.drop_last(), sep);
        lemma_pieces_not_empty(b.drop_last(), sep);
        assert(all.drop_last() =~= a.push(c) + b.drop_last());
        assert(pieces_by(all, sep) =~= pieces_by(a, sep) + pieces_by(b, sep));
    }
}

fn split_pieces(v: &Vec<char>, white: bool, c: char) -> (r: Vec<String>)
    ensures
        texts(r@) == pieces_by(v@, if white { at_white() } else { at_char(c) }),
{
    let ghost sep = if white { at_white() } else { at_char(c) };
    let mut done: Vec<String> = Vec::new();
    let mut cur: String = String::new();
    assert(v@.take(0) =~= Seq::<char>::empty());
    assert(texts(done@).push(cur@) =~= seq![Seq::<char>::empty()]);
    for i in 0..v.len()
        invariant
            sep == (if white { at_white() } else { at_char(c) }),
            texts(done@).push(cur@) == pieces_by(v@.take(i as int), sep),
    {
        let x: char = v[i];
        let ghost before = texts(done@).push(cur@);
        assert(v@.take(i + 1).drop_last() =~= v@.take(i as int));
        assert(v@.take(i + 1).last() == x);
        assert(before.drop_last() =~= texts(done@));
        if (white && is_whitespace(x)) || (!white && x == c) {
            let ghost old_done = done@;
            done.push(cur);
            assert(texts(done@) =~= texts(old_done).push(cur@));
            cur = String::new();
        } else {
            cur.push(x);
        }
    }
    assert(v@.take(v@.len() as int) =~= v@);
    let ghost old_done = done@;
    done.push(cur);
    assert(texts(done@) =~= texts(old_done).push(cur@));
    done
}

/// The parts of `s` between its occurrences of `c`.
pub fn split(s: &str, c: char) -> (r: Vec<String>)
    ensures
        texts(r@) == pieces_of(s@, c),
{
    let v: Vec<char> = chars_of(s);
    split_pieces(&v, false, c)
}

/// The words of `s`.
pub fn split_whitespace(s: &str) -> (r: Vec<String>)
    ensures
        texts(r@) == words_of(s@),
{
    let v: Vec<char> = chars_of(s);
    let parts: Vec<String> = split_pieces(&v, true, ' ');
    let ghost keep = |w: Seq<char>| w.len() > 0;
    let mut r: Vec<String> = Vec::new();
    assert(texts(parts@).take(0).filter(keep) =~= Seq::<Seq<char>>::empty()) by {
        reveal(Seq::filter);
    }
    assert(texts(r@) =~= Seq::<Seq<char>>::empty());
    for i in 0..parts.len()
        invariant
            keep == (|w: Seq<char>| w.len() > 0),
            texts(r@) == texts(parts@).take(i as int).filter(keep),
    {
        let ghost before = r@;
        assert(texts(parts@).take(i + 1).drop_last() =~= texts(parts@).take(i as int));
        reveal(Seq::filter);
        if !parts[i].as_str().is_empty() {
            r.push(parts[i].clone());
            assert(texts(r@) =~= texts(before).push(parts@[i as int]@));
        }
    }
    assert(texts(parts@).take(parts@.len() as int) =~= texts(parts@));
    r
}

/// The lines of `s`.
pub fn lines(s: &str) -> (r: Vec<String>)
    ensures
        texts(r@) == lines_of(s@),
{
    let v: Vec<char> = chars_of(s);
    let parts: Vec<String> = split_pieces(&v, false, '\n');
    proof {
        lemma_pieces_not_empty(v@, at_char('\n'));
        assert(texts(parts@).len() == parts@.len());
    }
    let mut r: Vec<String> = Vec::new();
    let last: usize = parts.len() - 1;
    let ghost ended = texts(parts@).drop_last().map_values(|l: Seq<char>| without_return(l));
    assert(texts(r@) =~= ended.take(0));
    for i in 0..last
        invariant
            last == parts@.len() - 1,
            ended == texts(parts@).drop_last().map_values(|l: Seq<char>| without_return(l)),
            texts(r@) == ended.take(i as int),
    {
        let line: Vec<char> = chars_of(parts[i].as_str());
        let n: usize = line.len();
        let ghost before = r@;
        let kept: String = if n > 0 && line[n - 1] == '\r' {
            assert(line@.subrange(0, n - 1) =~= line@.drop_last());
            text_of(&line, 0, n - 1)
        } else {
            parts[i].clone()
        };
        assert(kept@ == without_return(parts@[i as int]@));
        r.push(kept);
        assert(texts(r@) =~= texts(before).push(kept@));
        assert(ended.take(i + 1) =~= ended.take(i as int).push(ended[i as int]));
    }
    assert(ended.take(last as int) =~= ended);
    assert(texts(parts@).last() == parts@[last as int]@);
    if !parts[last].as_str().is_empty() {
        let ghost before = r@;
        r.push(parts[last].clone());
        assert(texts(r@) =~= texts(before).push(parts@[last as int]@));
    }
    r
}

/// The first place of `c` in `s`, or the length of `s`.
pub open spec fn first_at(s: Seq<char>, c: char) -> int
    decreases s.len(),
{
    if s.len() == 0 || s[0] == c {
        0
    } else {
        1 + first_at(s.skip(1), c)
    }
}

/// What stands before and after the first `c` of `s`.
pub open spec fn cut_once(s: Seq<char>, c: char) -> Option<(Seq<char>, Seq<char>)> {
    let i = first_at(s, c);
    if i < s.len() {
        Some((s.take(i), s.skip(i + 1)))
    } else {
        None
    }
}

pub proof fn lemma_first_at(s: Seq<char>, c: char, i: int)
    requires
        0 <= i <= s.len(),
        forall|j: int| 0 <= j < i ==> #[trigger] s[j] != c,
        i < s.len() ==> s[i] == c,
    ensures
        first_at(s, c) == i,
    decreases s.len(),
{
    if i > 0 {
        assert(s[0] != c);
        assert forall|j: int| 0 <= j < i - 1 implies #[trigger] s.skip(1)[j] != c by {
            assert(s.skip(1)[j] == s[j + 1]);
        }
        lemma_first_at(s.skip(1), c, i - 1);
    }
}

/// What stands before and after the first `c` of `s`, if it holds one.
pub fn split_once(s: &str, c: char) -> (r: Option<(String, String)>)
    ensures
        match r {
            Some((a, b)) => cut_once(s@, c) == Some((a@, b@)),
            None => cut_once(s@, c) is None,
        },
{
    let v: Vec<char> = chars_of(s);
    let mut i: usize = 0;
    while i < v.len() && v[i] != c
        invariant
            v@ == s@,
            i <= v@.len(),
            forall|j: int| 0 <= j < i ==> #[trigger] s@[j] != c,
        decreases v@.len() - i,
    {
        i = i + 1;
    }
    proof {
        lemma_first_at(s@, c, i as int);
    }
    if i < v.len() {
        assert(v@.subrange(0, i as int) =~= s@.take(i as int));
        assert(v@.subrange(i + 1, v@.len() as int) =~= s@.skip(i + 1));
        Some((text_of(&v, 0, i), text_of(&v, i + 1, v.len())))
    } else {
        None
    }
}

// ---------------------------------------------------------------------------
// Lines that were written
// ---------------------------------------------------------------------------

pub open spec fn has_no(s: Seq<char>, c: char) -> bool {
    forall|i: int| 0 <= i < s.len() ==> #[trigger] s[i] != c
}

/// A line that was written with a line feed behind it is read as that line,
/// and what follows it is read as if it stood alone.
pub proof fn lemma_lines_cons(line: Seq<char>, rest: Seq<char>)
    requires
        has_no(line, '\n'),
        line.len() > 0 ==> line.last() != '\r',
    ensures
        lines_of(line.push('\n') + rest) == seq![line] + lines_of(rest),
{
    let sep = at_char('\n');
    lemma_pieces_plain(line, sep);
    lemma_pieces_cut(line, '\n', rest, sep);
    lemma_pieces_not_empty(rest, sep);
    let parts = pieces_of(line.push('\n') + rest, '\n');
    let tail = pieces_of(rest, '\n');
    assert(parts == seq![line] + tail);
    assert(parts.last() == tail.last());
    assert(parts.drop_last() =~= seq![line] + tail.drop_last());
    let f = |l: Seq<char>| without_return(l);
    assert(parts.drop_last().map_values(f) =~= seq![line] + tail.drop_last().map_values(f));
    assert(lines_of(line.push('\n') + rest) =~= seq![line] + lines_of(rest));
}

pub proof fn lemma_lines_empty()
    ensures
        lines_of(Seq::<char>::empty()) == Seq::<Seq<char>>::empty(),
{
    let e = Seq::<char>::empty();
    assert(pieces_of(e, '\n') =~= seq![e]);
    assert(pieces_of(e, '\n').drop_last() =~= Seq::<Seq<char>>::empty());
    assert(lines_of(e) =~= Seq::<Seq<char>>::empty());
}

/// A text that ends at its only line feed is one line.
pub proof fn lemma_one_line(line: Seq<char>)
    requires
        has_no(line, '\n'),
        line.len() > 0 ==> line.last() != '\r',
    ensures
        lines_of(line.push('\n')) == seq![line],
{
    let e = Seq::<char>::empty();
    lemma_lines_cons(line, e);
    lemma_lines_empty();
    assert(line.push('\n') + e =~= line.push('\n'));
    assert(seq![line] + lines_of(e) =~= seq![line]);
}

/// A text whose first `c` is known is cut there.
pub proof fn lemma_cut_once(a: Seq<char>, c: char, b: Seq<char>)
    requires
        has_no(a, c),
    ensures
        cut_once(a.push(c) + b, c) == Some((a, b)),
{
    let s = a.push(c) + b;
    assert forall|j: int| 0 <= j < a.len() implies #[trigger] s[j] != c by {
        assert(s[j] == a[j]);
    }
    lemma_first_at(s, c, a.len() as int);
    assert(s.take(a.len() as int) =~= a);
    assert(s.skip(a.len() as int + 1) =~= b);
}

// ---------------------------------------------------------------------------
// Laws
// ---------------------------------------------------------------------------

/// Lower case keeps the length, and changes only the letters from A to Z: each
/// becomes the letter 32 places on. It has no such letter left.
pub proof fn law_lowered(s: Seq<char>)
    ensures
        lowered(s).len() == s.len(),
        forall|i: int|
            0 <= i < s.len() ==> if 'A' <= s[i] && s[i] <= 'Z' {
                #[trigger] lowered(s)[i] as u32 == s[i] as u32 + 32
            } else {
                lowered(s)[i] == s[i]
            },
        lowered(lowered(s)) == lowered(s),
{
    assert(lowered(lowered(s)) =~= lowered(s));
}

/// Trimming the start takes away white space only, and all of it.
pub proof fn law_trimmed_start(s: Seq<char>) -> (i: int)
    ensures
        0 <= i <= s.len(),
        trimmed_start(s) == s.skip(i),
        forall|j: int| 0 <= j < i ==> is_white(#[trigger] s[j]),
        i < s.len() ==> !is_white(s[i]),
    decreases s.len(),
{
    if s.len() > 0 && is_white(s[0]) {
        let k = law_trimmed_start(s.skip(1));
        assert(s.skip(1).skip(k) =~= s.skip(k + 1));
        assert forall|j: int| 0 <= j < k + 1 implies is_white(#[trigger] s[j]) by {
            if j > 0 {
                assert(s[j] == s.skip(1)[j - 1]);
            }
        }
        k + 1
    } else {
        assert(s.skip(0) =~= s);
        0
    }
}

/// Trimming the end takes away white space only, and all of it.
pub proof fn law_trimmed_end(s: Seq<char>) -> (i: int)
    ensures
        0 <= i <= s.len(),
        trimmed_end(s) == s.take(i),
        forall|j: int| i <= j < s.len() ==> is_white(#[trigger] s[j]),
        i > 0 ==> !is_white(s[i - 1]),
    decreases s.len(),
{
    if s.len() > 0 && is_white(s.last()) {
        let k = law_trimmed_end(s.drop_last());
        assert(s.drop_last().take(k) =~= s.take(k));
        assert forall|j: int| k <= j < s.len() implies is_white(#[trigger] s[j]) by {
            if j < s.len() - 1 {
                assert(s[j] == s.drop_last()[j]);
            }
        }
        k
    } else {
        assert(s.take(s.len() as int) =~= s);
        s.len() as int
    }
}

/// A trimmed text has no white space at its ends, and trimming it again changes
/// nothing.
pub proof fn law_trimmed(s: Seq<char>)
    ensures
        trimmed(s).len() > 0 ==> !is_white(trimmed(s)[0]) && !is_white(trimmed(s).last()),
        trimmed(trimmed(s)) == trimmed(s),
        trimmed(s).len() == 0 <==> forall|i: int| 0 <= i < s.len() ==> is_white(#[trigger] s[i]),
{
    let i = law_trimmed_start(s);
    let a = trimmed_start(s);
    let j = law_trimmed_end(a);
    let t = trimmed(s);
    if t.len() > 0 {
        assert(t[0] == s[i]);
        assert(t.last() == a[j - 1]);
    }
    let k = law_trimmed_start(t);
    assert(k == 0);
    assert(t.skip(0) =~= t);
    let l = law_trimmed_end(t);
    assert(l == t.len());
    assert(t.take(l) =~= t);
    if t.len() == 0 && i < s.len() {
        assert(a[0] == s[i]);
        assert(is_white(a[0]));
    }
    if t.len() > 0 {
        assert(!is_white(s[i]));
    }
}

/// Some texts one after the other, with a character between each and the next.
pub open spec fn joined(parts: Seq<Seq<char>>, c: char) -> Seq<char>
    decreases parts.len(),
{
    if parts.len() == 0 {
        Seq::empty()
    } else if parts.len() == 1 {
        parts[0]
    } else {
        joined(parts.drop_last(), c).push(c) + parts.last()
    }
}

/// The parts of a text hold no separator, and joined by it they are the text.
pub proof fn law_pieces_join(s: Seq<char>, c: char)
    ensures
        joined(pieces_of(s, c), c) == s,
        forall|i: int| 0 <= i < pieces_of(s, c).len() ==> has_no(#[trigger] pieces_of(s, c)[i], c),
    decreases s.len(),
{
    let parts = pieces_of(s, c);
    if s.len() == 0 {
        assert(parts =~= seq![Seq::<char>::empty()]);
        assert(joined(parts, c) =~= s);
    } else {
        law_pieces_join(s.drop_last(), c);
        lemma_pieces_not_empty(s.drop_last(), at_char(c));
        let rest = pieces_of(s.drop_last(), c);
        if s.last() == c {
            assert(parts == rest.push(Seq::<char>::empty()));
            assert(parts.drop_last() =~= rest);
            assert(joined(parts, c) =~= s.drop_last().push(c));
        } else {
            assert(parts == rest.drop_last().push(rest.last().push(s.last())));
            assert(parts.drop_last() =~= rest.drop_last());
            assert(parts.last() == rest.last().push(s.last()));
            assert(has_no(rest[rest.len() - 1], c));
            assert forall|i: int| 0 <= i < parts.len() implies has_no(#[trigger] parts[i], c) by {
                if i < parts.len() - 1 {
                    assert(parts[i] == rest[i]);
                }
            }
            if parts.len() == 1 {
                assert(joined(parts, c) =~= joined(rest, c).push(s.last()));
            } else {
                assert(joined(parts, c) =~= joined(rest, c).push(s.last()));
            }
        }
        assert(s.drop_last().push(s.last()) =~= s);
    }
}

/// The words on both sides of a white character are the words of the whole.
pub proof fn law_words_cut(a: Seq<char>, c: char, b: Seq<char>)
    requires
        is_white(c),
    ensures
        words_of(a.push(c) + b) == words_of(a) + words_of(b),
{
    lemma_pieces_cut(a, c, b, at_white());
    let keep = |w: Seq<char>| w.len() > 0;
    let x = pieces_by(a, at_white());
    let y = pieces_by(b, at_white());
    Seq::filter_distributes_over_add(x, y, keep);
}

/// A text without white space is its only word; the empty text has none.
pub proof fn law_one_word(s: Seq<char>)
    requires
        forall|i: int| 0 <= i < s.len() ==> !is_white(#[trigger] s[i]),
    ensures
        words_of(s) == (if s.len() > 0 {
            seq![s]
        } else {
            Seq::<Seq<char>>::empty()
        }),
{
    lemma_pieces_plain(s, at_white());
    reveal(Seq::filter);
    let keep = |w: Seq<char>| w.len() > 0;
    let parts = seq![s];
    assert(parts.drop_last() =~= Seq::<Seq<char>>::empty());
    assert(parts.drop_last().filter(keep) =~= Seq::<Seq<char>>::empty());
    assert(parts.last() == s);
    assert(words_of(s) =~= (if s.len() > 0 {
        seq![s]
    } else {
        Seq::<Seq<char>>::empty()
    }));
}

/// A line that ends in a carriage return and a line feed is read without both.
pub proof fn law_lines_with_return(line: Seq<char>, rest: Seq<char>)
    requires
        has_no(line, '\n'),
    ensures
        lines_of(line.push('\r').push('\n') + rest) == seq![line] + lines_of(rest),
{
    let sep = at_char('\n');
    let full = line.push('\r');
    assert forall|i: int| 0 <= i < full.len() implies !sep(#[trigger] full[i]) by {
        if i < line.len() {
            assert(full[i] == line[i]);
        }
    }
    lemma_pieces_plain(full, sep);
    lemma_pieces_cut(full, '\n', rest, sep);
    lemma_pieces_not_empty(rest, sep);
    let parts = pieces_of(full.push('\n') + rest, '\n');
    let tail = pieces_of(rest, '\n');
    let f = |l: Seq<char>| without_return(l);
    assert(full.drop_last() =~= line);
    assert(parts == seq![full] + tail);
    assert(parts.last() == tail.last());
    assert(parts.drop_last() =~= seq![full] + tail.drop_last());
    assert(parts.drop_last().map_values(f) =~= seq![line] + tail.drop_last().map_values(f));
    assert(lines_of(full.push('\n') + rest) =~= seq![line] + lines_of(rest));
}

/// What follows the last line end is a line as it stands, unless it is empty.
pub proof fn law_last_line(line: Seq<char>)
    requires
        has_no(line, '\n'),
    ensures
        lines_of(line) == (if line.len() > 0 {
            seq![line]
        } else {
            Seq::<Seq<char>>::empty()
        }),
{
    lemma_pieces_plain(line, at_char('\n'));
    assert(pieces_of(line, '\n').drop_last() =~= Seq::<Seq<char>>::empty());
    assert(lines_of(line) =~= (if line.len() > 0 {
        seq![line]
    } else {
        Seq::<Seq<char>>::empty()
    }));
}

/// A text is cut at the first of the characters: nothing but it is lost, and the
/// part before it has none. A text that has none is not cut.
pub proof fn law_cut_once(s: Seq<char>, c: char)
    ensures
        match cut_once(s, c) {
            Some((a, b)) => s == a.push(c) + b && has_no(a, c),
            None => has_no(s, c),
        },
{
    let i = lemma_first_place(s, c);
    if i < s.len() {
        let a = s.take(i);
        assert(s =~= a.push(c) + s.skip(i + 1));
    }
}

proof fn lemma_first_place(s: Seq<char>, c: char) -> (i: int)
    ensures
        i == first_at(s, c),
        0 <= i <= s.len(),
        forall|j: int| 0 <= j < i ==> #[trigger] s[j] != c,
        i < s.len() ==> s[i] == c,
    decreases s.len(),
{
    if s.len() == 0 || s[0] == c {
        0
    } else {
        let k = lemma_first_place(s.skip(1), c);
        assert forall|j: int| 0 <= j < k + 1 implies #[trigger] s[j] != c by {
            if j > 0 {
                assert(s[j] == s.skip(1)[j - 1]);
            }
        }
        k + 1
    }
}

pub open spec fn all_white(s: Seq<char>) -> bool {
    forall|i: int| 0 <= i < s.len() ==> is_white(#[trigger] s[i])
}

/// White space around a text that has none at its ends is what trimming takes
/// away.
pub proof fn law_trimmed_padded(left: Seq<char>, s: Seq<char>, right: Seq<char>)
    requires
        all_white(left),
        all_white(right),
        s.len() > 0,
        !is_white(s[0]),
        !is_white(s.last()),
    ensures
        trimmed(left + s + right) == s,
        trimmed_end(s + right) == s,
        trimmed_end(left + s + right) == left + s,
{
    let t = left + s + right;
    let i = law_trimmed_start(t);
    if i < left.len() {
        assert(t[i] == left[i]);
        assert(is_white(left[i]));
    }
    if i > left.len() {
        assert(t[left.len() as int] == s[0]);
        assert(is_white(t[left.len() as int]));
    }
    assert(t.skip(i) =~= s + right);
    lemma_end_padded(s, right);
    let u = left + s;
    assert(u.last() == s.last());
    lemma_end_padded(u, right);
}

proof fn lemma_end_padded(s: Seq<char>, right: Seq<char>)
    requires
        all_white(right),
        s.len() > 0,
        !is_white(s.last()),
    ensures
        trimmed_end(s + right) == s,
{
    let t = s + right;
    let j = law_trimmed_end(t);
    if j > s.len() {
        assert(t[j - 1] == right[j - 1 - s.len()]);
        assert(is_white(right[j - 1 - s.len()]));
    }
    if j < s.len() {
        assert(t[s.len() - 1] == s.last());
        assert(is_white(t[s.len() - 1]));
    }
    assert(t.take(j) =~= s);
}

/// There are 25 characters of white space.
pub proof fn law_white_characters(c: char)
    ensures
        is_white(c) <==> white_characters().contains(c),
        white_characters().len() == 25,
{
    let w = white_characters();
    if is_white(c) {
        let n = c as u32;
        if n <= 0xd {
            assert(w[n - 0x9] == c);
        } else if n == 0x20 {
            assert(w[5] == c);
        } else if n == 0x85 {
            assert(w[6] == c);
        } else if n == 0xa0 {
            assert(w[7] == c);
        } else if n == 0x1680 {
            assert(w[8] == c);
        } else if n <= 0x200a {
            assert(w[n - 0x2000 + 9] == c);
        } else if n == 0x2028 {
            assert(w[20] == c);
        } else if n == 0x2029 {
            assert(w[21] == c);
        } else if n == 0x202f {
            assert(w[22] == c);
        } else if n == 0x205f {
            assert(w[23] == c);
        } else {
            assert(w[24] == c);
        }
    }
}

/// The characters of white space.
pub open spec fn white_characters() -> Seq<char> {
    seq![
        '\t',
        '\n',
        '\u{b}',
        '\u{c}',
        '\r',
        ' ',
        '\u{85}',
        '\u{a0}',
        '\u{1680}',
        '\u{2000}',
        '\u{2001}',
        '\u{2002}',
        '\u{2003}',
        '\u{2004}',
        '\u{2005}',
        '\u{2006}',
        '\u{2007}',
        '\u{2008}',
        '\u{2009}',
        '\u{200a}',
        '\u{2028}',
        '\u{2029}',
        '\u{202f}',
        '\u{205f}',
        '\u{3000}',
    ]
}

} // verus!
