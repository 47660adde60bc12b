//! Sorted lists.
use crate::numbers::{decimal, to_decimal};
use crate::power::download::{counts, distinct_ids, key_at};
use crate::text::{
    chars_of, concat, has_no, lemma_lines_cons, lemma_lines_empty, lines_of, same_text, texts,
};
use vstd::prelude::*;

verus! {

// ---------------------------------------------------------------------------
// The order of texts
// ---------------------------------------------------------------------------

/// The order of a dictionary, by the codes of the characters.
pub open spec fn text_le(a: Seq<char>, b: Seq<char>) -> bool
    decreases a.len(),
{
    if a.len() == 0 {
        true
    } else if b.len() == 0 {
        false
    } else if a[0] != b[0] {
        a[0] < b[0]
    } else {
        text_le(a.skip(1), b.skip(1))
    }
}

/// The order without equal texts.
pub open spec fn text_lt(a: Seq<char>, b: Seq<char>) -> bool {
    text_le(a, b) && a != b
}

pub proof fn lemma_text_le_reflexive(a: Seq<char>)
    ensures
        text_le(a, a),
    decreases a.len(),
{
    if a.len() > 0 {
        lemma_text_le_reflexive(a.skip(1));
    }
}

pub proof fn lemma_text_le_total(a: Seq<char>, b: Seq<char>)
    ensures
        text_le(a, b) || text_le(b, a),
    decreases a.len(),
{
    if a.len() > 0 && b.len() > 0 && a[0] == b[0] {
        lemma_text_le_total(a.skip(1), b.skip(1));
    }
}

pub proof fn lemma_text_le_antisymmetric(a: Seq<char>, b: Seq<char>)
    requires
        text_le(a, b),
        text_le(b, a),
    ensures
        a == b,
    decreases a.len(),
{
    if a.len() > 0 && b.len() > 0 {
        lemma_text_le_antisymmetric(a.skip(1), b.skip(1));
        assert(a =~= seq![a[0]] + a.skip(1));
        assert(b =~= seq![b[0]] + b.skip(1));
    } else {
        assert(a =~= b);
    }
}

pub proof fn lemma_text_le_transitive(a: Seq<char>, b: Seq<char>, c: Seq<char>)
    requires
        text_le(a, b),
        text_le(b, c),
    ensures
        text_le(a, c),
    decreases a.len(),
{
    if a.len() > 0 && a[0] == b[0] && b[0] == c[0] {
        lemma_text_le_transitive(a.skip(1), b.skip(1), c.skip(1));
    }
}

/// Whether `a` comes before `b` or equals it.
pub fn is_text_le(a: &str, b: &str) -> (r: bool)
    ensures
        r == text_le(a@, b@),
{
    let v: Vec<char> = chars_of(a);
    let w: Vec<char> = chars_of(b);
    let mut i: usize = 0;
    assert(v@.skip(0) =~= v@);
    assert(w@.skip(0) =~= w@);
    while i < v.len() && i < w.len() && v[i] == w[i]
        invariant
            i <= v@.len(),
            i <= w@.len(),
            text_le(v@, w@) == text_le(v@.skip(i as int), w@.skip(i as int)),
        decreases v@.len() - i,
    {
        assert(v@.skip(i as int).skip(1) =~= v@.skip(i + 1));
        assert(w@.skip(i as int).skip(1) =~= w@.skip(i + 1));
        i = i + 1;
    }
    if i >= v.len() {
        true
    } else if i >= w.len() {
        false
    } else {
        v[i] < w[i]
    }
}

// ---------------------------------------------------------------------------
// Sorting
// ---------------------------------------------------------------------------

/// Whether `s` has the texts of `t`, each as often, in their order.
pub open spec fn is_sorted_version(s: Seq<Seq<char>>, t: Seq<Seq<char>>) -> bool {
    &&& s.to_multiset() == t.to_multiset()
    &&& forall|i: int, j: int|
        0 <= i <= j < s.len() ==> text_le(#[trigger] s[i], #[trigger] s[j])
}

/// `Itertools::sorted` on texts: the same texts in ascending order. Texts are
/// ordered by their bytes, which is the order of the codes of the characters.
#[verifier::external_body]
pub(crate) fn sorted(names: Vec<String>) -> (r: Vec<String>)
    ensures
        is_sorted_version(texts(r@), texts(names@)),
{
    itertools::Itertools::sorted(names.into_iter()).collect()
}

/// Each text on a line of its own, behind a dash.
pub open spec fn bullets(names: Seq<Seq<char>>) -> Seq<char>
    decreases names.len(),
{
    if names.len() == 0 {
        Seq::empty()
    } else {
        bullets(names.drop_last()) + "- "@ + names.last() + "\n"@
    }
}

/// Each text on a line of its own.
pub open spec fn rows(names: Seq<Seq<char>>) -> Seq<char>
    decreases names.len(),
{
    if names.len() == 0 {
        Seq::empty()
    } else {
        rows(names.drop_last()) + names.last() + "\n"@
    }
}

/// A sorted list under a title and a blank line.
pub fn sorted_list(title: &str, names: Vec<String>) -> (r: String)
    ensures
        exists|s: Seq<Seq<char>>|
            #[trigger] is_sorted_version(s, texts(names@)) && r@ == title@ + ":\n\n"@ + bullets(s),
{
    let sorted_names: Vec<String> = sorted(names);
    let mut r: String = concat(title, ":\n\n");
    let ghost head = r@;
    assert(texts(sorted_names@).take(0) =~= Seq::<Seq<char>>::empty());
    assert(r@ =~= head + bullets(texts(sorted_names@).take(0)));
    for i in 0..sorted_names.len()
        invariant
            r@ == head + bullets(texts(sorted_names@).take(i as int)),
    {
        assert(texts(sorted_names@).take(i + 1).drop_last() =~= texts(sorted_names@).take(
            i as int,
        ));
        assert(texts(sorted_names@).take(i + 1).last() == sorted_names@[i as int]@);
        r.append("- ");
        r.append(sorted_names[i].as_str());
        r.append("\n");
        assert(r@ =~= head + bullets(texts(sorted_names@).take(i + 1)));
    }
    assert(texts(sorted_names@).take(sorted_names@.len() as int) =~= texts(sorted_names@));
    r
}

/// A list as it comes, under a title and a blank line.
pub fn plain_list(title: &str, names: &Vec<String>) -> (r: String)
    ensures
        r@ == title@ + ":\n\n"@ + rows(texts(names@)),
{
    let mut r: String = concat(title, ":\n\n");
    let ghost head = r@;
    assert(texts(names@).take(0) =~= Seq::<Seq<char>>::empty());
    assert(r@ =~= head + rows(texts(names@).take(0)));
    for i in 0..names.len()
        invariant
            r@ == head + rows(texts(names@).take(i as int)),
    {
        assert(texts(names@).take(i + 1).drop_last() =~= texts(names@).take(i as int));
        assert(texts(names@).take(i + 1).last() == names@[i as int]@);
        r.append(names[i].as_str());
        r.append("\n");
        assert(r@ =~= head + rows(texts(names@).take(i + 1)));
    }
    assert(texts(names@).take(names@.len() as int) =~= texts(names@));
    r
}

// ---------------------------------------------------------------------------
// Handles
// ---------------------------------------------------------------------------

/// Each identifier with its count on a line of its own.
pub open spec fn count_rows(ids: Seq<Seq<char>>, m: Map<Seq<char>, u32>) -> Seq<char>
    decreases ids.len(),
{
    if ids.len() == 0 {
        Seq::empty()
    } else {
        count_rows(ids.drop_last(), m) + ids.last() + ": "@ + decimal(m[ids.last()] as nat) + "\n"@
    }
}

/// The identifiers of a table.
pub open spec fn ids_of(handles: Seq<(String, u32)>) -> Seq<Seq<char>> {
    handles.map_values(|h: (String, u32)| h.0@)
}

fn find_count(handles: &Vec<(String, u32)>, id: &str) -> (r: u32)
    requires
        ids_of(handles@).contains(id@),
        distinct_ids(handles@),
    ensures
        r == counts(handles@)[id@],
{
    let mut i: usize = 0;
    let ghost k = choose|k: int| 0 <= k < ids_of(handles@).len() && ids_of(handles@)[k] == id@;
    assert(ids_of(handles@)[k] == handles@[k].0@);
    while i < handles.len() && !same_text(handles[i].0.as_str(), id)
        invariant
            i <= k < handles@.len(),
            handles@[k].0@ == id@,
        decreases handles@.len() - i,
    {
        i = i + 1;
    }
    proof {
        assert(key_at(handles@, i as int, id@));
        let j = choose|j: int| key_at(handles@, j, id@);
        assert(key_at(handles@, j, id@));
        if i < j {
            assert(handles@[i as int].0@ != handles@[j].0@);
        }
        if j < i {
            assert(handles@[j].0@ != handles@[i as int].0@);
        }
    }
    handles[i].1
}

/// The handles, sorted by their identifiers, with their counts. Each identifier
/// stands once in the table.
pub fn handle_list(handles: &Vec<(String, u32)>) -> (r: String)
    requires
        distinct_ids(handles@),
    ensures
        exists|s: Seq<Seq<char>>|
            #[trigger] is_sorted_version(s, ids_of(handles@)) && r@ == count_rows(
                s,
                counts(handles@),
            ),
{
    let mut ids: Vec<String> = Vec::new();
    for i in 0..handles.len()
        invariant
            texts(ids@) == ids_of(handles@).take(i as int),
    {
        let ghost before = ids@;
        ids.push(handles[i].0.clone());
        assert(texts(ids@) =~= texts(before).push(handles@[i as int].0@));
        assert(ids_of(handles@).take(i + 1) =~= ids_of(handles@).take(i as int).push(
            handles@[i as int].0@,
        ));
    }
    assert(ids_of(handles@).take(handles@.len() as int) =~= ids_of(handles@));
    let sorted_ids: Vec<String> = sorted(ids);
    let ghost s = texts(sorted_ids@);
    let mut r: String = String::new();
    assert(s.take(0) =~= Seq::<Seq<char>>::empty());
    assert(r@ =~= count_rows(s.take(0), counts(handles@)));
    for i in 0..sorted_ids.len()
        invariant
            distinct_ids(handles@),
            s == texts(sorted_ids@),
            s.to_multiset() == ids_of(handles@).to_multiset(),
            r@ == count_rows(s.take(i as int), counts(handles@)),
    {
        assert(s.take(i + 1).drop_last() =~= s.take(i as int));
        assert(s[i as int] == sorted_ids@[i as int]@);
        assert(ids_of(handles@).contains(s[i as int])) by {
            broadcast use vstd::seq_lib::group_to_multiset_ensures;

            assert(s.contains(s[i as int]));
            assert(s.to_multiset().contains(s[i as int]));
        }
        let count: u32 = find_count(handles, sorted_ids[i].as_str());
        r.append(sorted_ids[i].as_str());
        r.append(": ");
        r.append(to_decimal(count as u64).as_str());
        r.append("\n");
        assert(r@ =~= count_rows(s.take(i + 1), counts(handles@)));
    }
    assert(s.take(sorted_ids@.len() as int) =~= s);
    r
}

// ---------------------------------------------------------------------------
// Laws
// ---------------------------------------------------------------------------

/// The first place where two texts differ decides their order; a text comes
/// before all that start with it.
pub proof fn law_order_of_texts(a: Seq<char>, b: Seq<char>, i: int)
    requires
        0 <= i <= a.len(),
        i <= b.len(),
        a.take(i) == b.take(i),
    ensures
        i == a.len() ==> text_le(a, b),
        i == b.len() && i < a.len() ==> !text_le(a, b),
        i < a.len() && i < b.len() && a[i] != b[i] ==> (text_le(a, b) <==> a[i] < b[i]),
    decreases i,
{
    if i > 0 {
        assert(a[0] == a.take(i)[0]);
        assert(b[0] == b.take(i)[0]);
        assert(a.skip(1).take(i - 1) =~= a.take(i).skip(1));
        assert(b.skip(1).take(i - 1) =~= b.take(i).skip(1));
        if i < a.len() && i < b.len() {
            assert(a.skip(1)[i - 1] == a[i]);
            assert(b.skip(1)[i - 1] == b[i]);
        }
        law_order_of_texts(a.skip(1), b.skip(1), i - 1);
    }
}

/// Whether a text can be one line: it has no line feed, and no carriage return
/// at its end.
pub open spec fn is_line(s: Seq<char>) -> bool {
    has_no(s, '\n') && (s.len() > 0 ==> s.last() != '\r')
}

proof fn lemma_rows_cons(names: Seq<Seq<char>>)
    requires
        names.len() > 0,
    ensures
        rows(names) == names[0].push('\n') + rows(names.skip(1)),
    decreases names.len(),
{
    reveal_strlit("\n");
    if names.len() == 1 {
        assert(names.drop_last() =~= Seq::<Seq<char>>::empty());
        assert(names.skip(1) =~= Seq::<Seq<char>>::empty());
        assert(rows(names.drop_last()) =~= Seq::<char>::empty());
        assert(rows(names.skip(1)) =~= Seq::<char>::empty());
        assert(rows(names) =~= names[0].push('\n') + rows(names.skip(1)));
    } else {
        lemma_rows_cons(names.drop_last());
        assert(names.drop_last().skip(1) =~= names.skip(1).drop_last());
        assert(names.skip(1).last() == names.last());
        assert(names.drop_last()[0] == names[0]);
        assert(rows(names) =~= names[0].push('\n') + rows(names.skip(1)));
    }
}

/// The lines that are printed of a list are the texts of the list, in order.
pub proof fn law_rows_are_lines(names: Seq<Seq<char>>)
    requires
        forall|i: int| 0 <= i < names.len() ==> is_line(#[trigger] names[i]),
    ensures
        lines_of(rows(names)) == names,
    decreases names.len(),
{
    if names.len() == 0 {
        lemma_lines_empty();
        assert(lines_of(rows(names)) =~= names);
    } else {
        let t = names.skip(1);
        assert forall|i: int| 0 <= i < t.len() implies is_line(#[trigger] t[i]) by {
            assert(t[i] == names[i + 1]);
        }
        law_rows_are_lines(t);
        lemma_rows_cons(names);
        assert(is_line(names[0]));
        lemma_lines_cons(names[0], rows(t));
        assert(seq![names[0]] + t =~= names);
    }
}

/// A list with dashes is the list of the texts, each behind a dash and a blank.
pub proof fn law_bullets_are_rows(names: Seq<Seq<char>>)
    ensures
        bullets(names) == rows(names.map_values(|n: Seq<char>| "- "@ + n)),
    decreases names.len(),
{
    let f = |n: Seq<char>| "- "@ + n;
    let m = names.map_values(f);
    if names.len() > 0 {
        law_bullets_are_rows(names.drop_last());
        assert(names.drop_last().map_values(f) =~= m.drop_last());
        assert(m.last() == "- "@ + names.last());
        assert(bullets(names) =~= rows(m));
    }
}

/// The list of handles has one row for each identifier, with its count behind a
/// colon.
pub proof fn law_counts_are_rows(ids: Seq<Seq<char>>, m: Map<Seq<char>, u32>)
    ensures
        count_rows(ids, m) == rows(
            ids.map_values(|id: Seq<char>| id + ": "@ + decimal(m[id] as nat)),
        ),
    decreases ids.len(),
{
    let f = |id: Seq<char>| id + ": "@ + decimal(m[id] as nat);
    let r = ids.map_values(f);
    if ids.len() > 0 {
        law_counts_are_rows(ids.drop_last(), m);
        assert(ids.drop_last().map_values(f) =~= r.drop_last());
        assert(r.last() == f(ids.last()));
        assert(count_rows(ids, m) =~= rows(r));
    }
}

} // verus!
