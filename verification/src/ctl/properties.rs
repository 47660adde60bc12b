//! All properties of the manager.
use crate::ctl::lists::{
    is_text_le, lemma_text_le_antisymmetric, lemma_text_le_reflexive, lemma_text_le_total,
    lemma_text_le_transitive, rows, text_le, text_lt,
};
use crate::text::{chars_of, concat, has_prefix, same_text, starts_with, text_of, texts};
use vstd::prelude::*;

verus! {

/// An error of `zbus_xml`.
#[verifier::external_type_specification]
#[verifier::external_body]
pub struct ExXmlError(zbus_xml::Error);

/// The names of the interfaces that an introspection document describes, in
/// their order, if it is one.
pub uninterp spec fn introspected(xml: Seq<char>) -> Option<Seq<Seq<char>>>;

/// `Node::from_reader` and the names of `Node::interfaces`: the interfaces that
/// the document describes. The grammar is not stated.
#[verifier::external_body]
pub(crate) fn interface_names(xml: &str) -> (r: Result<Vec<String>, zbus_xml::Error>)
    ensures
        match r {
            Ok(names) => introspected(xml@) == Some(texts(names@)),
            Err(_) => introspected(xml@) is None,
        },
{
    let node = zbus_xml::Node::from_reader(xml.as_bytes())?;
    Ok(node.interfaces().iter().map(|i| i.name().to_string()).collect())
}

/// What the names of the manager's interfaces start with.
pub const INTERFACE_PREFIX: &'static str = "com.steampowered.SteamOSManager1.";

/// The short name of one of the manager's interfaces.
pub open spec fn short_name(name: Seq<char>) -> Option<Seq<char>> {
    if has_prefix(name, INTERFACE_PREFIX@) {
        Some(name.skip(INTERFACE_PREFIX@.len() as int))
    } else {
        None
    }
}

/// One of the manager's interfaces: its name and its short name.
#[derive(Debug, PartialEq, Eq)]
pub struct ManagerInterface {
    pub name: String,
    pub short_name: String,
}

/// The manager's interfaces among some names, in their order.
pub open spec fn manager_interfaces(names: Seq<Seq<char>>) -> Seq<(Seq<char>, Seq<char>)>
    decreases names.len(),
{
    if names.len() == 0 {
        Seq::empty()
    } else {
        let before = manager_interfaces(names.drop_last());
        match short_name(names.last()) {
            Some(short) => before.push((names.last(), short)),
            None => before,
        }
    }
}

pub open spec fn interface_views(v: Seq<ManagerInterface>) -> Seq<(Seq<char>, Seq<char>)> {
    v.map_values(|i: ManagerInterface| (i.name@, i.short_name@))
}

fn shorten(name: &str) -> (r: Option<String>)
    ensures
        match r {
            Some(s) => short_name(name@) == Some(s@),
            None => short_name(name@) is None,
        },
{
    if starts_with(name, INTERFACE_PREFIX) {
        let v: Vec<char> = chars_of(name);
        let n: usize = chars_of(INTERFACE_PREFIX).len();
        assert(v@.subrange(n as int, v@.len() as int) =~= name@.skip(n as int));
        Some(text_of(&v, n, v.len()))
    } else {
        None
    }
}

/// The manager's interfaces among some names.
pub fn select_interfaces(names: &Vec<String>) -> (r: Vec<ManagerInterface>)
    ensures
        interface_views(r@) == manager_interfaces(texts(names@)),
{
    let mut r: Vec<ManagerInterface> = Vec::new();
    assert(texts(names@).take(0) =~= Seq::<Seq<char>>::empty());
    assert(interface_views(r@) =~= Seq::<(Seq<char>, Seq<char>)>::empty());
    for i in 0..names.len()
        invariant
            interface_views(r@) == manager_interfaces(texts(names@).take(i as int)),
    {
        assert(texts(names@).take(i + 1).drop_last() =~= texts(names@).take(i as int));
        assert(texts(names@).take(i + 1).last() == names@[i as int]@);
        match shorten(names[i].as_str()) {
            Some(short) => {
                let ghost before = r@;
                r.push(ManagerInterface { name: names[i].clone(), short_name: short });
                assert(interface_views(r@) =~= interface_views(before).push(
                    (names@[i as int]@, short@),
                ));
            },
            None => {},
        }
    }
    assert(texts(names@).take(names@.len() as int) =~= texts(names@));
    r
}

/// The manager's interfaces in an introspection document; `None` if it is no
/// such document.
pub fn introspect(xml: &str) -> (r: Option<Vec<ManagerInterface>>)
    ensures
        match introspected(xml@) {
            Some(names) => r matches Some(v) && interface_views(v@) == manager_interfaces(names),
            None => r is None,
        },
{
    match interface_names(xml) {
        Ok(names) => Some(select_interfaces(&names)),
        Err(_) => None,
    }
}

// ---------------------------------------------------------------------------
// The table of properties
// ---------------------------------------------------------------------------

/// A property with the text of its value.
#[derive(Debug, PartialEq, Eq)]
pub struct Property {
    pub key: String,
    pub value: String,
}

/// The key of a property of an interface.
pub fn property_key(interface: &str, property: &str) -> (r: String)
    ensures
        r@ == interface@ + "."@ + property@,
{
    concat(concat(interface, ".").as_str(), property)
}

/// The values of the properties, by their keys; a later one goes before an
/// earlier one.
pub open spec fn values_of(v: Seq<Property>) -> Map<Seq<char>, Seq<char>>
    decreases v.len(),
{
    if v.len() == 0 {
        Map::empty()
    } else {
        values_of(v.drop_last()).insert(v.last().key@, v.last().value@)
    }
}

/// Keys in ascending order, none twice.
pub open spec fn is_table(v: Seq<Property>) -> bool {
    forall|i: int, j: int|
        0 <= i < j < v.len() ==> text_lt((#[trigger] v[i]).key@, (#[trigger] v[j]).key@)
}

/// What the table holds is what it lists.
pub proof fn lemma_values_of(v: Seq<Property>, k: Seq<char>)
    requires
        is_table(v),
    ensures
        values_of(v).contains_key(k) <==> exists|i: int|
            0 <= i < v.len() && (#[trigger] v[i]).key@ == k,
        forall|i: int|
            0 <= i < v.len() && (#[trigger] v[i]).key@ == k ==> values_of(v)[k] == v[i].value@,
    decreases v.len(),
{
    if v.len() > 0 {
        let w = v.drop_last();
        assert(is_table(w)) by {
            assert forall|i: int, j: int| 0 <= i < j < w.len() implies text_lt(
                (#[trigger] w[i]).key@,
                (#[trigger] w[j]).key@,
            ) by {
                assert(text_lt(v[i].key@, v[j].key@));
            }
        }
        lemma_values_of(w, k);
        let n = v.len() - 1;
        assert forall|i: int| 0 <= i < v.len() && (#[trigger] v[i]).key@ == k implies values_of(
            v,
        )[k] == v[i].value@ by {
            if i < n {
                assert(w[i].key@ == k);
                assert(text_lt(v[i].key@, v[n].key@));
            }
        }
        if values_of(v).contains_key(k) {
            if k == v[n].key@ {
                assert(v[n].key@ == k);
            } else {
                let i = choose|i: int| 0 <= i < w.len() && (#[trigger] w[i]).key@ == k;
                assert(v[i].key@ == k);
            }
        }
        if exists|i: int| 0 <= i < v.len() && (#[trigger] v[i]).key@ == k {
            let i = choose|i: int| 0 <= i < v.len() && (#[trigger] v[i]).key@ == k;
            if i < n {
                assert(w[i].key@ == k);
            }
        }
    }
}

proof fn lemma_equal_values(v: Seq<Property>, m: Map<Seq<char>, Seq<char>>)
    requires
        is_table(v),
        forall|i: int|
            0 <= i < v.len() ==> m.contains_key((#[trigger] v[i]).key@) && m[v[i].key@]
                == v[i].value@,
        forall|k: Seq<char>| #[trigger]
            m.contains_key(k) ==> exists|i: int| 0 <= i < v.len() && (#[trigger] v[i]).key@ == k,
    ensures
        values_of(v) == m,
{
    assert forall|k: Seq<char>| #[trigger] values_of(v).contains_key(k) == m.contains_key(k) && (
    m.contains_key(k) ==> values_of(v)[k] == m[k]) by {
        lemma_values_of(v, k);
        if m.contains_key(k) {
            let i = choose|i: int| 0 <= i < v.len() && (#[trigger] v[i]).key@ == k;
            assert(values_of(v)[k] == v[i].value@);
        }
    }
    assert(values_of(v) =~= m);
}

/// Puts a property into the table.
fn insert_property(table: &mut Vec<Property>, property: Property)
    requires
        is_table(old(table)@),
    ensures
        is_table(final(table)@),
        values_of(final(table)@) == values_of(old(table)@).insert(property.key@, property.value@),
{
    let ghost before = table@;
    let ghost key = property.key@;
    let ghost value = property.value@;
    let ghost m = values_of(before).insert(key, value);
    let mut at: usize = 0;
    while at < table.len() && !is_text_le(property.key.as_str(), table[at].key.as_str())
        invariant
            at <= table@.len(),
            table@ == before,
            property.key@ == key,
            forall|j: int| 0 <= j < at ==> !text_le(key, (#[trigger] before[j]).key@),
        decreases table@.len() - at,
    {
        at = at + 1;
    }
    assert forall|j: int| 0 <= j < at implies text_lt((#[trigger] before[j]).key@, key) by {
        lemma_text_le_total(key, before[j].key@);
        lemma_text_le_reflexive(key);
    }
    if at < table.len() && same_text(table[at].key.as_str(), property.key.as_str()) {
        table.set(at, property);
        let ghost after = table@;
        assert(is_table(after)) by {
            assert forall|i: int, j: int| 0 <= i < j < after.len() implies text_lt(
                (#[trigger] after[i]).key@,
                (#[trigger] after[j]).key@,
            ) by {
                assert(text_lt(before[i].key@, before[j].key@));
            }
        }
        assert forall|i: int| 0 <= i < after.len() implies m.contains_key(
            (#[trigger] after[i]).key@,
        ) && m[after[i].key@] == after[i].value@ by {
            lemma_values_of(before, before[i].key@);
            assert(before[i].key@ == after[i].key@);
            if i != at {
                if i < at {
                    assert(text_lt(before[i].key@, before[at as int].key@));
                } else {
                    assert(text_lt(before[at as int].key@, before[i].key@));
                }
            }
        }
        assert forall|k: Seq<char>| #[trigger] m.contains_key(k) implies exists|i: int|
            0 <= i < after.len() && (#[trigger] after[i]).key@ == k by {
            lemma_values_of(before, k);
            if k == key {
                assert(after[at as int].key@ == k);
            } else {
                let i = choose|i: int| 0 <= i < before.len() && (#[trigger] before[i]).key@ == k;
                assert(after[i].key@ == k);
            }
        }
        proof {
            lemma_equal_values(after, m);
        }
    } else {
        assert forall|j: int| at <= j < before.len() implies text_lt(
            key,
            (#[trigger] before[j]).key@,
        ) by {
            if j > at {
                assert(text_lt(before[at as int].key@, before[j].key@));
                lemma_text_le_transitive(key, before[at as int].key@, before[j].key@);
                if key == before[j].key@ {
                    lemma_text_le_antisymmetric(key, before[at as int].key@);
                }
            }
        }
        table.insert(at, property);
        let ghost after = table@;
        assert(after =~= before.insert(at as int, property));
        assert(is_table(after)) by {
            assert forall|i: int, j: int| 0 <= i < j < after.len() implies text_lt(
                (#[trigger] after[i]).key@,
                (#[trigger] after[j]).key@,
            ) by {
                if j < at {
                    assert(text_lt(before[i].key@, before[j].key@));
                } else if j == at {
                    assert(text_lt(before[i].key@, key));
                } else if i < at {
                    assert(text_lt(before[i].key@, before[j - 1].key@));
                } else if i == at {
                    assert(text_lt(key, before[j - 1].key@));
                } else {
                    assert(text_lt(before[i - 1].key@, before[j - 1].key@));
                }
            }
        }
        assert forall|i: int| 0 <= i < after.len() implies m.contains_key(
            (#[trigger] after[i]).key@,
        ) && m[after[i].key@] == after[i].value@ by {
            if i < at {
                lemma_values_of(before, before[i].key@);
                assert(text_lt(before[i].key@, key));
            } else if i > at {
                lemma_values_of(before, before[i - 1].key@);
                assert(text_lt(key, before[i - 1].key@));
            }
        }
        assert forall|k: Seq<char>| #[trigger] m.contains_key(k) implies exists|i: int|
            0 <= i < after.len() && (#[trigger] after[i]).key@ == k by {
            lemma_values_of(before, k);
            if k == key {
                assert(after[at as int].key@ == k);
            } else {
                let i = choose|i: int| 0 <= i < before.len() && (#[trigger] before[i]).key@ == k;
                if i < at {
                    assert(after[i].key@ == k);
                } else {
                    assert(after[i + 1].key@ == k);
                }
            }
        }
        proof {
            lemma_equal_values(after, m);
        }
    }
}

/// The table of some properties: sorted by their keys, each with its last value.
pub fn collect_properties(properties: Vec<Property>) -> (r: Vec<Property>)
    ensures
        is_table(r@),
        values_of(r@) == values_of(properties@),
{
    let ghost all = properties@;
    let mut properties = properties;
    let mut table: Vec<Property> = Vec::new();
    let mut i: usize = 0;
    let n: usize = properties.len();
    assert(all.take(0) =~= Seq::<Property>::empty());
    while i < n
        invariant
            i <= n,
            n == all.len(),
            properties@ == all,
            is_table(table@),
            values_of(table@) == values_of(all.take(i as int)),
        decreases n - i,
    {
        assert(all.take(i + 1).drop_last() =~= all.take(i as int));
        let property = Property {
            key: properties[i].key.clone(),
            value: properties[i].value.clone(),
        };
        insert_property(&mut table, property);
        i = i + 1;
    }
    assert(all.take(n as int) =~= all);
    table
}

/// Each property of a table on a line of its own.
pub open spec fn property_rows(v: Seq<Property>) -> Seq<char>
    decreases v.len(),
{
    if v.len() == 0 {
        Seq::empty()
    } else {
        property_rows(v.drop_last()) + v.last().key@ + ": "@ + v.last().value@ + "\n"@
    }
}

/// What is printed of some properties.
pub fn get_all_properties(properties: Vec<Property>) -> (r: String)
    ensures
        exists|table: Seq<Property>|
            is_table(table) && values_of(table) == values_of(properties@) && r@
                == #[trigger] property_rows(table),
{
    let table: Vec<Property> = collect_properties(properties);
    let mut r: String = String::new();
    assert(table@.take(0) =~= Seq::<Property>::empty());
    assert(r@ =~= property_rows(table@.take(0)));
    for i in 0..table.len()
        invariant
            r@ == property_rows(table@.take(i as int)),
    {
        assert(table@.take(i + 1).drop_last() =~= table@.take(i as int));
        r.append(table[i].key.as_str());
        r.append(": ");
        r.append(table[i].value.as_str());
        r.append("\n");
        assert(r@ =~= property_rows(table@.take(i + 1)));
    }
    assert(table@.take(table@.len() as int) =~= table@);
    r
}

// ---------------------------------------------------------------------------
// Laws
// ---------------------------------------------------------------------------

/// An interface of the manager is the prefix and its short name.
pub proof fn law_short_names(name: Seq<char>, short: Seq<char>)
    ensures
        short_name(name) == Some(short) <==> name == "com.steampowered.SteamOSManager1."@ + short,
{
    let p = "com.steampowered.SteamOSManager1."@;
    assert((p + short).take(p.len() as int) =~= p);
    assert((p + short).skip(p.len() as int) =~= short);
    if has_prefix(name, p) {
        assert(name =~= p + name.skip(p.len() as int));
    }
}

/// The manager's interfaces are kept, in order, and no others.
pub proof fn law_interfaces_of_manager(names: Seq<Seq<char>>, name: Seq<char>)
    ensures
        short_name(name) is None ==> manager_interfaces(names.push(name)) == manager_interfaces(
            names,
        ),
        short_name(name) matches Some(short) ==> manager_interfaces(names.push(name))
            == manager_interfaces(names).push((name, short)),
        manager_interfaces(Seq::empty()).len() == 0,
{
    assert(names.push(name).drop_last() =~= names);
    assert(names.push(name).last() == name);
}

/// A property has the value that was given last.
pub proof fn law_last_value_counts(v: Seq<Property>, i: int)
    requires
        0 <= i < v.len(),
        forall|j: int| i < j < v.len() ==> (#[trigger] v[j]).key@ != v[i].key@,
    ensures
        values_of(v).contains_key(v[i].key@),
        values_of(v)[v[i].key@] == v[i].value@,
    decreases v.len(),
{
    let w = v.drop_last();
    if i < v.len() - 1 {
        assert(v[v.len() - 1].key@ != v[i].key@);
        assert forall|j: int| i < j < w.len() implies (#[trigger] w[j]).key@ != w[i].key@ by {
            assert(v[j].key@ != v[i].key@);
        }
        law_last_value_counts(w, i);
    }
}

/// The table has one row for each property: its key, and its value behind a
/// colon.
pub proof fn law_properties_are_rows(v: Seq<Property>)
    ensures
        property_rows(v) == rows(v.map_values(|p: Property| p.key@ + ": "@ + p.value@)),
    decreases v.len(),
{
    let f = |p: Property| p.key@ + ": "@ + p.value@;
    let r = v.map_values(f);
    if v.len() > 0 {
        law_properties_are_rows(v.drop_last());
        assert(v.drop_last().map_values(f) =~= r.drop_last());
        assert(r.last() == f(v.last()));
        assert(property_rows(v) =~= rows(r));
    }
}

} // verus!
