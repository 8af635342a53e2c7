//! The actions catalogue: an id-sorted map from action id to export
//! name, serialised as a JSON object inside the leading magic comment.

use vstd::prelude::*;
use crate::actionid::action_id_chars;
use crate::actionid::generate_action_id;
use crate::strutil::lex_lt;
use crate::strutil::str_lt;
use crate::strutil::str_eq;
use std::collections::BTreeMap;

verus! {

/// The view of a list of string pairs.
pub open spec fn pairs_v(s: Seq<(String, String)>) -> Seq<(Seq<char>, Seq<char>)> {
    s.map_values(|p: (String, String)| (p.0@, p.1@))
}

/// The view of a list of strings.
pub open spec fn strs_v(s: Seq<String>) -> Seq<Seq<char>> {
    s.map_values(|x: String| x@)
}

/// Insertion into an id-sorted association list: an equal key replaces
/// the value, a new key keeps the order.
pub open spec fn map_insert(
    entries: Seq<(Seq<char>, Seq<char>)>,
    k: Seq<char>,
    v: Seq<char>,
) -> Seq<(Seq<char>, Seq<char>)>
    decreases entries.len(),
{
    if entries.len() == 0 {
        seq![(k, v)]
    } else if k == entries[0].0 {
        seq![(k, v)] + entries.drop_first()
    } else if lex_lt(k, entries[0].0) {
        seq![(k, v)] + entries
    } else {
        seq![entries[0]] + map_insert(entries.drop_first(), k, v)
    }
}

/// The catalogue of the given export names: each maps its action id to
/// itself, inserted in order, so a later duplicate id wins.
pub open spec fn actions_map_of(
    names: Seq<Seq<char>>,
    salt: Seq<char>,
    file: Seq<char>,
) -> Seq<(Seq<char>, Seq<char>)>
    decreases names.len(),
{
    if names.len() == 0 {
        Seq::empty()
    } else {
        map_insert(
            actions_map_of(names.drop_last(), salt, file),
            action_id_chars(salt, file, names.last()),
            names.last(),
        )
    }
}

/// Strictly ascending keys.
pub open spec fn keys_sorted(entries: Seq<(Seq<char>, Seq<char>)>) -> bool {
    forall|i: int, j: int| 0 <= i < j < entries.len() ==> lex_lt(entries[i].0, entries[j].0)
}

/// Lexicographic order is transitive.
pub proof fn lemma_lex_lt_trans(a: Seq<char>, b: Seq<char>, c: Seq<char>)
    requires
        lex_lt(a, b),
        lex_lt(b, c),
    ensures
        lex_lt(a, c),
    decreases a.len() + b.len() + c.len(),
{
    if b.len() == 0 {
    } else if a.len() == 0 {
        if c.len() == 0 {
        } else {
        }
    } else if c.len() == 0 {
    } else {
        if a[0] != b[0] {
            if b[0] != c[0] {
            } else {
            }
        } else if b[0] != c[0] {
        } else {
            lemma_lex_lt_trans(a.skip(1), b.skip(1), c.skip(1));
        }
    }
}

/// Exactly one of `lex_lt(a, b)`, `a == b`, `lex_lt(b, a)` holds.
pub proof fn lemma_lex_lt_total(a: Seq<char>, b: Seq<char>)
    ensures
        lex_lt(a, b) || lex_lt(b, a) || a == b,
        lex_lt(a, b) ==> !lex_lt(b, a) && a != b,
        lex_lt(b, a) ==> !lex_lt(a, b) && a != b,
    decreases a.len() + b.len(),
{
    if a.len() == 0 && b.len() == 0 {
        assert(a =~= b);
    } else if a.len() == 0 || b.len() == 0 {
    } else if a[0] != b[0] {
    } else {
        lemma_lex_lt_total(a.skip(1), b.skip(1));
        if a.skip(1) == b.skip(1) {
            assert(a =~= b) by {
                assert(forall|i: int| 1 <= i < a.len() ==> a[i] == a.skip(1)[i - 1]);
                assert(forall|i: int| 1 <= i < b.len() ==> b[i] == b.skip(1)[i - 1]);
            }
        }
    }
}

/// Inserting into a sorted list keeps it sorted; the new pair is there;
/// every other key keeps its pair.
pub proof fn lemma_map_insert_props(
    entries: Seq<(Seq<char>, Seq<char>)>,
    k: Seq<char>,
    v: Seq<char>,
)
    requires
        keys_sorted(entries),
    ensures
        keys_sorted(map_insert(entries, k, v)),
        map_insert(entries, k, v).contains((k, v)),
        forall|p: (Seq<char>, Seq<char>)|
            #[trigger] map_insert(entries, k, v).contains(p) ==> p == (k, v) || (
            entries.contains(p) && p.0 != k),
        forall|p: (Seq<char>, Seq<char>)|
            entries.contains(p) && p.0 != k ==> #[trigger] map_insert(entries, k, v).contains(p),
    decreases entries.len(),
{
    let out = map_insert(entries, k, v);
    if entries.len() == 0 {
        assert(out[0] == (k, v));
        assert forall|p: (Seq<char>, Seq<char>)| #[trigger] out.contains(p) implies p == (k, v) || (
        entries.contains(p) && p.0 != k) by {
            let w = choose|w: int| 0 <= w < out.len() && out[w] == p;
            assert(w == 0);
        }
    } else if k == entries[0].0 {
        assert(out =~= seq![(k, v)] + entries.drop_first());
        assert(out[0] == (k, v));
        assert forall|i: int, j: int| 0 <= i < j < out.len() implies lex_lt(out[i].0, out[j].0) by {
            if i == 0 {
                assert(out[j] == entries.drop_first()[j - 1]);
                assert(entries.drop_first()[j - 1] == entries[j]);
                assert(lex_lt(entries[0].0, entries[j].0));
            } else {
                assert(out[i] == entries[i]);
                assert(out[j] == entries[j]);
            }
        }
        assert forall|p: (Seq<char>, Seq<char>)| #[trigger] out.contains(p) implies p == (k, v) || (
        entries.contains(p) && p.0 != k) by {
            let w = choose|w: int| 0 <= w < out.len() && out[w] == p;
            if w > 0 {
                assert(p == entries[w]);
                assert(lex_lt(entries[0].0, entries[w].0));
                lemma_lex_lt_total(entries[0].0, p.0);
            }
        }
        assert forall|p: (Seq<char>, Seq<char>)|
            entries.contains(p) && p.0 != k implies #[trigger] out.contains(p) by {
            let w = choose|w: int| 0 <= w < entries.len() && entries[w] == p;
            assert(w > 0);
            assert(out[w] == entries[w]);
        }
    } else if lex_lt(k, entries[0].0) {
        assert(out =~= seq![(k, v)] + entries);
        assert(out[0] == (k, v));
        assert forall|i: int, j: int| 0 <= i < j < out.len() implies lex_lt(out[i].0, out[j].0) by {
            if i == 0 {
                assert(out[j] == entries[j - 1]);
                if j == 1 {
                } else {
                    assert(lex_lt(entries[0].0, entries[j - 1].0));
                    lemma_lex_lt_trans(k, entries[0].0, entries[j - 1].0);
                }
            } else {
                assert(out[i] == entries[i - 1]);
                assert(out[j] == entries[j - 1]);
            }
        }
        assert forall|p: (Seq<char>, Seq<char>)| #[trigger] out.contains(p) implies p == (k, v) || (
        entries.contains(p) && p.0 != k) by {
            let w = choose|w: int| 0 <= w < out.len() && out[w] == p;
            if w > 0 {
                assert(p == entries[w - 1]);
                if p.0 == k {
                    if w == 1 {
                        assert(lex_lt(k, p.0));
                        lemma_lex_lt_total(k, p.0);
                    } else {
                        assert(lex_lt(entries[0].0, entries[w - 1].0));
                        lemma_lex_lt_trans(k, entries[0].0, p.0);
                        lemma_lex_lt_total(k, p.0);
                    }
                }
            }
        }
        assert forall|p: (Seq<char>, Seq<char>)|
            entries.contains(p) && p.0 != k implies #[trigger] out.contains(p) by {
            let w = choose|w: int| 0 <= w < entries.len() && entries[w] == p;
            assert(out[w + 1] == entries[w]);
        }
    } else {
        lemma_lex_lt_total(k, entries[0].0);
        assert(lex_lt(entries[0].0, k));
        assert(keys_sorted(entries.drop_first())) by {
            assert(forall|i: int|
                0 <= i < entries.drop_first().len() ==> entries.drop_first()[i] == entries[i + 1]);
        }
        lemma_map_insert_props(entries.drop_first(), k, v);
        let sub = map_insert(entries.drop_first(), k, v);
        assert(out =~= seq![entries[0]] + sub);
        assert forall|i: int, j: int| 0 <= i < j < out.len() implies lex_lt(out[i].0, out[j].0) by {
            if i == 0 {
                assert(out[j] == sub[j - 1]);
                assert(sub.contains(sub[j - 1]));
                if sub[j - 1] == (k, v) {
                } else {
                    assert(entries.drop_first().contains(sub[j - 1]));
                    let w = choose|w: int|
                        0 <= w < entries.drop_first().len() && entries.drop_first()[w] == sub[j
                            - 1];
                    assert(entries[w + 1] == sub[j - 1]);
                    assert(lex_lt(entries[0].0, entries[w + 1].0));
                }
            } else {
                assert(out[i] == sub[i - 1]);
                assert(out[j] == sub[j - 1]);
            }
        }
        assert(out.contains((k, v))) by {
            let w = choose|w: int| 0 <= w < sub.len() && sub[w] == (k, v);
            assert(out[w + 1] == sub[w]);
        }
        assert forall|p: (Seq<char>, Seq<char>)| #[trigger] out.contains(p) implies p == (k, v) || (
        entries.contains(p) && p.0 != k) by {
            let w = choose|w: int| 0 <= w < out.len() && out[w] == p;
            if w == 0 {
                assert(p == entries[0]);
                assert(entries.contains(p));
                lemma_lex_lt_total(entries[0].0, k);
            } else {
                assert(p == sub[w - 1]);
                assert(sub.contains(p));
                if p != (k, v) {
                    assert(entries.drop_first().contains(p) && p.0 != k);
                    let u = choose|u: int|
                        0 <= u < entries.drop_first().len() && entries.drop_first()[u] == p;
                    assert(entries[u + 1] == p);
                    assert(entries.contains(p));
                }
            }
        }
        assert forall|p: (Seq<char>, Seq<char>)|
            entries.contains(p) && p.0 != k implies #[trigger] out.contains(p) by {
            let w = choose|w: int| 0 <= w < entries.len() && entries[w] == p;
            if w == 0 {
                assert(out[0] == p);
            } else {
                assert(entries.drop_first()[w - 1] == p);
                assert(entries.drop_first().contains(p));
                assert(sub.contains(p));
                let u = choose|u: int| 0 <= u < sub.len() && sub[u] == p;
                assert(out[u + 1] == sub[u]);
            }
        }
    }
}

/// The catalogue is id-sorted; every entry maps the id of its name, a
/// name from the list; every name of the list has its id among the keys.
pub proof fn lemma_actions_map_props(names: Seq<Seq<char>>, salt: Seq<char>, file: Seq<char>)
    ensures
        keys_sorted(actions_map_of(names, salt, file)),
        forall|p: (Seq<char>, Seq<char>)|
            #[trigger] actions_map_of(names, salt, file).contains(p) ==> p.0 == action_id_chars(
                salt,
                file,
                p.1,
            ) && names.contains(p.1),
        forall|j: int|
            0 <= j < names.len() ==> exists|p: (Seq<char>, Seq<char>)|
                #[trigger] actions_map_of(names, salt, file).contains(p) && p.0 == action_id_chars(
                    salt,
                    file,
                    #[trigger] names[j],
                ),
    decreases names.len(),
{
    if names.len() > 0 {
        lemma_actions_map_props(names.drop_last(), salt, file);
        let prev = actions_map_of(names.drop_last(), salt, file);
        let k = action_id_chars(salt, file, names.last());
        let v = names.last();
        lemma_map_insert_props(prev, k, v);
        let out = actions_map_of(names, salt, file);
        assert(out == map_insert(prev, k, v));
        assert forall|p: (Seq<char>, Seq<char>)| #[trigger] out.contains(p) implies p.0
            == action_id_chars(salt, file, p.1) && names.contains(p.1) by {
            if p == (k, v) {
                assert(names[names.len() - 1] == v);
            } else {
                assert(prev.contains(p));
                assert(names.drop_last().contains(p.1));
                let w = choose|w: int|
                    0 <= w < names.drop_last().len() && names.drop_last()[w] == p.1;
                assert(names[w] == p.1);
            }
        }
        assert forall|j: int| 0 <= j < names.len() implies exists|p: (Seq<char>, Seq<char>)|
            #[trigger] out.contains(p) && p.0 == action_id_chars(salt, file, #[trigger] names[j]) by {
            if j == names.len() - 1 {
                assert(out.contains((k, v)) && (k, v).0 == action_id_chars(salt, file, names[j]));
            } else {
                assert(names.drop_last()[j] == names[j]);
                let p0 = choose|p0: (Seq<char>, Seq<char>)|
                    #[trigger] prev.contains(p0) && p0.0 == action_id_chars(
                        salt,
                        file,
                        names.drop_last()[j],
                    );
                if p0.0 == k {
                    assert(out.contains((k, v)) && (k, v).0 == action_id_chars(
                        salt,
                        file,
                        names[j],
                    ));
                } else {
                    assert(out.contains(p0));
                }
            }
        }
    }
}

/// Splitting an insertion after a strictly smaller prefix.
proof fn lemma_map_insert_split(
    entries: Seq<(Seq<char>, Seq<char>)>,
    i: int,
    k: Seq<char>,
    v: Seq<char>,
)
    requires
        0 <= i <= entries.len(),
        forall|j: int| 0 <= j < i ==> lex_lt(#[trigger] entries[j].0, k),
    ensures
        map_insert(entries, k, v) == entries.take(i) + map_insert(entries.skip(i), k, v),
    decreases i,
{
    if i == 0 {
        assert(entries.skip(0) =~= entries);
        assert(map_insert(entries, k, v) =~= entries.take(0) + map_insert(entries, k, v));
    } else {
        assert(lex_lt(entries[0].0, k));
        lemma_lex_lt_total(entries[0].0, k);
        assert(map_insert(entries, k, v) == seq![entries[0]] + map_insert(
            entries.drop_first(),
            k,
            v,
        ));
        assert(forall|j: int|
            0 <= j < i - 1 ==> lex_lt(#[trigger] entries.drop_first()[j].0, k));
        lemma_map_insert_split(entries.drop_first(), i - 1, k, v);
        assert(entries.drop_first().take(i - 1) =~= entries.take(i).drop_first());
        assert(entries.drop_first().skip(i - 1) =~= entries.skip(i));
        assert(seq![entries[0]] + (entries.take(i).drop_first() + map_insert(
            entries.skip(i),
            k,
            v,
        )) =~= entries.take(i) + map_insert(entries.skip(i), k, v));
    }
}

/// Inserts one id-name pair into the id-sorted catalogue; an entry with
/// the same id is replaced.
#[verifier::loop_isolation(false)]
pub fn actions_map_insert(entries: &mut Vec<(String, String)>, id: String, name: String)
    ensures
        pairs_v(final(entries)@) == map_insert(pairs_v(old(entries)@), id@, name@),
{
    let ghost inp = pairs_v(entries@);
    let mut i: usize = 0;
    while i < entries.len()
        invariant
            i <= entries.len(),
            pairs_v(entries@) == inp,
            forall|j: int| 0 <= j < i ==> lex_lt(#[trigger] inp[j].0, id@),
        decreases entries.len() - i,
    {
        if !str_lt(entries[i].0.as_str(), id.as_str()) {
            break;
        }
        proof {
            assert(inp[i as int].0 == entries@[i as int].0@);
        }
        i = i + 1;
    }
    proof {
        lemma_map_insert_split(inp, i as int, id@, name@);
    }
    if i < entries.len() {
        let same = str_eq(entries[i].0.as_str(), id.as_str());
        if same {
            let _old = entries.remove(i);
            entries.insert(i, (id, name));
            proof {
                assert(inp.skip(i as int)[0].0 == id@);
                assert(map_insert(inp.skip(i as int), id@, name@) =~= seq![(id@, name@)]
                    + inp.skip(i as int).drop_first());
                assert(pairs_v(entries@) =~= inp.take(i as int) + map_insert(
                    inp.skip(i as int),
                    id@,
                    name@,
                ));
            }
        } else {
            proof {
                assert(inp.skip(i as int)[0].0 == entries@[i as int].0@);
                assert(inp.skip(i as int)[0].0 != id@);
                assert(!lex_lt(inp.skip(i as int)[0].0, id@));
                lemma_lex_lt_total(id@, inp.skip(i as int)[0].0);
                assert(lex_lt(id@, inp.skip(i as int)[0].0));
            }
            entries.insert(i, (id, name));
            proof {
                assert(map_insert(inp.skip(i as int), id@, name@) =~= seq![(id@, name@)]
                    + inp.skip(i as int));
                assert(pairs_v(entries@) =~= inp.take(i as int) + map_insert(
                    inp.skip(i as int),
                    id@,
                    name@,
                ));
            }
        }
    } else {
        entries.push((id, name));
        proof {
            assert(inp.skip(i as int) =~= Seq::<(Seq<char>, Seq<char>)>::empty());
            assert(map_insert(inp.skip(i as int), id@, name@) =~= seq![(id@, name@)]);
            assert(pairs_v(entries@) =~= inp.take(i as int) + map_insert(
                inp.skip(i as int),
                id@,
                name@,
            ));
        }
    }
}

/// Builds the id-sorted catalogue of the given export names.
#[verifier::loop_isolation(false)]
pub fn build_actions_map(names: &Vec<String>, hash_salt: &String, file_name: &String) -> (r: Vec<
    (String, String),
>)
    ensures
        pairs_v(r@) == actions_map_of(strs_v(names@), hash_salt@, file_name@),
{
    let mut entries: Vec<(String, String)> = Vec::new();
    let mut i: usize = 0;
    proof {
        assert(strs_v(names@).take(0) =~= Seq::<Seq<char>>::empty());
    }
    while i < names.len()
        invariant
            i <= names.len(),
            pairs_v(entries@) == actions_map_of(
                strs_v(names@).take(i as int),
                hash_salt@,
                file_name@,
            ),
        decreases names.len() - i,
    {
        let name = &names[i];
        let id = generate_action_id(hash_salt.as_str(), file_name.as_str(), name.as_str());
        actions_map_insert(&mut entries, id, name.clone());
        proof {
            assert(strs_v(names@).take(i as int + 1).drop_last() =~= strs_v(names@).take(
                i as int,
            ));
            assert(strs_v(names@).take(i as int + 1).last() == names@[i as int]@);
        }
        i = i + 1;
    }
    proof {
        assert(strs_v(names@).take(names@.len() as int) =~= strs_v(names@));
    }
    entries
}

/// The JSON object text serde_json produces for these entries; given
/// meaning only by the `json_object_string` wrapper below.
pub uninterp spec fn json_object_of(entries: Seq<(Seq<char>, Seq<char>)>) -> Seq<char>;

/// Relies on `serde_json::to_string` over a `BTreeMap<String, String>`:
/// the JSON object of the entries, a function of the entries alone.
/// The caller hands the entries id-sorted without duplicate ids, the
/// order the map iterates in.
#[verifier::external_body]
fn json_object_string(entries: &Vec<(String, String)>) -> (r: String)
    ensures
        r@ == json_object_of(pairs_v(entries@)),
{
    let mut m: BTreeMap<String, String> = BTreeMap::new();
    for (k, v) in entries.iter() {
        m.insert(k.clone(), v.clone());
    }
    serde_json::to_string(&m).unwrap_or_default()
}

/// The full text of the leading magic comment for a catalogue.
pub open spec fn actions_comment_chars(entries: Seq<(Seq<char>, Seq<char>)>) -> Seq<char> {
    " __next_internal_action_entry_do_not_use__ "@ + json_object_of(entries) + " "@
}

/// Builds the magic comment text cataloguing the emitted actions.
pub fn generate_server_actions_comment(entries: &Vec<(String, String)>) -> (r: String)
    ensures
        r@ == actions_comment_chars(pairs_v(entries@)),
{
    let mut s = String::from_str(" __next_internal_action_entry_do_not_use__ ");
    let json = json_object_string(entries);
    s.append(json.as_str());
    s.append(" ");
    s
}

} // verus!
