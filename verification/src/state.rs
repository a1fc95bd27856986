//! Routing state that survives a restart: the table read back from the state
//! file's text and written out as text, which source each output starts on,
//! and when the table has changed enough to be written out again. Reading
//! and writing the file itself happens around these calls.

use crate::assoc;
use crate::crosspoint::pairs_view;
use vstd::prelude::*;

verus! {

/// The source an output starts on: its persisted route when one was saved,
/// else the `default_source` from the config file.
pub open spec fn initial_source_spec(
    persisted: Map<Seq<char>, Seq<char>>,
    output: Seq<char>,
    default_source: Seq<char>,
) -> Seq<char> {
    if persisted.contains_key(output) {
        persisted[output]
    } else {
        default_source
    }
}

/// The value stored under `key`, if any.
fn lookup(table: &Vec<(String, String)>, key: &String) -> (r: Option<String>)
    requires
        assoc::keys_distinct(pairs_view(table@)),
    ensures
        r is Some <==> assoc::assoc_map(pairs_view(table@)).contains_key(key@),
        r matches Some(v) ==> v@ == assoc::assoc_map(pairs_view(table@))[key@],
{
    let ghost p = pairs_view(table@);
    let mut i: usize = 0;
    while i < table.len()
        invariant
            i <= table@.len(),
            p == pairs_view(table@),
            assoc::keys_distinct(p),
            forall|j: int| 0 <= j < i ==> p[j].0 != key@,
        decreases table@.len() - i,
    {
        if table[i].0 == *key {
            proof {
                assoc::lemma_assoc_at(p, i as int);
            }
            return Some(table[i].1.clone());
        }
        i = i + 1;
    }
    proof {
        if assoc::has_key(p, key@) {
            let j = choose|j: int| 0 <= j < p.len() && p[j].0 == key@;
            assert(p[j].0 == key@);
        }
    }
    None
}

/// The source output `id` starts on, given the persisted routing table.
pub fn initial_source(persisted: &Vec<(String, String)>, id: &String, default_source: String) -> (r:
    String)
    requires
        assoc::keys_distinct(pairs_view(persisted@)),
    ensures
        r@ == initial_source_spec(assoc::assoc_map(pairs_view(persisted@)), id@, default_source@),
{
    match lookup(persisted, id) {
        Some(s) => s,
        None => default_source,
    }
}

/// Whether two routing tables differ as maps (the order of their entries
/// does not matter).
pub fn routes_differ(a: &Vec<(String, String)>, b: &Vec<(String, String)>) -> (r: bool)
    requires
        assoc::keys_distinct(pairs_view(a@)),
        assoc::keys_distinct(pairs_view(b@)),
    ensures
        r == (assoc::assoc_map(pairs_view(a@)) != assoc::assoc_map(pairs_view(b@))),
{
    let ghost ma = assoc::assoc_map(pairs_view(a@));
    let ghost mb = assoc::assoc_map(pairs_view(b@));
    let mut i: usize = 0;
    while i < a.len()
        invariant
            i <= a@.len(),
            ma == assoc::assoc_map(pairs_view(a@)),
            mb == assoc::assoc_map(pairs_view(b@)),
            assoc::keys_distinct(pairs_view(a@)),
            assoc::keys_distinct(pairs_view(b@)),
            forall|j: int|
                0 <= j < i ==> mb.contains_key(#[trigger] pairs_view(a@)[j].0) && mb[pairs_view(
                    a@,
                )[j].0] == pairs_view(a@)[j].1,
        decreases a@.len() - i,
    {
        proof {
            assoc::lemma_assoc_at(pairs_view(a@), i as int);
        }
        match lookup(b, &a[i].0) {
            Some(v) => {
                if v != a[i].1 {
                    return true;
                }
            },
            None => {
                return true;
            },
        }
        i = i + 1;
    }
    let mut k: usize = 0;
    while k < b.len()
        invariant
            k <= b@.len(),
            ma == assoc::assoc_map(pairs_view(a@)),
            mb == assoc::assoc_map(pairs_view(b@)),
            assoc::keys_distinct(pairs_view(a@)),
            assoc::keys_distinct(pairs_view(b@)),
            forall|j: int|
                0 <= j < a@.len() ==> mb.contains_key(#[trigger] pairs_view(a@)[j].0) && mb[pairs_view(
                    a@,
                )[j].0] == pairs_view(a@)[j].1,
            forall|j: int| 0 <= j < k ==> ma.contains_key(#[trigger] pairs_view(b@)[j].0),
        decreases b@.len() - k,
    {
        proof {
            assoc::lemma_assoc_at(pairs_view(b@), k as int);
        }
        match lookup(a, &b[k].0) {
            Some(_) => {},
            None => {
                return true;
            },
        }
        k = k + 1;
    }
    proof {
        assert forall|x: Seq<char>| #[trigger] ma.contains_key(x) implies mb.contains_key(x)
            && mb[x] == ma[x] by {
            assoc::lemma_assoc_key(pairs_view(a@), x);
        }
        assert forall|x: Seq<char>| #[trigger] mb.contains_key(x) implies ma.contains_key(x) by {
            assoc::lemma_assoc_key(pairs_view(b@), x);
        }
        assert(ma =~= mb);
    }
    false
}

/// What `serde_json` reads from a text as a JSON object whose values are all
/// strings (`serde_json::from_str` into a string map): `None` when the text
/// is not one, else the object's entries.
pub uninterp spec fn json_string_map(raw: Seq<char>) -> Option<Map<Seq<char>, Seq<char>>>;

/// `serde_json::from_str` into a `HashMap<String, String>`, its entries then
/// listed as pairs: `None` exactly when the text is not such an object, else
/// the object's entries, each key once. The pairs come in the map's own
/// order, which is not stated.
#[verifier::external_body]
fn parse_string_map(raw: &str) -> (r: Option<Vec<(String, String)>>)
    ensures
        r is None <==> json_string_map(raw@) is None,
        r matches Some(v) ==> assoc::keys_distinct(pairs_view(v@)) && json_string_map(raw@) == Some(
            assoc::assoc_map(pairs_view(v@)),
        ),
{
    serde_json::from_str::<std::collections::HashMap<String, String>>(raw).ok().map(
        |m| m.into_iter().collect(),
    )
}

/// `serde_json::to_string_pretty` of the pairs as a `HashMap<&str, &str>`:
/// the text of a JSON object, which `serde_json` reads back as exactly those
/// entries. The order the entries are written in is the map's own and is not
/// stated; `None` if serializing fails.
#[verifier::external_body]
fn string_map_json(pairs: &Vec<(String, String)>) -> (r: Option<String>)
    requires
        assoc::keys_distinct(pairs_view(pairs@)),
    ensures
        r matches Some(text) ==> json_string_map(text@) == Some(assoc::assoc_map(pairs_view(pairs@))),
{
    let map: std::collections::HashMap<&str, &str> = pairs.iter().map(
        |(k, v)| (k.as_str(), v.as_str()),
    ).collect();
    serde_json::to_string_pretty(&map).ok()
}

/// The routing table persisted in the state file, from the file's text
/// (`None` when there is no file). Text that is not a JSON object of strings
/// counts as nothing persisted, so the router still starts on its config
/// defaults; the second result says it was refused, for the caller to
/// report.
pub fn persisted_routes(raw: Option<&str>) -> (r: (Vec<(String, String)>, bool))
    ensures
        assoc::keys_distinct(pairs_view(r.0@)),
        assoc::assoc_map(pairs_view(r.0@)) == match raw {
            Some(t) => match json_string_map(t@) {
                Some(m) => m,
                None => Map::empty(),
            },
            None => Map::empty(),
        },
        r.1 == (raw matches Some(t) && json_string_map(t@) is None),
{
    match raw {
        None => {
            let empty: Vec<(String, String)> = Vec::new();
            proof {
                assoc::lemma_assoc_empty(pairs_view(empty@));
            }
            (empty, false)
        },
        Some(t) => match parse_string_map(t) {
            Some(v) => (v, false),
            None => {
                let empty: Vec<(String, String)> = Vec::new();
                proof {
                    assoc::lemma_assoc_empty(pairs_view(empty@));
                }
                (empty, true)
            },
        },
    }
}

/// The text the routing table is written to the state file as: a JSON object
/// that reads back, through [`persisted_routes`], as exactly this table.
/// `None` if it cannot be serialized.
pub fn routes_text(routes: &Vec<(String, String)>) -> (r: Option<String>)
    requires
        assoc::keys_distinct(pairs_view(routes@)),
    ensures
        r matches Some(text) ==> json_string_map(text@) == Some(assoc::assoc_map(pairs_view(routes@))),
{
    string_map_json(routes)
}

// ------------------------------------------------------------------ laws --

/// A persisted route wins over the config default: when the persisted table
/// holds an entry for the output, the output starts on that entry's source;
/// the default is used only when the table holds none for it.
pub proof fn law_persisted_route_wins(
    persisted: Seq<(Seq<char>, Seq<char>)>,
    output: Seq<char>,
    default_source: Seq<char>,
    k: int,
)
    requires
        assoc::keys_distinct(persisted),
        0 <= k < persisted.len(),
        persisted[k].0 == output,
    ensures
        initial_source_spec(assoc::assoc_map(persisted), output, default_source) == persisted[k].1,
{
    assoc::lemma_assoc_at(persisted, k);
}

/// Without a persisted entry for the output, it starts on its default.
pub proof fn law_default_without_persisted_route(
    persisted: Seq<(Seq<char>, Seq<char>)>,
    output: Seq<char>,
    default_source: Seq<char>,
)
    requires
        forall|k: int| 0 <= k < persisted.len() ==> persisted[k].0 != output,
    ensures
        initial_source_spec(assoc::assoc_map(persisted), output, default_source) == default_source,
{
    if assoc::assoc_map(persisted).contains_key(output) {
        let k = choose|k: int| 0 <= k < persisted.len() && persisted[k].0 == output;
        assert(persisted[k].0 == output);
    }
}

} // verus!
