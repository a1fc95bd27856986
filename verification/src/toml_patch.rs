//! Patching one dotted key of a TOML document, keeping everything else in
//! it as written. The document model is `toml_edit`'s.

use crate::text;
use crate::text::{chars_of, concat2, string_from_chars};
use toml_edit::{DocumentMut, Item, TomlError};
use vstd::prelude::*;

verus! {

#[verifier::external_type_specification]
#[verifier::external_body]
pub struct ExDocumentMut(DocumentMut);

#[verifier::external_type_specification]
#[verifier::external_body]
pub struct ExItem(Item);

#[verifier::external_type_specification]
#[verifier::external_body]
pub struct ExTomlError(TomlError);

/// What a TOML document holds, as the library reads it: every value that is
/// not a table, by its key path (the keys from the root down), with the text
/// of a string and `None` for any other value (a number, a boolean, a date,
/// an array, an array of tables). Tables, inline or not, hold no entry
/// themselves; their values do. An item that is a value holds one entry, at the empty path.
pub type TomlEntries = Map<Seq<Seq<char>>, Option<Seq<char>>>;

/// What `toml_edit` parses the text into: `None` when it refuses the text,
/// else the entries of the document it builds.
pub uninterp spec fn toml_entries(raw: Seq<char>) -> Option<TomlEntries>;

/// What a `toml_edit` document holds.
pub uninterp spec fn doc_entries(doc: DocumentMut) -> TomlEntries;

/// What a `toml_edit` item holds, by key path from the item down.
pub uninterp spec fn item_entries(item: Item) -> TomlEntries;

/// Whether `toml_edit` accepts the text as a TOML document.
pub open spec fn toml_parses(raw: Seq<char>) -> bool {
    toml_entries(raw) is Some
}

/// The entries below key `k`, by their paths from there.
pub open spec fn under(m: TomlEntries, k: Seq<char>) -> TomlEntries {
    Map::new(|q: Seq<Seq<char>>| m.contains_key(seq![k] + q), |q: Seq<Seq<char>>| m[seq![k] + q])
}

/// `m` with everything below key `k` replaced by `sub`.
pub open spec fn graft(m: TomlEntries, k: Seq<char>, sub: TomlEntries) -> TomlEntries {
    Map::new(
        |q: Seq<Seq<char>>|
            if q.len() > 0 && q[0] == k {
                sub.contains_key(q.skip(1))
            } else {
                m.contains_key(q)
            },
        |q: Seq<Seq<char>>|
            if q.len() > 0 && q[0] == k {
                sub[q.skip(1)]
            } else {
                m[q]
            },
    )
}

pub open spec fn path_prefix(p: Seq<Seq<char>>, q: Seq<Seq<char>>) -> bool {
    p.len() <= q.len() && q.take(p.len() as int) == p
}

/// `m` with the string `v` at `path`, and nothing left below it.
pub open spec fn set_at(m: TomlEntries, path: Seq<Seq<char>>, v: Seq<char>) -> TomlEntries {
    Map::new(
        |q: Seq<Seq<char>>| q == path || (m.contains_key(q) && !path_prefix(path, q)),
        |q: Seq<Seq<char>>|
            if q == path {
                Some(v)
            } else {
                m[q]
            },
    )
}

/// No value stands at `s` or on the way to it, counting from the item
/// itself, so each step down finds a table (or room to make one).
pub open spec fn clear_to(m: TomlEntries, s: Seq<Seq<char>>) -> bool {
    forall|k: int| 0 <= k < s.len() ==> !m.contains_key(#[trigger] s.take(k))
}

/// No value stands on the way to `path` below the root, which is always a
/// table: the dotted key can be set.
pub open spec fn settable(m: TomlEntries, path: Seq<Seq<char>>) -> bool {
    forall|k: int| 1 <= k < path.len() ==> !m.contains_key(#[trigger] path.take(k))
}

/// `<DocumentMut as FromStr>::from_str`: the parsed document, or the parse
/// error. It succeeds exactly on the texts `toml_entries` holds a document
/// for, and the document holds those entries.
#[verifier::external_body]
fn parse_document(raw: &str) -> (r: Result<DocumentMut, TomlError>)
    ensures
        r is Ok <==> toml_entries(raw@) is Some,
        r matches Ok(d) ==> toml_entries(raw@) == Some(doc_entries(d)),
{
    raw.parse::<DocumentMut>()
}

/// `Display` of a `TomlError`: its message.
#[verifier::external_body]
fn toml_error_text(e: &TomlError) -> (s: String) {
    format!("{e}")
}

/// `Table::entry(key).or_insert(Item::None)` on the document's root table
/// (`DocumentMut` derefs to it): the item under `key`, inserted empty when
/// missing, so it holds what the document held below `key`. This is what
/// indexing the root item by a key does; the root is always a table, so an
/// item always comes back, and whatever it ends up holding is what the
/// document holds below `key`, the rest of the document unchanged.
#[verifier::external_body]
fn root_entry<'a>(doc: &'a mut DocumentMut, key: &str) -> (item: &'a mut Item)
    ensures
        item_entries(*item) == under(doc_entries(*old(doc)), key@),
        doc_entries(*final(doc)) == graft(doc_entries(*old(doc)), key@, item_entries(*final(item))),
{
    doc.entry(key).or_insert(Item::None)
}

/// `Item::get_mut` with a key (`str`'s `Index::index_mut`): on an empty item
/// (which first becomes an inline table), a table or an inline table, the
/// item under `key`, inserted empty when missing; on any other item (a
/// value, an array of tables), `None`. Those are exactly the items that hold
/// an entry at the empty path. The child holds what the item held below
/// `key`, and whatever it ends up holding is what the item holds below
/// `key`, the rest unchanged.
#[verifier::external_body]
fn child_item<'a>(item: &'a mut Item, key: &str) -> (child: Option<&'a mut Item>)
    ensures
        child is Some <==> !item_entries(*old(item)).contains_key(Seq::empty()),
        child matches Some(c) ==> item_entries(*c) == under(item_entries(*old(item)), key@)
            && item_entries(*final(item)) == graft(
            item_entries(*old(item)),
            key@,
            item_entries(*final(c)),
        ),
{
    item.get_mut(key)
}

/// What an item that is the string `v` holds.
pub open spec fn string_entries(v: Seq<char>) -> TomlEntries {
    Map::<Seq<Seq<char>>, Option<Seq<char>>>::empty().insert(Seq::empty(), Some(v))
}

/// Replaces an item with a string value (`toml_edit::value`): it then holds
/// that string at the empty path and nothing else.
#[verifier::external_body]
fn set_string(item: &mut Item, val: &str)
    ensures
        item_entries(*final(item)) == string_entries(val@),
{
    *item = toml_edit::value(val);
}

/// `DocumentMut`'s `Display`: the document as TOML text, which `toml_edit`
/// parses back into a document holding the same entries. The crate exists
/// to edit documents and write them back (its documentation shows a parsed
/// document written back unchanged, and an edited one written back with the
/// edit in place); its writer skips empty items, as entries do. The text
/// itself (comments, spacing, order) is not stated.
#[verifier::external_body]
fn document_text(doc: &DocumentMut) -> (s: String)
    ensures
        toml_entries(s@) == Some(doc_entries(*doc)),
{
    format!("{doc}")
}

/// The pieces of `rest` between `c`s, the first continuing `cur`.
pub open spec fn split_from(cur: Seq<char>, rest: Seq<char>, c: char) -> Seq<Seq<char>>
    decreases rest.len(),
{
    if rest.len() == 0 {
        seq![cur]
    } else if rest[0] == c {
        seq![cur] + split_from(Seq::empty(), rest.skip(1), c)
    } else {
        split_from(cur.push(rest[0]), rest.skip(1), c)
    }
}

/// `str::split` on a character: the pieces between its occurrences (always
/// at least one, possibly empty).
pub open spec fn split_on(s: Seq<char>, c: char) -> Seq<Seq<char>> {
    split_from(Seq::empty(), s, c)
}

proof fn lemma_split_from_nonempty(cur: Seq<char>, rest: Seq<char>, c: char)
    ensures
        split_from(cur, rest, c).len() >= 1,
    decreases rest.len(),
{
    if rest.len() > 0 {
        if rest[0] == c {
            lemma_split_from_nonempty(Seq::empty(), rest.skip(1), c);
        } else {
            lemma_split_from_nonempty(cur.push(rest[0]), rest.skip(1), c);
        }
    }
}

/// The dot-separated parts of a dotted key such as `web.bind`.
pub fn split_dotted(key: &str) -> (parts: Vec<String>)
    ensures
        text::strings_view(parts@) == split_on(key@, '.'),
        parts@.len() >= 1,
{
    let cs = chars_of(key);
    let mut parts: Vec<String> = Vec::new();
    let mut cur: Vec<char> = Vec::new();
    let mut i: usize = 0;
    proof {
        assert(cs@.skip(0) =~= cs@);
        assert(text::strings_view(parts@) + split_from(cur@, cs@.skip(0), '.') =~= split_on(
            key@,
            '.',
        ));
    }
    while i < cs.len()
        invariant
            cs@ == key@,
            i <= cs@.len(),
            text::strings_view(parts@) + split_from(cur@, cs@.skip(i as int), '.') == split_on(
                key@,
                '.',
            ),
        decreases cs@.len() - i,
    {
        let ghost rest = cs@.skip(i as int);
        proof {
            assert(rest.skip(1) =~= cs@.skip(i + 1));
        }
        if cs[i] == '.' {
            let piece = string_from_chars(cur.as_slice());
            let ghost before = parts@;
            let ghost old_cur = cur@;
            parts.push(piece);
            cur = Vec::new();
            proof {
                assert(text::strings_view(parts@) =~= text::strings_view(before).push(old_cur));
                assert(text::strings_view(parts@) + split_from(cur@, cs@.skip(i + 1), '.') =~= text::strings_view(
                    before,
                ) + (seq![old_cur] + split_from(Seq::empty(), cs@.skip(i + 1), '.')));
            }
        } else {
            cur.push(cs[i]);
        }
        i = i + 1;
    }
    let piece = string_from_chars(cur.as_slice());
    let ghost before = parts@;
    parts.push(piece);
    proof {
        assert(cs@.skip(i as int) =~= Seq::<char>::empty());
        assert(text::strings_view(parts@) =~= text::strings_view(before).push(cur@));
        assert(text::strings_view(parts@) =~= text::strings_view(before) + seq![cur@]);
    }
    parts
}

/// Splitting a path after its first key.
proof fn lemma_first_key(s: Seq<Seq<char>>, q: Seq<Seq<char>>)
    requires
        s.len() > 0,
        q.len() > 0,
        q[0] == s[0],
    ensures
        q == seq![s[0]] + q.skip(1),
        s == seq![s[0]] + s.skip(1),
        (q == s) == (q.skip(1) == s.skip(1)),
        path_prefix(s, q) == path_prefix(s.skip(1), q.skip(1)),
{
    assert(q =~= seq![s[0]] + q.skip(1));
    assert(s =~= seq![s[0]] + s.skip(1));
    if q.skip(1) == s.skip(1) {
        assert(q =~= s);
    }
    if path_prefix(s, q) {
        assert(q.skip(1).take(s.skip(1).len() as int) =~= s.skip(1)) by {
            assert forall|i: int| 0 <= i < s.skip(1).len() implies q.skip(1).take(
                s.skip(1).len() as int,
            )[i] == s.skip(1)[i] by {
                assert(q.take(s.len() as int)[i + 1] == s[i + 1]);
            }
        }
    }
    if path_prefix(s.skip(1), q.skip(1)) {
        assert(q.take(s.len() as int) =~= s) by {
            assert forall|i: int| 0 <= i < s.len() implies q.take(s.len() as int)[i] == s[i] by {
                if i > 0 {
                    assert(q.skip(1).take(s.skip(1).len() as int)[i - 1] == s.skip(1)[i - 1]);
                }
            }
        }
    }
}

/// Setting a path below key `k` inside the entries below `k` and grafting
/// them back sets the whole path.
proof fn lemma_graft_set(m: TomlEntries, s: Seq<Seq<char>>, v: Seq<char>)
    requires
        s.len() > 0,
    ensures
        graft(m, s[0], set_at(under(m, s[0]), s.skip(1), v)) == set_at(m, s, v),
{
    let k = s[0];
    let l = graft(m, k, set_at(under(m, k), s.skip(1), v));
    let r = set_at(m, s, v);
    assert forall|q: Seq<Seq<char>>| #[trigger] l.contains_key(q) == r.contains_key(q) && (l.contains_key(q) ==> l[q] == r[q]) by {
        if q.len() > 0 && q[0] == k {
            lemma_first_key(s, q);
        } else {
            if q == s {
                assert(q[0] == k);
            }
            if path_prefix(s, q) {
                assert(q.take(s.len() as int)[0] == s[0]);
            }
        }
    }
    assert(l =~= r);
}

/// The way to `s` is clear exactly when the item holds no value itself and
/// the way to the rest is clear below the first key.
proof fn lemma_clear_step(m: TomlEntries, s: Seq<Seq<char>>)
    requires
        s.len() > 0,
    ensures
        clear_to(m, s) == (!m.contains_key(Seq::empty()) && clear_to(under(m, s[0]), s.skip(1))),
{
    let u = under(m, s[0]);
    assert(s.take(0) =~= Seq::<Seq<char>>::empty());
    assert forall|k: int| 1 <= k <= s.skip(1).len() implies #[trigger] s.take(k) == seq![s[0]] + s.skip(1).take(k - 1) by {
        assert(s.take(k) =~= seq![s[0]] + s.skip(1).take(k - 1));
    }
    if clear_to(m, s) {
        assert forall|k: int| 0 <= k < s.skip(1).len() implies !u.contains_key(#[trigger] s.skip(1).take(k)) by {
            assert(s.take(k + 1) == seq![s[0]] + s.skip(1).take(k));
        }
    }
    if !m.contains_key(Seq::empty()) && clear_to(u, s.skip(1)) {
        assert forall|k: int| 0 <= k < s.len() implies !m.contains_key(#[trigger] s.take(k)) by {
            if k > 0 {
                assert(s.take(k) == seq![s[0]] + s.skip(1).take(k - 1));
                assert(!u.contains_key(s.skip(1).take(k - 1)));
            }
        }
    }
}

/// Below the root, which is always a table, a dotted key can be set exactly
/// when the way is clear inside the first key's entries.
proof fn lemma_settable(m: TomlEntries, path: Seq<Seq<char>>)
    requires
        path.len() > 0,
    ensures
        settable(m, path) == clear_to(under(m, path[0]), path.skip(1)),
{
    let u = under(m, path[0]);
    assert forall|k: int| 1 <= k <= path.len() implies #[trigger] path.take(k) == seq![path[0]] + path.skip(1).take(k - 1) by {
        assert(path.take(k) =~= seq![path[0]] + path.skip(1).take(k - 1));
    }
    if settable(m, path) {
        assert forall|k: int| 0 <= k < path.skip(1).len() implies !u.contains_key(#[trigger] path.skip(1).take(k)) by {
            assert(path.take(k + 1) == seq![path[0]] + path.skip(1).take(k));
        }
    }
    if clear_to(u, path.skip(1)) {
        assert forall|k: int| 1 <= k < path.len() implies !m.contains_key(#[trigger] path.take(k)) by {
            assert(path.take(k) == seq![path[0]] + path.skip(1).take(k - 1));
            assert(!u.contains_key(path.skip(1).take(k - 1)));
        }
    }
}

/// Sets `val` at the path `parts[i..]` below `item`, making tables along the
/// way; `false` when the way runs through a value.
fn set_in(item: &mut Item, parts: &Vec<String>, i: usize, val: &str) -> (done: bool)
    requires
        i <= parts@.len(),
    ensures
        done == clear_to(item_entries(*old(item)), text::strings_view(parts@).skip(i as int)),
        done ==> item_entries(*final(item)) == set_at(
            item_entries(*old(item)),
            text::strings_view(parts@).skip(i as int),
            val@,
        ),
    decreases parts@.len() - i,
{
    let ghost path = text::strings_view(parts@);
    let ghost s = path.skip(i as int);
    let ghost m = item_entries(*item);
    if i == parts.len() {
        set_string(item, val);
        proof {
            assert(s =~= Seq::<Seq<char>>::empty());
            assert(item_entries(*item) == string_entries(val@));
            assert forall|q: Seq<Seq<char>>| #[trigger] m.contains_key(q) implies path_prefix(s, q) by {
                assert(q.take(0) =~= s);
            }
            assert(string_entries(val@) =~= set_at(m, s, val@));
        }
        return true;
    }
    proof {
        assert(s[0] == parts@[i as int]@);
        assert(s.skip(1) =~= path.skip(i + 1));
        lemma_clear_step(m, s);
    }
    match child_item(item, parts[i].as_str()) {
        Some(c) => {
            let done = set_in(c, parts, i + 1, val);
            proof {
                if done {
                    lemma_graft_set(m, s, val@);
                }
            }
            done
        },
        None => false,
    }
}

/// Sets the dotted `key` in `doc` to the string `val`, making tables along
/// the way; `false`, with nothing said of the document, when a value stands
/// on the way. A key without a dot names an item of the root table, which
/// is always set.
fn set_dotted(doc: &mut DocumentMut, key: &str, val: &str) -> (done: bool)
    ensures
        done == settable(doc_entries(*old(doc)), split_on(key@, '.')),
        done ==> doc_entries(*final(doc)) == set_at(doc_entries(*old(doc)), split_on(key@, '.'), val@),
        split_on(key@, '.').len() == 1 ==> done,
{
    let parts = split_dotted(key);
    let ghost path = text::strings_view(parts@);
    let ghost m = doc_entries(*doc);
    proof {
        assert(path.len() == parts@.len());
        assert(path[0] == parts@[0]@);
        assert(path.skip(1) =~= text::strings_view(parts@).skip(1));
        lemma_settable(m, path);
    }
    let node = root_entry(doc, parts[0].as_str());
    let done = set_in(node, &parts, 1, val);
    proof {
        if done {
            lemma_graft_set(m, path, val@);
        }
    }
    done
}

/// The template's text with the dotted `set_key` set to `value`. A template
/// that is not TOML gives `parsing template <path>: <parse error>`; a key
/// whose path runs through a value that is not a table gives
/// `setting <key> in template <path>: not a table`.
pub fn render_config(template_path: &str, raw: &str, set_key: &str, value: &str) -> (r: Result<
    String,
    String,
>)
    ensures
        !toml_parses(raw@) ==> (r matches Err(m) && text::has_prefix(
            m@,
            "parsing template "@ + template_path@ + ": "@,
        )),
        toml_entries(raw@) matches Some(t) ==> if settable(t, split_on(set_key@, '.')) {
            r matches Ok(out) && toml_entries(out@) == Some(
                set_at(t, split_on(set_key@, '.'), value@),
            )
        } else {
            r matches Err(m) && m@ == "setting "@ + set_key@ + " in template "@ + template_path@
                + ": not a table"@
        },
        toml_parses(raw@) && split_on(set_key@, '.').len() == 1 ==> r is Ok,
{
    match parse_document(raw) {
        Err(e) => {
            let mut m = String::from_str("parsing template ");
            m.append(template_path);
            m.append(": ");
            let ghost head = m@;
            m.append(toml_error_text(&e).as_str());
            proof {
                assert(m@.take(head.len() as int) =~= head);
            }
            Err(m)
        },
        Ok(mut doc) => {
            if set_dotted(&mut doc, set_key, value) {
                Ok(document_text(&doc))
            } else {
                let mut m = String::from_str("setting ");
                m.append(set_key);
                m.append(" in template ");
                m.append(template_path);
                m.append(": not a table");
                Err(m)
            }
        },
    }
}

} // verus!
