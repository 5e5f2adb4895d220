//! The decoding of character references such as `&lt;`, `&#60;` and `&#x3c;`.

use vstd::prelude::*;
use crate::str_map::{lemma_string_map_insert, StrMap};
use crate::number::{numeric_char, parse_char};
use crate::utils::chars_of;

verus! {

/// The number of entries in the table of named character references.
pub const ENTITY_COUNT: usize = 2231;

/// The name and the characters of the entry at position `i` of the table of
/// named character references.
pub uninterp spec fn entity_entry(i: int) -> (Seq<char>, Seq<char>);

/// Reads one entry of `entities::ENTITIES`, the table of the named character
/// references of HTML: the entry's name, as it is written with its
/// ampersand, and the characters that it stands for. The table has
/// [`ENTITY_COUNT`] entries; beyond them there is nothing to read.
#[verifier::external_body]
fn entity_entry_at(i: usize) -> (r: Option<(&'static str, &'static str)>)
    ensures
        r is Some <==> i < ENTITY_COUNT,
        r matches Some(e) ==> (e.0@, e.1@) == entity_entry(i as int),
{
    entities::ENTITIES.get(i).map(|e| (e.entity, e.characters))
}

/// The map from names to characters that the first `n` entries of the table
/// give; of two entries with one name the later counts.
pub open spec fn mapping_upto(n: nat) -> Map<Seq<char>, Seq<char>>
    decreases n,
{
    if n == 0 {
        Map::empty()
    } else {
        mapping_upto((n - 1) as nat).insert(entity_entry(n - 1).0, entity_entry(n - 1).1)
    }
}

/// The map from the names of the character references to their characters.
pub open spec fn entity_mapping() -> Map<Seq<char>, Seq<char>> {
    mapping_upto(ENTITY_COUNT as nat)
}

/// What a character reference stands for. A text that does not end in a
/// semicolon is no reference and stands for itself. `&#x` and hexadecimal
/// digits, or `&#` and decimal digits, stand for the character with that
/// code. Any other text stands for what the table of named references
/// gives for it. A text that names nothing stands for itself.
pub open spec fn decoded(entity: Seq<char>) -> Seq<char> {
    let len = entity.len() as int;
    if len == 0 || entity[len - 1] != ';' {
        entity
    } else if len > 4 && entity[1] == '#' && entity[2] == 'x' {
        match numeric_char(entity.subrange(3, len - 1), 16) {
            Some(c) => seq![c],
            None => entity,
        }
    } else if len > 3 && entity[1] == '#' {
        match numeric_char(entity.subrange(2, len - 1), 10) {
            Some(c) => seq![c],
            None => entity,
        }
    } else if entity_mapping().contains_key(entity) {
        entity_mapping()[entity]
    } else {
        entity
    }
}

/// A name that none of the entries from `from` up to `n` has is, in the map
/// of the first `n` entries, what it is in the map of the first `from`.
proof fn lemma_mapping_skips(from: nat, n: nat, name: Seq<char>)
    requires
        from <= n,
        forall|j: int| from <= j < n ==> entity_entry(j).0 != name,
    ensures
        mapping_upto(n).contains_key(name) == mapping_upto(from).contains_key(name),
        mapping_upto(n).contains_key(name) ==> mapping_upto(n)[name] == mapping_upto(from)[name],
    decreases n - from,
{
    if from < n {
        lemma_mapping_skips(from, (n - 1) as nat, name);
    }
}

/// Looks a name up in the table of named character references.
fn lookup_entity(name: &str) -> (r: Option<String>)
    ensures
        match r {
            Some(s) => entity_mapping().contains_key(name@) && s@ == entity_mapping()[name@],
            None => !entity_mapping().contains_key(name@),
        },
{
    let mut i: usize = ENTITY_COUNT;
    while i > 0
        invariant
            i <= ENTITY_COUNT,
            forall|j: int| i <= j < ENTITY_COUNT ==> entity_entry(j).0 != name@,
        decreases i,
    {
        i = i - 1;
        match entity_entry_at(i) {
            Some((entity, characters)) => {
                if entity.eq(name) {
                    proof {
                        lemma_mapping_skips((i + 1) as nat, ENTITY_COUNT as nat, name@);
                    }
                    return Some(characters.to_owned());
                }
            },
            None => {},
        }
    }
    proof {
        lemma_mapping_skips(0, ENTITY_COUNT as nat, name@);
    }
    None
}

/// The map from the names of the character references to their characters.
pub fn make_mapping() -> (r: StrMap<String>)
    ensures
        r@.map_values(|s: String| s@) == entity_mapping(),
{
    let mut mapping: StrMap<String> = StrMap::new();
    let mut i: usize = 0;
    proof {
        assert(mapping@.map_values(|s: String| s@) =~= mapping_upto(0));
    }
    while i < ENTITY_COUNT
        invariant
            i <= ENTITY_COUNT,
            mapping@.map_values(|s: String| s@) == mapping_upto(i as nat),
        decreases ENTITY_COUNT - i,
    {
        match entity_entry_at(i) {
            Some((entity, characters)) => {
                let key = entity.to_owned();
                let value = characters.to_owned();
                proof {
                    lemma_string_map_insert(mapping@, key@, value);
                }
                mapping.insert(key, value);
            },
            None => {},
        }
        i = i + 1;
    }
    mapping
}

/// Decodes one character reference. A text that is none, or that names
/// nothing, comes back as it is.
pub fn decode(entity: &str) -> (r: String)
    ensures
        r@ == decoded(entity@),
{
    let chars = chars_of(entity);
    let len = chars.len();
    if len == 0 || chars[len - 1] != ';' {
        return entity.to_owned();
    }
    if len > 4 && chars[1] == '#' && chars[2] == 'x' {
        return match parse_char(&chars, 3, len - 1, 16) {
            Some(c) => {
                let mut s = String::new();
                s.push(c);
                proof {
                    assert(s@ =~= seq![c]);
                }
                s
            },
            None => entity.to_owned(),
        };
    }
    if len > 3 && chars[1] == '#' {
        return match parse_char(&chars, 2, len - 1, 10) {
            Some(c) => {
                let mut s = String::new();
                s.push(c);
                proof {
                    assert(s@ =~= seq![c]);
                }
                s
            },
            None => entity.to_owned(),
        };
    }
    match lookup_entity(entity) {
        Some(x) => x,
        None => entity.to_owned(),
    }
}

} // verus!
