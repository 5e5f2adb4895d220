//! String helpers shared by the rest of the crate.

use vstd::prelude::*;

verus! {

/// `str`'s own equality test, from the standard library: two string slices are
/// equal exactly when they hold the same sequence of characters.
pub assume_specification[ <str as PartialEq>::eq ](a: &str, b: &str) -> (r: bool)
    ensures
        r == (a@ == b@),
;

/// `String::push`, from the standard library: appends one character at the end.
pub assume_specification[ String::push ](s: &mut String, c: char)
    ensures
        final(s)@ == old(s)@.push(c),
;

/// The views of a list of strings.
pub open spec fn strings_view(v: Seq<String>) -> Seq<Seq<char>> {
    Seq::new(v.len(), |i: int| v[i]@)
}

/// The last position at which `name` stands in `names`.
pub open spec fn last_position(names: Seq<Seq<char>>, name: Seq<char>) -> Option<nat>
    decreases names.len(),
{
    if names.len() == 0 {
        None
    } else if names.last() == name {
        Some((names.len() - 1) as nat)
    } else {
        last_position(names.drop_last(), name)
    }
}

/// What [`last_position`] finds: a position that holds `name` and after
/// which `name` does not stand again; and nothing only if `name` stands
/// nowhere.
pub proof fn lemma_last_position(names: Seq<Seq<char>>, name: Seq<char>)
    ensures
        match last_position(names, name) {
            Some(n) => n < names.len() && names[n as int] == name && forall|j: int|
                n < j < names.len() ==> names[j] != name,
            None => !names.contains(name),
        },
    decreases names.len(),
{
    if names.len() > 0 && names.last() != name {
        lemma_last_position(names.drop_last(), name);
        match last_position(names.drop_last(), name) {
            Some(n) => {
                assert(names.drop_last()[n as int] == names[n as int]);
                assert forall|j: int| n < j < names.len() implies names[j] != name by {
                    if j < names.len() - 1 {
                        assert(names.drop_last()[j] == names[j]);
                    }
                }
            },
            None => {
                assert forall|j: int| 0 <= j < names.len() implies names[j] != name by {
                    if j < names.len() - 1 {
                        assert(names.drop_last()[j] == names[j]);
                        assert(names.drop_last().contains(names[j]));
                    }
                }
            },
        }
    }
}

/// The position of the innermost scope that binds `name`: the last position
/// at which it stands in `scope_names`.
pub fn scope_position(scope_names: &Vec<String>, name: &str) -> (r: Option<usize>)
    ensures
        match r {
            Some(n) => last_position(strings_view(scope_names@), name@) == Some(n as nat),
            None => last_position(strings_view(scope_names@), name@) is None,
        },
{
    let ghost names = strings_view(scope_names@);
    let mut i: usize = scope_names.len();
    proof {
        assert(names.take(i as int) =~= names);
    }
    while i > 0
        invariant
            i <= scope_names.len(),
            names == strings_view(scope_names@),
            last_position(names, name@) == last_position(names.take(i as int), name@),
        decreases i,
    {
        i = i - 1;
        proof {
            assert(names.take(i + 1).last() == scope_names@[i as int]@);
            assert(names.take(i + 1).drop_last() =~= names.take(i as int));
        }
        if scope_names[i].as_str().eq(name) {
            return Some(i);
        }
    }
    None
}

/// Whether `name` is one of `names`.
pub fn contains_name(names: &Vec<String>, name: &str) -> (r: bool)
    ensures
        r == strings_view(names@).contains(name@),
{
    let mut i: usize = 0;
    while i < names.len()
        invariant
            i <= names.len(),
            forall|j: int| 0 <= j < i ==> strings_view(names@)[j] != name@,
        decreases names.len() - i,
    {
        if names[i].as_str().eq(name) {
            assert(strings_view(names@)[i as int] == name@);
            return true;
        }
        i = i + 1;
    }
    false
}

/// The characters of a string slice.
pub fn chars_of(s: &str) -> (r: Vec<char>)
    ensures
        r@ == s@,
{
    let mut out: Vec<char> = Vec::new();
    for c in it: s.chars()
        invariant
            out@ == s@.take(it.index() as int),
            it.seq() == s@,
    {
        out.push(c);
    }
    assert(s@.take(s@.len() as int) =~= s@);
    out
}

/// The string made of the characters of `chars` from position `from` up to,
/// not including, position `to`.
pub fn string_of(chars: &Vec<char>, from: usize, to: usize) -> (r: String)
    requires
        from <= to <= chars.len(),
    ensures
        r@ == chars@.subrange(from as int, to as int),
{
    let mut out = String::new();
    let mut i: usize = from;
    while i < to
        invariant
            from <= i <= to <= chars.len(),
            out@ == chars@.subrange(from as int, i as int),
        decreases to - i,
    {
        out.push(chars[i]);
        assert(chars@.subrange(from as int, i + 1) =~= chars@.subrange(from as int, i as int).push(
            chars@[i as int],
        ));
        i = i + 1;
    }
    out
}

/// The upper-case form of an ASCII lower-case letter; any other character
/// as it is.
pub open spec fn ascii_upper(c: char) -> char {
    if 'a' <= c <= 'z' {
        ((c as u8) - 32) as char
    } else {
        c
    }
}

/// The lower-case form of an ASCII upper-case letter; any other character
/// as it is.
pub open spec fn ascii_lower(c: char) -> char {
    if 'A' <= c <= 'Z' {
        ((c as u8) + 32) as char
    } else {
        c
    }
}

/// `s` with every ASCII upper-case letter in lower case.
pub open spec fn ascii_lowercase(s: Seq<char>) -> Seq<char> {
    Seq::new(s.len(), |i: int| ascii_lower(s[i]))
}

/// The upper-case form of an ASCII lower-case letter; any other character
/// as it is.
pub fn to_ascii_upper(c: char) -> (r: char)
    ensures
        r == ascii_upper(c),
{
    if c >= 'a' && c <= 'z' {
        ((c as u8) - 32) as char
    } else {
        c
    }
}

/// The lower-case form of an ASCII upper-case letter; any other character
/// as it is.
pub fn to_ascii_lower(c: char) -> (r: char)
    ensures
        r == ascii_lower(c),
{
    if c >= 'A' && c <= 'Z' {
        ((c as u8) + 32) as char
    } else {
        c
    }
}

/// `s` with every ASCII upper-case letter in lower case.
pub fn to_ascii_lowercase(s: &str) -> (r: String)
    ensures
        r@ == ascii_lowercase(s@),
{
    let mut out = String::new();
    for c in it: s.chars()
        invariant
            out@ == ascii_lowercase(s@).take(it.index() as int),
            it.seq() == s@,
    {
        out.push(to_ascii_lower(c));
        assert(ascii_lowercase(s@).take(it.index() + 1) =~= ascii_lowercase(s@).take(
            it.index() as int,
        ).push(ascii_lower(c)));
    }
    assert(ascii_lowercase(s@).take(s@.len() as int) =~= ascii_lowercase(s@));
    out
}

/// `s` in camel case, read from a state in which `upper` says whether the
/// next character follows a dash: every dash is left out, and the character
/// after a run of dashes stands in upper case.
pub open spec fn camel_from(s: Seq<char>, upper: bool) -> Seq<char>
    decreases s.len(),
{
    if s.len() == 0 {
        Seq::empty()
    } else if s[0] == '-' {
        camel_from(s.drop_first(), true)
    } else if upper {
        seq![ascii_upper(s[0])] + camel_from(s.drop_first(), false)
    } else {
        seq![s[0]] + camel_from(s.drop_first(), false)
    }
}

/// Turns a dashed name into camel case: `for-item` becomes `forItem`.
pub fn dash_to_camel(s: &str) -> (r: String)
    ensures
        r@ == camel_from(s@, false),
{
    let mut camel_name = String::new();
    let mut next_upper = false;
    proof {
        assert(s@.skip(0) =~= s@);
        assert(camel_name@ + camel_from(s@, false) =~= camel_from(s@, false));
    }
    for c in it: s.chars()
        invariant
            it.seq() == s@,
            camel_name@ + camel_from(s@.skip(it.index() as int), next_upper) == camel_from(s@, false),
    {
        let ghost rest = s@.skip(it.index() as int);
        let ghost before = camel_name@;
        let ghost was_upper = next_upper;
        proof {
            assert(rest[0] == c);
            assert(rest.drop_first() =~= s@.skip(it.index() + 1));
        }
        if c == '-' {
            next_upper = true;
        } else if next_upper {
            next_upper = false;
            camel_name.push(to_ascii_upper(c));
        } else {
            camel_name.push(c);
        }
        proof {
            let tail = camel_from(s@.skip(it.index() + 1), next_upper);
            if c != '-' {
                let put = if was_upper {
                    ascii_upper(c)
                } else {
                    c
                };
                assert(before.push(put) + tail =~= before + (seq![put] + tail));
            }
        }
    }
    proof {
        assert(s@.skip(s@.len() as int) =~= Seq::<char>::empty());
        assert(camel_name@ + Seq::<char>::empty() =~= camel_name@);
    }
    camel_name
}

/// The first position at which `c` stands in `s`.
pub open spec fn first_position(s: Seq<char>, c: char) -> Option<int>
    decreases s.len(),
{
    if s.len() == 0 {
        None
    } else if s[0] == c {
        Some(0)
    } else {
        match first_position(s.drop_first(), c) {
            Some(i) => Some(i + 1),
            None => None,
        }
    }
}

/// The first position at which `c` stands in `chars`.
pub fn find_char(chars: &Vec<char>, c: char) -> (r: Option<usize>)
    ensures
        match r {
            Some(i) => first_position(chars@, c) == Some(i as int) && i < chars.len(),
            None => first_position(chars@, c) is None,
        },
{
    let mut i: usize = 0;
    proof {
        assert(chars@.skip(0) =~= chars@);
    }
    while i < chars.len()
        invariant
            i <= chars.len(),
            first_position(chars@, c) == match first_position(chars@.skip(i as int), c) {
                Some(k) => Some(k + i),
                None => None,
            },
        decreases chars.len() - i,
    {
        proof {
            assert(chars@.skip(i as int)[0] == chars@[i as int]);
            assert(chars@.skip(i as int).drop_first() =~= chars@.skip(i + 1));
        }
        if chars[i] == c {
            return Some(i);
        }
        i = i + 1;
    }
    None
}

/// `s` ends with `suffix`.
pub open spec fn ends_with(s: Seq<char>, suffix: Seq<char>) -> bool {
    suffix.len() <= s.len() && s.skip(s.len() - suffix.len()) == suffix
}

/// `s` begins with `prefix`.
pub open spec fn starts_with(s: Seq<char>, prefix: Seq<char>) -> bool {
    prefix.len() <= s.len() && s.take(prefix.len() as int) == prefix
}

/// `s` without `suffix` at its end; `s` itself where it does not end so.
pub open spec fn without_suffix(s: Seq<char>, suffix: Seq<char>) -> Seq<char> {
    if ends_with(s, suffix) {
        s.take(s.len() - suffix.len())
    } else {
        s
    }
}

/// Whether the characters of `chars` from position `at` on begin with those
/// of `word`.
pub fn matches_at(chars: &Vec<char>, at: usize, word: &Vec<char>) -> (r: bool)
    requires
        at <= chars.len(),
    ensures
        r == starts_with(chars@.skip(at as int), word@),
{
    if word.len() > chars.len() - at {
        return false;
    }
    let mut i: usize = 0;
    while i < word.len()
        invariant
            i <= word.len(),
            at + word.len() <= chars.len(),
            forall|j: int| 0 <= j < i ==> chars@[at + j] == word@[j],
        decreases word.len() - i,
    {
        if chars[at + i] != word[i] {
            proof {
                let t = chars@.skip(at as int).take(word.len() as int);
                assert(t[i as int] != word@[i as int]);
            }
            return false;
        }
        i = i + 1;
    }
    assert(chars@.skip(at as int).take(word.len() as int) =~= word@);
    true
}

/// A copy of `s` without `suffix` at its end; of `s` itself where it does
/// not end so.
pub fn strip_suffix(s: &str, suffix: &str) -> (r: String)
    ensures
        r@ == without_suffix(s@, suffix@),
{
    let chars = chars_of(s);
    let word = chars_of(suffix);
    if word.len() <= chars.len() {
        let at = chars.len() - word.len();
        if matches_at(&chars, at, &word) {
            assert(chars@.skip(at as int).take(word.len() as int) =~= chars@.skip(at as int));
            assert(chars@.subrange(0, at as int) =~= chars@.take(at as int));
            return string_of(&chars, 0, at);
        }
        assert(chars@.skip(at as int).take(word.len() as int) =~= chars@.skip(at as int));
    }
    s.to_owned()
}

/// The character of a decimal digit.
pub open spec fn digit_char(d: nat) -> char {
    (('0' as u8) + d) as char
}

/// The decimal digits of `n`, without leading zeros.
pub open spec fn decimal(n: nat) -> Seq<char>
    decreases n,
{
    if n < 10 {
        seq![digit_char(n)]
    } else {
        decimal(n / 10).push(digit_char(n % 10))
    }
}

/// Appends the decimal digits of `n` to `s`.
pub fn push_decimal(s: &mut String, n: usize)
    ensures
        final(s)@ == old(s)@ + decimal(n as nat),
    decreases n,
{
    if n >= 10 {
        push_decimal(s, n / 10);
    }
    let d = (n % 10) as u8;
    s.push((48u8 + d) as char);
    proof {
        assert('0' as u8 == 48u8);
        if n >= 10 {
            assert(old(s)@ + decimal((n / 10) as nat).push(digit_char((n % 10) as nat)) =~= (old(
                s,
            )@ + decimal((n / 10) as nat)).push(digit_char((n % 10) as nat)));
        } else {
            assert(old(s)@ + seq![digit_char(n as nat)] =~= old(s)@.push(digit_char(n as nat)));
        }
    }
}

} // verus!
