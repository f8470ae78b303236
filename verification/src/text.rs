//! Character and string helpers: ASCII lowercasing, string equality,
//! the attribute-name rule, and the token sets of the enumerated fields.

use vstd::prelude::*;

verus! {

/// ASCII lowercasing of one character: `A`..`Z` map to `a`..`z`,
/// everything else is unchanged.
pub open spec fn lower_char(c: char) -> char {
    if 'A' <= c && c <= 'Z' {
        ((c as u32) + 32) as char
    } else {
        c
    }
}

/// ASCII lowercasing of a whole string.
pub open spec fn lower(s: Seq<char>) -> Seq<char> {
    s.map_values(|c: char| lower_char(c))
}

pub open spec fn is_alpha(c: char) -> bool {
    ('A' <= c && c <= 'Z') || ('a' <= c && c <= 'z')
}

pub open spec fn is_digit(c: char) -> bool {
    '0' <= c && c <= '9'
}

/// A character allowed after the first one of an attribute name.
pub open spec fn is_name_char(c: char) -> bool {
    is_alpha(c) || is_digit(c) || c == '_' || c == '$' || c == '-'
}

/// The lexical rule for attribute names: a letter, then letters, digits,
/// `_`, `$` or `-`.
pub open spec fn valid_name(s: Seq<char>) -> bool {
    &&& s.len() > 0
    &&& is_alpha(s[0])
    &&& forall|i: int| 1 <= i < s.len() ==> is_name_char(#[trigger] s[i])
}

fn lower_char_exec(c: char) -> (r: char)
    ensures
        r == lower_char(c),
{
    let u = c as u32;
    if 65 <= u && u <= 90 {
        assert((u + 32) as u8 == u + 32) by (bit_vector)
            requires
                65 <= u && u <= 90,
        ;
        ((u + 32) as u8) as char
    } else {
        c
    }
}

/// Equality of two string slices, decided character by character.
pub fn str_eq(a: &str, b: &str) -> (r: bool)
    ensures
        r == (a@ == b@),
{
    let n = a.unicode_len();
    if n != b.unicode_len() {
        return false;
    }
    let mut i: usize = 0;
    while i < n
        invariant
            n == a@.len(),
            n == b@.len(),
            i <= n,
            forall|j: int| 0 <= j < i ==> a@[j] == b@[j],
        decreases n - i,
    {
        if a.get_char(i) != b.get_char(i) {
            return false;
        }
        i += 1;
    }
    proof {
        assert(a@ =~= b@);
    }
    true
}

/// Relies on `String::push`: appends the given character to the end of
/// the string.
#[verifier::external_body]
fn push_char(s: &mut String, c: char)
    ensures
        final(s)@ == old(s)@.push(c),
{
    s.push(c);
}

/// ASCII-lowercases a string.
pub fn to_lower(s: &str) -> (r: String)
    ensures
        r@ == lower(s@),
{
    let n = s.unicode_len();
    let mut r = String::new();
    let mut i: usize = 0;
    while i < n
        invariant
            n == s@.len(),
            i <= n,
            r@ == lower(s@.take(i as int)),
        decreases n - i,
    {
        let c = s.get_char(i);
        push_char(&mut r, lower_char_exec(c));
        proof {
            assert(s@.take(i + 1 as int) =~= s@.take(i as int).push(s@[i as int]));
            assert(lower(s@.take(i as int)).push(lower_char(s@[i as int])) =~= lower(
                s@.take(i + 1 as int),
            ));
        }
        i += 1;
    }
    proof {
        assert(s@.take(n as int) =~= s@);
    }
    r
}

/// Whether the string obeys the attribute-name rule.
pub fn is_valid_name(s: &str) -> (r: bool)
    ensures
        r == valid_name(s@),
{
    let n = s.unicode_len();
    if n == 0 {
        return false;
    }
    let c0 = s.get_char(0) as u32;
    if !((65 <= c0 && c0 <= 90) || (97 <= c0 && c0 <= 122)) {
        return false;
    }
    let mut i: usize = 1;
    while i < n
        invariant
            n == s@.len(),
            1 <= i <= n,
            forall|j: int| 1 <= j < i ==> is_name_char(#[trigger] s@[j]),
        decreases n - i,
    {
        let u = s.get_char(i) as u32;
        let ok = (65 <= u && u <= 90) || (97 <= u && u <= 122) || (48 <= u && u <= 57) || u == 95
            || u == 36 || u == 45;
        if !ok {
            return false;
        }
        i += 1;
    }
    true
}

/// The eight data-type kinds, in lowercase.
pub open spec fn is_valid_type_name(s: Seq<char>) -> bool {
    ||| s == "string"@
    ||| s == "boolean"@
    ||| s == "decimal"@
    ||| s == "integer"@
    ||| s == "datetime"@
    ||| s == "binary"@
    ||| s == "reference"@
    ||| s == "complex"@
}

pub open spec fn is_valid_mutability_name(s: Seq<char>) -> bool {
    ||| s == "readonly"@
    ||| s == "readwrite"@
    ||| s == "immutable"@
    ||| s == "writeonly"@
}

pub open spec fn is_valid_returned_name(s: Seq<char>) -> bool {
    ||| s == "always"@
    ||| s == "never"@
    ||| s == "default"@
    ||| s == "request"@
}

pub open spec fn is_valid_uniqueness_name(s: Seq<char>) -> bool {
    ||| s == "none"@
    ||| s == "server"@
    ||| s == "global"@
}

pub fn is_valid_type(s: &str) -> (r: bool)
    ensures
        r == is_valid_type_name(s@),
{
    str_eq(s, "string") || str_eq(s, "boolean") || str_eq(s, "decimal") || str_eq(s, "integer")
        || str_eq(s, "datetime") || str_eq(s, "binary") || str_eq(s, "reference") || str_eq(
        s,
        "complex",
    )
}

pub fn is_valid_mutability(s: &str) -> (r: bool)
    ensures
        r == is_valid_mutability_name(s@),
{
    str_eq(s, "readonly") || str_eq(s, "readwrite") || str_eq(s, "immutable") || str_eq(
        s,
        "writeonly",
    )
}

pub fn is_valid_returned(s: &str) -> (r: bool)
    ensures
        r == is_valid_returned_name(s@),
{
    str_eq(s, "always") || str_eq(s, "never") || str_eq(s, "default") || str_eq(s, "request")
}

pub fn is_valid_uniqueness(s: &str) -> (r: bool)
    ensures
        r == is_valid_uniqueness_name(s@),
{
    str_eq(s, "none") || str_eq(s, "server") || str_eq(s, "global")
}

/// Whether `val` occurs in `list`, compared by contents.
pub fn exists_in(val: &String, list: &Vec<String>) -> (r: bool)
    ensures
        r == list.deep_view().contains(val@),
{
    let mut i: usize = 0;
    while i < list.len()
        invariant
            i <= list@.len(),
            forall|j: int| 0 <= j < i ==> list.deep_view()[j] != val@,
        decreases list@.len() - i,
    {
        if str_eq(val.as_str(), list[i].as_str()) {
            assert(list.deep_view()[i as int] == val@);
            return true;
        }
        i += 1;
    }
    assert(forall|j: int| 0 <= j < list.deep_view().len() ==> list.deep_view()[j] != val@);
    false
}

} // verus!
