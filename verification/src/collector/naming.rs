use vstd::prelude::*;

use crate::text::{chars_of, string_from_chars};

verus! {

/// How one character of a metric name is normalized: lowercase ASCII letters,
/// digits, `.` and `_` stay, uppercase ASCII letters are lowercased, anything
/// else becomes `_`.
pub open spec fn normalize_char(c: char) -> char {
    if ('a' <= c && c <= 'z') || ('0' <= c && c <= '9') || c == '.' || c == '_' {
        c
    } else if 'A' <= c && c <= 'Z' {
        ((c as u32) + 32) as char
    } else {
        '_'
    }
}

fn normalize_one(c: char) -> (r: char)
    ensures
        r == normalize_char(c),
{
    if ('a' <= c && c <= 'z') || ('0' <= c && c <= '9') || c == '.' || c == '_' {
        c
    } else if 'A' <= c && c <= 'Z' {
        let code = (c as u32) + 32;
        (code as u8) as char
    } else {
        '_'
    }
}

/// A metric name with every character normalized (see `normalize_char`).
pub fn normalize_name(raw: &str) -> (out: String)
    ensures
        out@ == raw@.map_values(|c: char| normalize_char(c)),
{
    let cs = chars_of(raw);
    let mut mapped: Vec<char> = Vec::new();
    let mut i: usize = 0;
    while i < cs.len()
        invariant
            i <= cs@.len(),
            cs@ == raw@,
            mapped@ == cs@.subrange(0, i as int).map_values(|c: char| normalize_char(c)),
        decreases cs@.len() - i,
    {
        mapped.push(normalize_one(cs[i]));
        i = i + 1;
        assert(mapped@ =~= cs@.subrange(0, i as int).map_values(|c: char| normalize_char(c)));
    }
    assert(cs@.subrange(0, i as int) =~= cs@);
    string_from_chars(&mapped)
}

/// Law: a normalized name is left as it is by normalizing it again.
pub proof fn lemma_normalize_idempotent(raw: Seq<char>)
    ensures
        raw.map_values(|c: char| normalize_char(c)).map_values(|c: char| normalize_char(c)) == raw.map_values(
            |c: char| normalize_char(c),
        ),
{
    let once = raw.map_values(|c: char| normalize_char(c));
    assert forall|i: int| 0 <= i < once.len() implies #[trigger] normalize_char(once[i]) == once[i] by {
        let c = raw[i];
        if 'A' <= c && c <= 'Z' {
            assert(((c as u32) + 32) as char >= 'a');
        }
    }
    assert(once.map_values(|c: char| normalize_char(c)) =~= once);
}

} // verus!
