//! Texts: comparing them, and the local name of an identifier.

use vstd::prelude::*;
use vstd::std_specs::iter::IteratorSpec;

verus! {

/// The characters of a string that may be absent.
pub open spec fn option_view(text: Option<&str>) -> Option<Seq<char>> {
    match text {
        Some(s) => Some(s@),
        None => None,
    }
}

/// Whether two strings hold the same characters.
pub fn str_eq(a: &str, b: &str) -> (same: bool)
    ensures
        same == (a@ == b@),
{
    let mut left = a.chars();
    let mut right = b.chars();
    let ghost mut done: int = 0;
    loop
        invariant
            0 <= done <= a@.len(),
            done <= b@.len(),
            left.remaining() == a@.skip(done),
            right.remaining() == b@.skip(done),
            a@.take(done) == b@.take(done),
        decreases a@.len() - done,
    {
        let x = left.next();
        let y = right.next();
        match (x, y) {
            (Some(c), Some(d)) => {
                if c != d {
                    assert(a@[done] != b@[done]);
                    return false;
                }
                proof {
                    assert(a@.take(done + 1) =~= a@.take(done).push(c));
                    assert(b@.take(done + 1) =~= b@.take(done).push(d));
                    assert(a@.skip(done + 1) =~= a@.skip(done).drop_first());
                    assert(b@.skip(done + 1) =~= b@.skip(done).drop_first());
                    done = done + 1;
                }
            },
            (None, None) => {
                proof {
                    assert(a@ =~= a@.take(done));
                    assert(b@ =~= b@.take(done));
                }
                return true;
            },
            _ => {
                assert(a@.len() != b@.len());
                return false;
            },
        }
    }
}

/// Whether `text` begins with the characters of `prefix`.
pub fn starts_with(text: &str, prefix: &str) -> (begins: bool)
    ensures
        begins == prefix@.is_prefix_of(text@),
{
    let mut wanted = prefix.chars();
    let mut given = text.chars();
    let ghost mut done: int = 0;
    loop
        invariant
            0 <= done <= prefix@.len(),
            done <= text@.len(),
            wanted.remaining() == prefix@.skip(done),
            given.remaining() == text@.skip(done),
            prefix@.take(done) == text@.take(done),
        decreases prefix@.len() - done,
    {
        match wanted.next() {
            None => {
                proof {
                    assert(prefix@ =~= prefix@.take(done));
                }
                return true;
            },
            Some(c) => {
                match given.next() {
                    None => {
                        return false;
                    },
                    Some(d) => {
                        if c != d {
                            proof {
                                if prefix@.len() <= text@.len() {
                                    assert(prefix@[done] != text@.subrange(
                                        0,
                                        prefix@.len() as int,
                                    )[done]);
                                }
                            }
                            return false;
                        }
                        proof {
                            assert(prefix@.take(done + 1) =~= prefix@.take(done).push(c));
                            assert(text@.take(done + 1) =~= text@.take(done).push(d));
                            assert(prefix@.skip(done + 1) =~= prefix@.skip(done).drop_first());
                            assert(text@.skip(done + 1) =~= text@.skip(done).drop_first());
                            done = done + 1;
                        }
                    },
                }
            },
        }
    }
}

/// The characters that end a namespace: what follows the last of them is the local name.
pub open spec fn is_separator(c: char) -> bool {
    c == '/' || c == '#' || c == ':'
}

/// The position just behind the last separator of `s`, and 0 where it holds none.
pub open spec fn local_start(s: Seq<char>) -> int
    decreases s.len(),
{
    if s.len() == 0 {
        0
    } else if is_separator(s.last()) {
        s.len() as int
    } else {
        local_start(s.drop_last())
    }
}

/// What follows the last separator of `s`; all of `s` where it holds none.
pub open spec fn local_part(s: Seq<char>) -> Seq<char> {
    s.skip(local_start(s))
}

/// The local part is the one suffix of `s` that holds no separator and is either all of
/// `s` or preceded by a separator.
pub proof fn lemma_local_part(s: Seq<char>)
    ensures
        0 <= local_start(s) <= s.len(),
        s == s.take(local_start(s)) + local_part(s),
        forall|i: int| 0 <= i < local_part(s).len() ==> !is_separator(#[trigger] local_part(s)[i]),
        local_start(s) > 0 ==> is_separator(s[local_start(s) - 1]),
        (forall|i: int| 0 <= i < s.len() ==> !is_separator(#[trigger] s[i])) ==> local_part(s) == s,
{
    lemma_local_start(s);
    let cut = local_start(s);
    assert(s =~= s.take(cut) + s.skip(cut));
    if forall|i: int| 0 <= i < s.len() ==> !is_separator(#[trigger] s[i]) {
        assert(cut == 0);
        assert(s.skip(0) =~= s);
    }
}

/// What `local_start` finds: a position just behind a separator, or 0, with no separator
/// behind it.
pub proof fn lemma_local_start(s: Seq<char>)
    ensures
        0 <= local_start(s) <= s.len(),
        local_start(s) > 0 ==> is_separator(s[local_start(s) - 1]),
        forall|i: int| local_start(s) <= i < s.len() ==> !is_separator(#[trigger] s[i]),
    decreases s.len(),
{
    if s.len() > 0 && !is_separator(s.last()) {
        lemma_local_start(s.drop_last());
        assert forall|i: int| local_start(s) <= i < s.len() implies !is_separator(
            #[trigger] s[i],
        ) by {
            if i < s.len() - 1 {
                assert(s.drop_last()[i] == s[i]);
            }
        }
    }
}

/// The local name of an identifier: what follows its last `/`, `#` or `:`.
pub fn local_name(identifier: &str) -> (name: String)
    ensures
        name@ == local_part(identifier@),
{
    let len = identifier.unicode_len();
    let mut chars = identifier.chars();
    let mut start: usize = 0;
    let mut seen: usize = 0;
    assert(identifier@.take(0) =~= Seq::empty());
    while seen < len
        invariant
            seen <= len == identifier@.len(),
            start == local_start(identifier@.take(seen as int)),
            start <= seen,
            chars.remaining() == identifier@.skip(seen as int),
        decreases len - seen,
    {
        let next = chars.next();
        proof {
            assert(identifier@.skip(seen + 1) =~= identifier@.skip(seen as int).drop_first());
            assert(identifier@.take(seen + 1).drop_last() =~= identifier@.take(seen as int));
            assert(identifier@.take(seen + 1).last() == identifier@[seen as int]);
        }
        seen = seen + 1;
        match next {
            Some(c) => {
                if c == '/' || c == '#' || c == ':' {
                    start = seen;
                }
            },
            None => {},
        }
    }
    assert(identifier@.take(len as int) =~= identifier@);
    identifier.substring_char(start, len).to_owned()
}

} // verus!
