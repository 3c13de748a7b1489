//! Small string operations with exact contracts over sequences of characters.

use vstd::prelude::*;

verus! {

/// The characters of an optional string.
pub open spec fn text_of(s: Option<String>) -> Option<Seq<char>> {
    match s {
        Some(t) => Some(t@),
        None => None,
    }
}

/// Whether `s` begins with `prefix`.
pub fn starts_with(s: &str, prefix: &str) -> (r: bool)
    ensures
        r == prefix@.is_prefix_of(s@),
{
    let n = prefix.unicode_len();
    let m = s.unicode_len();
    if n > m {
        return false;
    }
    let mut i: usize = 0;
    while i < n
        invariant
            i <= n,
            n <= m,
            n == prefix@.len(),
            m == s@.len(),
            forall|j: int| 0 <= j < i ==> s@[j] == prefix@[j],
        decreases n - i,
    {
        if s.get_char(i) != prefix.get_char(i) {
            assert(s@.subrange(0, n as int)[i as int] != prefix@[i as int]);
            return false;
        }
        i = i + 1;
    }
    assert(s@.subrange(0, n as int) =~= prefix@);
    true
}

/// Whether the character `c` occurs in `s`.
pub fn contains_char(s: &str, c: char) -> (r: bool)
    ensures
        r == s@.contains(c),
{
    let n = s.unicode_len();
    let mut i: usize = 0;
    while i < n
        invariant
            i <= n,
            n == s@.len(),
            forall|j: int| 0 <= j < i ==> s@[j] != c,
        decreases n - i,
    {
        if s.get_char(i) == c {
            return true;
        }
        i = i + 1;
    }
    false
}

/// Whether the last character of `s` is `c`.
pub fn ends_with_char(s: &str, c: char) -> (r: bool)
    ensures
        r == (s@.len() > 0 && s@.last() == c),
{
    let n = s.unicode_len();
    if n == 0 {
        false
    } else {
        s.get_char(n - 1) == c
    }
}

/// Whether two strings hold the same characters.
pub fn same_text(a: &str, b: &str) -> (r: bool)
    ensures
        r == (a@ == b@),
{
    let n = a.unicode_len();
    if n != b.unicode_len() {
        return false;
    }
    let mut i: usize = 0;
    while i < n
        invariant
            i <= n,
            n == a@.len(),
            n == b@.len(),
            forall|j: int| 0 <= j < i ==> a@[j] == b@[j],
        decreases n - i,
    {
        if a.get_char(i) != b.get_char(i) {
            return false;
        }
        i = i + 1;
    }
    assert(a@ =~= b@);
    true
}

/// The two pieces joined in order.
pub fn join2(a: &str, b: &str) -> (r: String)
    ensures
        r@ == a@ + b@,
{
    a.to_owned().concat(b)
}

/// The three pieces joined in order.
pub fn join3(a: &str, b: &str, c: &str) -> (r: String)
    ensures
        r@ == a@ + b@ + c@,
{
    a.to_owned().concat(b).concat(c)
}

/// The four pieces joined in order.
pub fn join4(a: &str, b: &str, c: &str, d: &str) -> (r: String)
    ensures
        r@ == a@ + b@ + c@ + d@,
{
    a.to_owned().concat(b).concat(c).concat(d)
}

/// Whether a character is white space, as `char::is_whitespace` reports it.
pub uninterp spec fn is_whitespace(c: char) -> bool;

/// `char::is_whitespace`: whether the character has the Unicode property
/// `White_Space`.
#[verifier::external_body]
fn char_is_whitespace(c: char) -> (r: bool)
    ensures
        r == is_whitespace(c),
{
    c.is_whitespace()
}

/// The text without the white space it begins with.
pub open spec fn without_leading_space(s: Seq<char>) -> Seq<char>
    decreases s.len(),
{
    if s.len() > 0 && is_whitespace(s[0]) {
        without_leading_space(s.drop_first())
    } else {
        s
    }
}

/// The text without the white space it ends with.
pub open spec fn without_trailing_space(s: Seq<char>) -> Seq<char>
    decreases s.len(),
{
    if s.len() > 0 && is_whitespace(s.last()) {
        without_trailing_space(s.drop_last())
    } else {
        s
    }
}

/// The text without the white space at either end.
pub open spec fn trimmed(s: Seq<char>) -> Seq<char> {
    without_trailing_space(without_leading_space(s))
}

/// The text without the white space at either end.
pub fn trim(s: &str) -> (r: &str)
    ensures
        r@ == trimmed(s@),
{
    let n = s.unicode_len();
    let mut from: usize = 0;
    assert(s@.subrange(0, n as int) =~= s@);
    while from < n && char_is_whitespace(s.get_char(from))
        invariant
            from <= n,
            n == s@.len(),
            without_leading_space(s@) == without_leading_space(s@.subrange(from as int, n as int)),
        decreases n - from,
    {
        proof {
            let rest = s@.subrange(from as int, n as int);
            assert(rest[0] == s@[from as int]);
            assert(rest.drop_first() =~= s@.subrange(from as int + 1, n as int));
        }
        from = from + 1;
    }
    let ghost body = s@.subrange(from as int, n as int);
    proof {
        assert(s@.subrange(0, n as int) =~= s@);
        if from < n {
            assert(body[0] == s@[from as int]);
        }
        assert(without_leading_space(s@) == body);
    }
    let mut to: usize = n;
    while to > from && char_is_whitespace(s.get_char(to - 1))
        invariant
            from <= to <= n,
            n == s@.len(),
            body == s@.subrange(from as int, n as int),
            without_trailing_space(body) == without_trailing_space(
                s@.subrange(from as int, to as int),
            ),
        decreases to - from,
    {
        proof {
            let rest = s@.subrange(from as int, to as int);
            assert(rest.last() == s@[to as int - 1]);
            assert(rest.drop_last() =~= s@.subrange(from as int, to as int - 1));
        }
        to = to - 1;
    }
    proof {
        let rest = s@.subrange(from as int, to as int);
        if to > from {
            assert(rest.last() == s@[to as int - 1]);
        }
        assert(without_trailing_space(rest) == rest);
    }
    s.substring_char(from, to)
}


/// The words of a text: its longest runs of characters that are not white
/// space, in order.
pub open spec fn words(s: Seq<char>) -> Seq<Seq<char>>
    decreases s.len(),
{
    if s.len() == 0 {
        Seq::empty()
    } else {
        let before = words(s.drop_last());
        if is_whitespace(s.last()) {
            before
        } else if s.len() >= 2 && !is_whitespace(s[s.len() - 2]) && before.len() > 0 {
            before.drop_last().push(before.last().push(s.last()))
        } else {
            before.push(seq![s.last()])
        }
    }
}

/// The words of a text: its longest runs of characters that are not white
/// space, in order.
pub fn split_words(s: &str) -> (r: Vec<String>)
    ensures
        r.deep_view() == words(s@),
{
    let n = s.unicode_len();
    let mut out: Vec<String> = Vec::new();
    let mut start: usize = 0;
    let mut inside = false;
    let mut i: usize = 0;
    assert(s@.take(0) =~= Seq::<char>::empty());
    while i < n
        invariant
            i <= n,
            n == s@.len(),
            inside ==> start < i && !is_whitespace(s@[i as int - 1]),
            !inside && i > 0 ==> is_whitespace(s@[i as int - 1]),
            words(s@.take(i as int)) == if inside {
                out.deep_view().push(s@.subrange(start as int, i as int))
            } else {
                out.deep_view()
            },
        decreases n - i,
    {
        let c = s.get_char(i);
        let ghost prefix = s@.take(i as int + 1);
        proof {
            assert(prefix.drop_last() =~= s@.take(i as int));
            assert(prefix.last() == c);
            if i > 0 {
                assert(prefix[prefix.len() - 2] == s@[i as int - 1]);
            }
        }
        if char_is_whitespace(c) {
            if inside {
                let ghost before = out.deep_view();
                out.push(s.substring_char(start, i).to_owned());
                assert(out.deep_view() =~= before.push(s@.subrange(start as int, i as int)));
                inside = false;
            }
        } else {
            if !inside {
                start = i;
                inside = true;
                assert(s@.subrange(i as int, i as int + 1) =~= seq![c]);
            } else {
                let ghost before = words(s@.take(i as int));
                assert(before.drop_last() =~= out.deep_view());
                assert(before.last().push(c) =~= s@.subrange(start as int, i as int + 1));
            }
        }
        i = i + 1;
    }
    assert(s@.take(n as int) =~= s@);
    if inside {
        let ghost before = out.deep_view();
        out.push(s.substring_char(start, n).to_owned());
        assert(out.deep_view() =~= before.push(s@.subrange(start as int, n as int)));
    }
    out
}

/// The pieces in order with a separator between each two.
pub open spec fn joined(parts: Seq<Seq<char>>, separator: Seq<char>) -> Seq<char>
    decreases parts.len(),
{
    if parts.len() == 0 {
        Seq::empty()
    } else if parts.len() == 1 {
        parts[0]
    } else {
        joined(parts.drop_last(), separator) + separator + parts.last()
    }
}

/// The pieces from position `from` on, in order, with a separator between
/// each two.
pub fn join_from(parts: &Vec<String>, from: usize, separator: &str) -> (r: String)
    requires
        from <= parts@.len(),
    ensures
        r@ == joined(parts.deep_view().skip(from as int), separator@),
{
    let mut out = String::new();
    let mut i: usize = from;
    let ghost tail = parts.deep_view().skip(from as int);
    assert(tail.take(0) =~= Seq::<Seq<char>>::empty());
    while i < parts.len()
        invariant
            from <= i <= parts@.len(),
            tail == parts.deep_view().skip(from as int),
            out@ == joined(tail.take(i - from), separator@),
        decreases parts@.len() - i,
    {
        proof {
            assert(tail.take(i - from + 1).drop_last() =~= tail.take(i - from));
            assert(tail.take(i - from + 1).last() == parts@[i as int]@);
            if i == from {
                assert(out@ =~= Seq::<char>::empty());
                assert(Seq::<char>::empty() + parts@[i as int]@ =~= parts@[i as int]@);
            }
        }
        if i > from {
            out.append(separator);
        }
        out.append(parts[i].as_str());
        i = i + 1;
    }
    assert(tail.take(i - from) =~= tail);
    out
}

} // verus!
