//! Character and string utilities shared by the whole crate.
//!
//! Strings are modelled by their sequence of characters. The executable
//! functions walk a string once, work on indices into its characters, and
//! build their result character by character.

use vstd::prelude::*;

verus! {

/// `String::push` appends one character to the end of the string.
pub assume_specification[ String::push ](s: &mut String, c: char)
    ensures
        final(s)@ == old(s)@.push(c),
;

/// Character classes that the text functions strip from the ends of a string.
#[derive(Debug, Clone, Copy, PartialEq, Eq)]
pub enum CharClass {
    /// Code points with the Unicode `White_Space` property.
    Whitespace,
    /// `(` and its full-width form.
    OpenParen,
    /// `)` and its full-width form.
    CloseParen,
}

/// The code points that carry the Unicode `White_Space` property.
pub open spec fn is_whitespace(c: char) -> bool {
    let n = c as u32;
    ||| 0x09 <= n <= 0x0D
    ||| n == 0x20
    ||| n == 0x85
    ||| n == 0xA0
    ||| n == 0x1680
    ||| 0x2000 <= n <= 0x200A
    ||| n == 0x2028
    ||| n == 0x2029
    ||| n == 0x202F
    ||| n == 0x205F
    ||| n == 0x3000
}

/// Membership of a character in a class.
pub open spec fn in_class(class: CharClass, c: char) -> bool {
    match class {
        CharClass::Whitespace => is_whitespace(c),
        CharClass::OpenParen => c == '(' || c == '\u{FF08}',
        CharClass::CloseParen => c == ')' || c == '\u{FF09}',
    }
}

/// `s` without its longest prefix of characters of `class`.
pub open spec fn skip_leading(s: Seq<char>, class: CharClass) -> Seq<char>
    decreases s.len(),
{
    if s.len() > 0 && in_class(class, s[0]) {
        skip_leading(s.drop_first(), class)
    } else {
        s
    }
}

/// `s` without its longest suffix of characters of `class`.
pub open spec fn skip_trailing(s: Seq<char>, class: CharClass) -> Seq<char>
    decreases s.len(),
{
    if s.len() > 0 && in_class(class, s.last()) {
        skip_trailing(s.drop_last(), class)
    } else {
        s
    }
}

/// `s` without leading and trailing whitespace.
pub open spec fn trim(s: Seq<char>) -> Seq<char> {
    skip_trailing(skip_leading(s, CharClass::Whitespace), CharClass::Whitespace)
}

/// `s` without trailing whitespace.
pub open spec fn trim_end(s: Seq<char>) -> Seq<char> {
    skip_trailing(s, CharClass::Whitespace)
}

/// Every character of `s` is whitespace.
pub open spec fn all_whitespace(s: Seq<char>) -> bool {
    forall|i: int| 0 <= i < s.len() ==> is_whitespace(#[trigger] s[i])
}

/// `s` is not empty and its last character is whitespace.
pub open spec fn ends_with_whitespace(s: Seq<char>) -> bool {
    s.len() > 0 && is_whitespace(s.last())
}

/// The words of `s`, joined by single spaces: leading and trailing whitespace
/// is dropped and every inner run of whitespace becomes one `' '`.
///
/// The definition reads `s` from the left, one character at a time: a
/// whitespace character adds nothing, and a character that starts a new word
/// after an earlier word is preceded by one space.
pub open spec fn normalize_whitespace(s: Seq<char>) -> Seq<char>
    decreases s.len(),
{
    if s.len() == 0 {
        Seq::<char>::empty()
    } else {
        let c = s.last();
        let before = s.drop_last();
        let done = normalize_whitespace(before);
        if is_whitespace(c) {
            done
        } else if before.len() > 0 && is_whitespace(before.last()) && done.len() > 0 {
            done.push(' ').push(c)
        } else {
            done.push(c)
        }
    }
}

/// A string that whitespace normalization leaves as it is: it neither starts
/// nor ends with whitespace, and each whitespace character in it is a single
/// `' '` between two other characters.
pub open spec fn is_normalized(s: Seq<char>) -> bool {
    &&& s.len() > 0 ==> !is_whitespace(s[0]) && !is_whitespace(s.last())
    &&& forall|i: int|
        0 <= i < s.len() && is_whitespace(#[trigger] s[i]) ==> s[i] == ' ' && i + 1 < s.len()
            && !is_whitespace(s[i + 1])
}

/// Normalization produces a normalized string.
pub proof fn lemma_normalize_is_normalized(s: Seq<char>)
    ensures
        is_normalized(normalize_whitespace(s)),
    decreases s.len(),
{
    if s.len() > 0 {
        let c = s.last();
        let before = s.drop_last();
        let done = normalize_whitespace(before);
        lemma_normalize_is_normalized(before);
        let r = normalize_whitespace(s);
        if is_whitespace(c) {
        } else if before.len() > 0 && is_whitespace(before.last()) && done.len() > 0 {
            assert(r == done.push(' ').push(c));
            assert forall|i: int| 0 <= i < r.len() && is_whitespace(#[trigger] r[i]) implies r[i]
                == ' ' && i + 1 < r.len() && !is_whitespace(r[i + 1]) by {
                if i < done.len() {
                    assert(r[i] == done[i]);
                    assert(r[i + 1] == done[i + 1]);
                } else if i == done.len() {
                    assert(r[i + 1] == c);
                }
            }
            assert(r[0] == done[0]);
        } else {
            assert(r == done.push(c));
            assert forall|i: int| 0 <= i < r.len() && is_whitespace(#[trigger] r[i]) implies r[i]
                == ' ' && i + 1 < r.len() && !is_whitespace(r[i + 1]) by {
                if i < done.len() {
                    assert(r[i] == done[i]);
                    if i + 1 < done.len() {
                        assert(r[i + 1] == done[i + 1]);
                    }
                }
            }
            if done.len() > 0 {
                assert(r[0] == done[0]);
            }
        }
    }
}

/// A normalized string is a fixed point of normalization.
pub proof fn lemma_normalized_is_fixed(s: Seq<char>)
    requires
        is_normalized(s),
    ensures
        normalize_whitespace(s) == s,
    decreases s.len(),
{
    if s.len() > 0 {
        let c = s.last();
        let before = s.drop_last();
        assert(!is_whitespace(c));
        if before.len() > 0 && is_whitespace(before.last()) {
            let inner = before.drop_last();
            assert(before.last() == s[s.len() - 2]);
            assert(s[s.len() - 2] == ' ');
            // the character before the space is no whitespace, and there is one
            assert(inner.len() > 0) by {
                if inner.len() == 0 {
                    assert(s[0] == before.last());
                }
            }
            assert(!is_whitespace(inner.last())) by {
                let j = s.len() - 3;
                assert(inner.last() == s[j]);
                if is_whitespace(s[j]) {
                    assert(!is_whitespace(s[j + 1]));
                }
            }
            assert(is_normalized(inner)) by {
                assert(inner[0] == s[0]);
                assert forall|i: int|
                    0 <= i < inner.len() && is_whitespace(#[trigger] inner[i]) implies inner[i]
                    == ' ' && i + 1 < inner.len() && !is_whitespace(inner[i + 1]) by {
                    assert(inner[i] == s[i]);
                    assert(!is_whitespace(s[i + 1]));
                    assert(i + 1 < inner.len());
                    assert(inner[i + 1] == s[i + 1]);
                }
            }
            lemma_normalized_is_fixed(inner);
            assert(normalize_whitespace(before) == inner);
            assert(s =~= inner.push(' ').push(c));
        } else {
            assert(is_normalized(before)) by {
                if before.len() > 0 {
                    assert(before[0] == s[0]);
                }
                assert forall|i: int|
                    0 <= i < before.len() && is_whitespace(#[trigger] before[i]) implies before[i]
                    == ' ' && i + 1 < before.len() && !is_whitespace(before[i + 1]) by {
                    assert(before[i] == s[i]);
                    assert(!is_whitespace(s[i + 1]));
                    assert(before[i + 1] == s[i + 1]);
                }
            }
            lemma_normalized_is_fixed(before);
            assert(s =~= before.push(c));
        }
    }
}

/// Whitespace normalization is idempotent.
pub proof fn lemma_normalize_idempotent(s: Seq<char>)
    ensures
        normalize_whitespace(normalize_whitespace(s)) == normalize_whitespace(s),
{
    lemma_normalize_is_normalized(s);
    lemma_normalized_is_fixed(normalize_whitespace(s));
}

/// The index of the first `x` in `s`, or the length of `s` if there is none.
pub open spec fn index_of<A>(s: Seq<A>, x: A) -> int
    decreases s.len(),
{
    if s.len() == 0 {
        0
    } else if s[0] == x {
        0
    } else {
        1 + index_of(s.drop_first(), x)
    }
}

/// `index_of` finds the first occurrence: nothing before it is `x`.
pub proof fn lemma_index_of<A>(s: Seq<A>, x: A)
    ensures
        0 <= index_of(s, x) <= s.len(),
        index_of(s, x) < s.len() ==> s[index_of(s, x)] == x,
        forall|j: int| 0 <= j < index_of(s, x) ==> s[j] != x,
    decreases s.len(),
{
    if s.len() > 0 && s[0] != x {
        let t = s.drop_first();
        lemma_index_of(t, x);
        assert forall|j: int| 0 <= j < index_of(s, x) implies s[j] != x by {
            if j > 0 {
                assert(s[j] == t[j - 1]);
            }
        }
    }
}

/// An index with nothing equal to `x` before it, which holds `x` or is the
/// length of `s`, is `index_of(s, x)`.
pub proof fn lemma_index_of_is<A>(s: Seq<A>, x: A, k: int)
    requires
        0 <= k <= s.len(),
        forall|j: int| 0 <= j < k ==> s[j] != x,
        k < s.len() ==> s[k] == x,
    ensures
        index_of(s, x) == k,
{
    lemma_index_of(s, x);
    let i = index_of(s, x);
    if i < k {
        assert(s[i] != x);
    }
}

/// Tells whether a character has the Unicode `White_Space` property.
pub fn char_is_whitespace(c: char) -> (r: bool)
    ensures
        r == is_whitespace(c),
{
    let n: u32 = c as u32;
    (0x09 <= n && n <= 0x0D) || n == 0x20 || n == 0x85 || n == 0xA0 || n == 0x1680 || (0x2000 <= n
        && n <= 0x200A) || n == 0x2028 || n == 0x2029 || n == 0x202F || n == 0x205F || n == 0x3000
}

/// Tells whether a character belongs to a class.
pub fn char_in_class(class: CharClass, c: char) -> (r: bool)
    ensures
        r == in_class(class, c),
{
    match class {
        CharClass::Whitespace => char_is_whitespace(c),
        CharClass::OpenParen => c == '(' || c == '\u{FF08}',
        CharClass::CloseParen => c == ')' || c == '\u{FF09}',
    }
}

/// The characters of a string slice, in order.
pub fn chars_of(s: &str) -> (r: Vec<char>)
    ensures
        r@ == s@,
{
    let mut out: Vec<char> = Vec::new();
    for c in it: s.chars()
        invariant
            out@ == it.seq().subrange(0, it.index() as int),
            it.seq() == s@,
    {
        out.push(c);
    }
    out
}

/// The string made of the characters `v[from..to]`.
pub fn string_of_range(v: &Vec<char>, from: usize, to: usize) -> (r: String)
    requires
        from <= to <= v.len(),
    ensures
        r@ == v@.subrange(from as int, to as int),
{
    let mut out = String::new();
    let mut i: usize = from;
    while i < to
        invariant
            from <= i <= to <= v.len(),
            out@ == v@.subrange(from as int, i as int),
        decreases to - i,
    {
        out.push(v[i]);
        i += 1;
    }
    out
}

/// The first index at or after `from` whose character is not of `class`.
pub fn leading_end(v: &Vec<char>, from: usize, to: usize, class: CharClass) -> (k: usize)
    requires
        from <= to <= v.len(),
    ensures
        from <= k <= to,
        skip_leading(v@.subrange(from as int, to as int), class) == v@.subrange(
            k as int,
            to as int,
        ),
{
    let mut k: usize = from;
    while k < to && char_in_class(class, v[k])
        invariant
            from <= k <= to <= v.len(),
            skip_leading(v@.subrange(from as int, to as int), class) == skip_leading(
                v@.subrange(k as int, to as int),
                class,
            ),
        decreases to - k,
    {
        assert(v@.subrange(k as int, to as int).drop_first() == v@.subrange(k + 1, to as int));
        k += 1;
    }
    k
}

/// The end of the last character at or before `to` that is not of `class`.
pub fn trailing_start(v: &Vec<char>, from: usize, to: usize, class: CharClass) -> (k: usize)
    requires
        from <= to <= v.len(),
    ensures
        from <= k <= to,
        skip_trailing(v@.subrange(from as int, to as int), class) == v@.subrange(
            from as int,
            k as int,
        ),
{
    let mut k: usize = to;
    while k > from && char_in_class(class, v[k - 1])
        invariant
            from <= k <= to <= v.len(),
            skip_trailing(v@.subrange(from as int, to as int), class) == skip_trailing(
                v@.subrange(from as int, k as int),
                class,
            ),
        decreases k,
    {
        assert(v@.subrange(from as int, k as int).drop_last() == v@.subrange(from as int, k - 1));
        k -= 1;
    }
    k
}

/// Removes leading and trailing whitespace.
pub fn trim_text(s: &str) -> (r: String)
    ensures
        r@ == trim(s@),
{
    let v = chars_of(s);
    assert(v@.subrange(0, v.len() as int) == v@);
    let a = leading_end(&v, 0, v.len(), CharClass::Whitespace);
    let b = trailing_start(&v, a, v.len(), CharClass::Whitespace);
    string_of_range(&v, a, b)
}

/// Removes trailing whitespace.
pub fn trim_end_text(s: &str) -> (r: String)
    ensures
        r@ == trim_end(s@),
{
    let v = chars_of(s);
    assert(v@.subrange(0, v.len() as int) == v@);
    let b = trailing_start(&v, 0, v.len(), CharClass::Whitespace);
    string_of_range(&v, 0, b)
}

/// Tells whether the string is empty once trimmed.
pub fn is_blank(s: &str) -> (r: bool)
    ensures
        r == (trim(s@).len() == 0),
{
    let v = chars_of(s);
    assert(v@.subrange(0, v.len() as int) == v@);
    let a = leading_end(&v, 0, v.len(), CharClass::Whitespace);
    let b = trailing_start(&v, a, v.len(), CharClass::Whitespace);
    a == b
}

/// Tells whether the last character of the string is whitespace.
pub fn str_ends_with_whitespace(s: &str) -> (r: bool)
    ensures
        r == ends_with_whitespace(s@),
{
    let v = chars_of(s);
    v.len() > 0 && char_is_whitespace(v[v.len() - 1])
}

/// Tells whether every character of the string is whitespace.
pub fn str_all_whitespace(s: &str) -> (r: bool)
    ensures
        r == all_whitespace(s@),
{
    let v = chars_of(s);
    let mut i: usize = 0;
    while i < v.len()
        invariant
            i <= v.len(),
            v@ == s@,
            forall|j: int| 0 <= j < i ==> is_whitespace(#[trigger] v@[j]),
        decreases v.len() - i,
    {
        if !char_is_whitespace(v[i]) {
            return false;
        }
        i += 1;
    }
    true
}

/// Tells whether two strings hold the same characters.
pub fn str_eq(a: &str, b: &str) -> (r: bool)
    ensures
        r == (a@ == b@),
{
    let x = chars_of(a);
    let y = chars_of(b);
    if x.len() != y.len() {
        return false;
    }
    let mut i: usize = 0;
    while i < x.len()
        invariant
            i <= x.len(),
            x.len() == y.len(),
            x@ == a@,
            y@ == b@,
            x@.subrange(0, i as int) == y@.subrange(0, i as int),
        decreases x.len() - i,
    {
        if x[i] != y[i] {
            assert(a@[i as int] != b@[i as int]);
            return false;
        }
        assert(x@.subrange(0, i + 1) == x@.subrange(0, i as int).push(x@[i as int]));
        assert(y@.subrange(0, i + 1) == y@.subrange(0, i as int).push(y@[i as int]));
        i += 1;
    }
    assert(x@.subrange(0, x.len() as int) == x@);
    assert(y@.subrange(0, y.len() as int) == y@);
    true
}

/// Trims the text and joins its words by single spaces.
pub fn normalize_text_whitespace(text: &str) -> (r: String)
    ensures
        r@ == normalize_whitespace(text@),
{
    let v = chars_of(text);
    let mut out = String::new();
    let mut i: usize = 0;
    let mut gap = false;
    let mut started = false;
    while i < v.len()
        invariant
            i <= v.len(),
            out@ == normalize_whitespace(v@.subrange(0, i as int)),
            gap == (i > 0 && is_whitespace(v@[i - 1])),
            started == (out@.len() > 0),
        decreases v.len() - i,
    {
        let c = v[i];
        proof {
            let s = v@.subrange(0, i + 1);
            assert(s.drop_last() == v@.subrange(0, i as int));
            assert(s.last() == c);
        }
        if !char_is_whitespace(c) {
            if gap && started {
                out.push(' ');
            }
            out.push(c);
            started = true;
        }
        gap = char_is_whitespace(c);
        i += 1;
    }
    assert(v@.subrange(0, v.len() as int) == v@);
    out
}

/// A background text without the parentheses that surround it.
pub open spec fn strip_parentheses(s: Seq<char>) -> Seq<char> {
    trim(skip_trailing(skip_leading(trim(s), CharClass::OpenParen), CharClass::CloseParen))
}

/// Trims the text, removes every leading `(` and trailing `)`, ASCII or
/// full-width, and trims again.
pub fn clean_parentheses_from_bg_text(text: &str) -> (r: String)
    ensures
        r@ == strip_parentheses(text@),
{
    let v = chars_of(text);
    assert(v@.subrange(0, v.len() as int) == v@);
    let a = leading_end(&v, 0, v.len(), CharClass::Whitespace);
    let b = trailing_start(&v, a, v.len(), CharClass::Whitespace);
    let c = leading_end(&v, a, b, CharClass::OpenParen);
    let d = trailing_start(&v, c, b, CharClass::CloseParen);
    let e = leading_end(&v, c, d, CharClass::Whitespace);
    let f = trailing_start(&v, e, d, CharClass::Whitespace);
    string_of_range(&v, e, f)
}

/// The lower-case form of an ASCII letter; any other character as it is.
pub open spec fn ascii_lower(c: char) -> char {
    if 0x41 <= c as u32 <= 0x5A {
        ((c as u32) + 32) as char
    } else {
        c
    }
}

/// Two texts are equal up to the case of ASCII letters.
pub open spec fn eq_ignore_ascii_case(a: Seq<char>, b: Seq<char>) -> bool {
    a.len() == b.len() && forall|i: int| 0 <= i < a.len() ==> ascii_lower(#[trigger] a[i]) == ascii_lower(b[i])
}

/// The lower-case form of an ASCII letter.
pub fn lower(c: char) -> (r: char)
    ensures
        r == ascii_lower(c),
{
    let n: u32 = c as u32;
    if 0x41 <= n && n <= 0x5A {
        ((n + 32) as u8) as char
    } else {
        c
    }
}

/// Tells whether two strings are equal up to the case of ASCII letters.
pub fn str_eq_ignore_ascii_case(a: &str, b: &str) -> (r: bool)
    ensures
        r == eq_ignore_ascii_case(a@, b@),
{
    let x = chars_of(a);
    let y = chars_of(b);
    if x.len() != y.len() {
        return false;
    }
    let mut i: usize = 0;
    while i < x.len()
        invariant
            i <= x.len() == y.len(),
            x@ == a@,
            y@ == b@,
            forall|j: int| 0 <= j < i ==> ascii_lower(#[trigger] x@[j]) == ascii_lower(y@[j]),
        decreases x.len() - i,
    {
        if lower(x[i]) != lower(y[i]) {
            return false;
        }
        i += 1;
    }
    true
}

} // verus!
