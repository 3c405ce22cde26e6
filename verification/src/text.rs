//! Character-level helpers: the console's notion of whitespace, blank lines,
//! and character-wise string comparison used by the registry's ordered index.

use vstd::prelude::*;

verus! {

/// The characters the console treats as whitespace when it decides whether a
/// submitted line is blank: the Unicode `White_Space` set.
pub open spec fn is_ws_char(c: char) -> bool {
    c == ' ' || c == '\t' || c == '\n' || c == '\r' || c == '\u{0b}' || c == '\u{0c}'
        || c == '\u{85}' || c == '\u{a0}' || c == '\u{1680}'
        || ('\u{2000}' <= c && c <= '\u{200a}')
        || c == '\u{2028}' || c == '\u{2029}' || c == '\u{202f}' || c == '\u{205f}'
        || c == '\u{3000}'
}

/// A line is blank when every character in it is whitespace; the empty line
/// is blank.
pub open spec fn blank(s: Seq<char>) -> bool {
    forall|i: int| 0 <= i < s.len() ==> is_ws_char(s[i])
}

/// Whether one character is console whitespace.
pub fn is_ws(c: char) -> (r: bool)
    ensures
        r == is_ws_char(c),
{
    c == ' ' || c == '\t' || c == '\n' || c == '\r' || c == '\u{0b}' || c == '\u{0c}'
        || c == '\u{85}' || c == '\u{a0}' || c == '\u{1680}'
        || ('\u{2000}' <= c && c <= '\u{200a}')
        || c == '\u{2028}' || c == '\u{2029}' || c == '\u{202f}' || c == '\u{205f}'
        || c == '\u{3000}'
}

/// Whether a line consists only of whitespace (or is empty).
pub fn is_blank(s: &str) -> (r: bool)
    ensures
        r == blank(s@),
{
    let n = s.unicode_len();
    let mut i: usize = 0;
    while i < n
        invariant
            0 <= i <= n,
            n == s@.len(),
            forall|j: int| 0 <= j < i ==> is_ws_char(s@[j]),
        decreases n - i,
    {
        if !is_ws(s.get_char(i)) {
            return false;
        }
        i += 1;
    }
    true
}

/// Character-wise string equality.
pub fn str_eq(a: &str, b: &str) -> (r: bool)
    ensures
        r == (a@ == b@),
{
    let na = a.unicode_len();
    let nb = b.unicode_len();
    if na != nb {
        assert(a@ != b@) by {
            assert(a@.len() != b@.len());
        }
        return false;
    }
    let mut i: usize = 0;
    while i < na
        invariant
            0 <= i <= na,
            na == a@.len(),
            na == b@.len(),
            forall|j: int| 0 <= j < i ==> a@[j] == b@[j],
        decreases na - i,
    {
        if a.get_char(i) != b.get_char(i) {
            return false;
        }
        i += 1;
    }
    proof {
        assert(a@ =~= b@);
    }
    true
}

/// Strict lexicographic order on character sequences, by code point.
pub open spec fn lex_lt(a: Seq<char>, b: Seq<char>) -> bool
    decreases a.len(),
{
    if b.len() == 0 {
        false
    } else if a.len() == 0 {
        true
    } else if a[0] != b[0] {
        a[0] < b[0]
    } else {
        lex_lt(a.drop_first(), b.drop_first())
    }
}

/// `lex_lt` is irreflexive, and of two distinct sequences one is below the
/// other: together this makes it a strict total order usable as a sort key.
pub proof fn lemma_lex_lt_total(a: Seq<char>, b: Seq<char>)
    ensures
        a == b ==> !lex_lt(a, b),
        a != b ==> (lex_lt(a, b) <==> !lex_lt(b, a)),
    decreases a.len() + b.len(),
{
    if a.len() == 0 && b.len() == 0 {
        assert(a =~= b);
    } else if a.len() > 0 && b.len() > 0 {
        if a[0] == b[0] {
            lemma_lex_lt_total(a.drop_first(), b.drop_first());
            if a.drop_first() == b.drop_first() {
                assert(a =~= b) by {
                    assert(a.len() == b.len());
                    assert forall|i: int| 0 <= i < a.len() implies a[i] == b[i] by {
                        if i >= 1 {
                            assert(a.drop_first()[i - 1] == a[i]);
                            assert(b.drop_first()[i - 1] == b[i]);
                        }
                    }
                }
            }
        }
    }
}

/// `lex_lt` is transitive.
pub proof fn lemma_lex_lt_trans(a: Seq<char>, b: Seq<char>, c: Seq<char>)
    requires
        lex_lt(a, b),
        lex_lt(b, c),
    ensures
        lex_lt(a, c),
    decreases a.len() + b.len() + c.len(),
{
    if a.len() > 0 && b.len() > 0 && c.len() > 0 {
        if a[0] == b[0] && b[0] == c[0] {
            lemma_lex_lt_trans(a.drop_first(), b.drop_first(), c.drop_first());
        }
    }
}

/// Character-wise lexicographic comparison, true when `a` sorts strictly
/// before `b`.
pub fn str_lt(a: &str, b: &str) -> (r: bool)
    ensures
        r == lex_lt(a@, b@),
{
    let na = a.unicode_len();
    let nb = b.unicode_len();
    let mut i: usize = 0;
    proof {
        assert(a@.skip(0) =~= a@);
        assert(b@.skip(0) =~= b@);
    }
    loop
        invariant
            0 <= i <= na,
            i <= nb,
            na == a@.len(),
            nb == b@.len(),
            forall|j: int| 0 <= j < i ==> a@[j] == b@[j],
            lex_lt(a@, b@) == lex_lt(a@.skip(i as int), b@.skip(i as int)),
        decreases na - i,
    {
        if i == nb {
            assert(b@.skip(i as int).len() == 0);
            return false;
        }
        if i == na {
            assert(a@.skip(i as int).len() == 0 && b@.skip(i as int).len() > 0);
            return true;
        }
        let ca = a.get_char(i);
        let cb = b.get_char(i);
        if ca != cb {
            proof {
                assert(a@.skip(i as int)[0] == a@[i as int]);
                assert(b@.skip(i as int)[0] == b@[i as int]);
            }
            return ca < cb;
        }
        proof {
            assert(a@.skip(i as int).drop_first() =~= a@.skip(i + 1));
            assert(b@.skip(i as int).drop_first() =~= b@.skip(i + 1));
            assert(a@.skip(i as int)[0] == a@[i as int]);
            assert(b@.skip(i as int)[0] == b@[i as int]);
        }
        i += 1;
    }
}


/// The character sequences of a sequence of strings: the string contents,
/// with the container forgotten.
pub open spec fn str_seq(v: Seq<String>) -> Seq<Seq<char>> {
    v.map_values(|s: String| s@)
}

/// `str_seq` maps a push to a push.
pub proof fn lemma_str_seq_push(v: Seq<String>, s: String)
    ensures
        str_seq(v.push(s)) == str_seq(v).push(s@),
{
    assert(str_seq(v.push(s)) =~= str_seq(v).push(s@)) by {
        assert forall|k: int| 0 <= k < v.len() + 1 implies str_seq(v.push(s))[k] == str_seq(
            v,
        ).push(s@)[k] by {
            if k < v.len() {
                assert(v.push(s)[k] == v[k]);
            } else {
                assert(v.push(s)[k] == s);
            }
        }
    }
}

/// `str_seq` maps an insert to an insert.
pub proof fn lemma_str_seq_insert(v: Seq<String>, i: int, s: String)
    requires
        0 <= i <= v.len(),
    ensures
        str_seq(v.insert(i, s)) == str_seq(v).insert(i, s@),
{
    assert(str_seq(v.insert(i, s)) =~= str_seq(v).insert(i, s@)) by {
        assert forall|k: int| 0 <= k < v.len() + 1 implies str_seq(v.insert(i, s))[k] == str_seq(
            v,
        ).insert(i, s@)[k] by {
            if k < i {
                assert(v.insert(i, s)[k] == v[k]);
            } else if k == i {
                assert(v.insert(i, s)[k] == s);
            } else {
                assert(v.insert(i, s)[k] == v[k - 1]);
            }
        }
    }
}

/// `str_seq` maps an in-place update to an in-place update.
pub proof fn lemma_str_seq_update(v: Seq<String>, i: int, s: String)
    requires
        0 <= i < v.len(),
    ensures
        str_seq(v.update(i, s)) == str_seq(v).update(i, s@),
{
    assert(str_seq(v.update(i, s)) =~= str_seq(v).update(i, s@)) by {
        assert forall|k: int| 0 <= k < v.len() implies str_seq(v.update(i, s))[k] == str_seq(
            v,
        ).update(i, s@)[k] by {
            if k != i {
                assert(v.update(i, s)[k] == v[k]);
            }
        }
    }
}

/// `str_seq` maps a subrange to a subrange.
pub proof fn lemma_str_seq_subrange(v: Seq<String>, a: int, b: int)
    requires
        0 <= a <= b <= v.len(),
    ensures
        str_seq(v.subrange(a, b)) == str_seq(v).subrange(a, b),
{
    assert(str_seq(v.subrange(a, b)) =~= str_seq(v).subrange(a, b)) by {
        assert forall|k: int| 0 <= k < b - a implies str_seq(v.subrange(a, b))[k] == str_seq(
            v,
        ).subrange(a, b)[k] by {
            assert(v.subrange(a, b)[k] == v[a + k]);
        }
    }
}

/// `str_seq` maps removal of an element to the same removal.
pub proof fn lemma_str_seq_remove(v: Seq<String>, i: int)
    requires
        0 <= i < v.len(),
    ensures
        str_seq(v.remove(i)) == str_seq(v).remove(i),
{
    assert(str_seq(v.remove(i)) =~= str_seq(v).remove(i)) by {
        assert forall|k: int| 0 <= k < v.len() - 1 implies str_seq(v.remove(i))[k] == str_seq(
            v,
        ).remove(i)[k] by {
            if k < i {
                assert(v.remove(i)[k] == v[k]);
            } else {
                assert(v.remove(i)[k] == v[k + 1]);
            }
        }
    }
}

} // verus!
