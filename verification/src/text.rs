//! Text as sequences of characters: cutting, trimming and lines.
use vstd::prelude::*;

verus! {

/// `String::push` of the standard library: appends one character to the end of the string.
pub assume_specification[ String::push ](s: &mut String, c: char)
    ensures
        final(s)@ == old(s)@.push(c),
;

/// What stands before the first `c`, or all of `s` where there is none.
pub open spec fn before_first(s: Seq<char>, c: char) -> Seq<char>
    decreases s.len(),
{
    if s.len() == 0 || s[0] == c {
        Seq::empty()
    } else {
        seq![s[0]] + before_first(s.drop_first(), c)
    }
}

/// What stands after the last `c`, or all of `s` where there is none.
pub open spec fn after_last(s: Seq<char>, c: char) -> Seq<char>
    decreases s.len(),
{
    if s.len() == 0 || s.last() == c {
        Seq::empty()
    } else {
        after_last(s.drop_last(), c).push(s.last())
    }
}

/// Holds of every character but `c`.
pub open spec fn other_than(c: char) -> spec_fn(char) -> bool {
    |x: char| x != c
}

/// `s` without any `c`.
pub open spec fn without(s: Seq<char>, c: char) -> Seq<char> {
    s.filter(other_than(c))
}

/// The characters that Unicode gives the property `White_Space`.
pub open spec fn is_space(c: char) -> bool {
    ||| '\u{9}' <= c <= '\u{d}'
    ||| c == '\u{20}'
    ||| c == '\u{85}'
    ||| c == '\u{a0}'
    ||| c == '\u{1680}'
    ||| '\u{2000}' <= c <= '\u{200a}'
    ||| c == '\u{2028}'
    ||| c == '\u{2029}'
    ||| c == '\u{202f}'
    ||| c == '\u{205f}'
    ||| c == '\u{3000}'
}

/// `s` without the white space at its start.
pub open spec fn trim_start(s: Seq<char>) -> Seq<char>
    decreases s.len(),
{
    if s.len() > 0 && is_space(s[0]) {
        trim_start(s.drop_first())
    } else {
        s
    }
}

/// `s` without the white space at its end.
pub open spec fn trim_end(s: Seq<char>) -> Seq<char>
    decreases s.len(),
{
    if s.len() > 0 && is_space(s.last()) {
        trim_end(s.drop_last())
    } else {
        s
    }
}

/// `s` without the white space at either end.
pub open spec fn trimmed(s: Seq<char>) -> Seq<char> {
    trim_end(trim_start(s))
}

/// `s` without a carriage return at its end.
pub open spec fn strip_return(s: Seq<char>) -> Seq<char> {
    if s.len() > 0 && s.last() == '\r' {
        s.drop_last()
    } else {
        s
    }
}

/// The lines of `s`: each ends at a line feed, or a carriage return and a line feed, which do
/// not belong to it; what stands after the last line feed is a line unless it is empty.
pub open spec fn lines(s: Seq<char>) -> Seq<Seq<char>>
    decreases s.len(),
{
    let head = before_first(s, '\n');
    if s.len() == 0 {
        Seq::empty()
    } else if head.len() >= s.len() {
        seq![s]
    } else {
        seq![strip_return(head)] + lines(s.skip(head.len() as int + 1))
    }
}

/// The texts that `v` holds.
pub open spec fn views(v: Seq<String>) -> Seq<Seq<char>> {
    v.map_values(|s: String| s@)
}

/// The characters of `s`, in order.
pub fn chars_of(s: &str) -> (r: Vec<char>)
    ensures
        r@ == s@,
{
    let mut r: Vec<char> = Vec::new();
    for c in it: s.chars()
        invariant
            it.seq() == s@,
            r@ == s@.take(it.index() as int),
    {
        r.push(c);
        assert(s@.take(it.index() as int + 1) =~= s@.take(it.index() as int).push(c));
    }
    assert(s@.take(s@.len() as int) =~= s@);
    r
}

/// The text made of the characters `v[from..to]`.
pub fn text_of(v: &Vec<char>, from: usize, to: usize) -> (r: String)
    requires
        from <= to <= v@.len(),
    ensures
        r@ == v@.subrange(from as int, to as int),
{
    let mut r: String = String::new();
    let mut i: usize = from;
    while i < to
        invariant
            from <= i <= to <= v@.len(),
            r@ == v@.subrange(from as int, i as int),
        decreases to - i,
    {
        r.push(v[i]);
        assert(v@.subrange(from as int, i + 1) =~= v@.subrange(from as int, i as int).push(v@[i as int]));
        i += 1;
    }
    r
}

/// Whether two texts are the same.
pub fn same_text(a: &str, b: &str) -> (r: bool)
    ensures
        r == (a@ == b@),
{
    a.to_string() == b.to_string()
}

/// `s` without any `c`.
pub fn drop_char(s: &str, c: char) -> (r: String)
    ensures
        r@ == without(s@, c),
{
    let v: Vec<char> = chars_of(s);
    let ghost keep = other_than(c);
    let mut r: String = String::new();
    let mut i: usize = 0;
    assert(s@.take(0).filter(keep) =~= Seq::<char>::empty()) by {
        reveal(Seq::filter);
    }
    while i < v.len()
        invariant
            v@ == s@,
            i <= v@.len(),
            keep == other_than(c),
            r@ == s@.take(i as int).filter(keep),
        decreases v@.len() - i,
    {
        assert(s@.take(i + 1).filter(keep) == if keep(s@[i as int]) {
            s@.take(i as int).filter(keep).push(s@[i as int])
        } else {
            s@.take(i as int).filter(keep)
        }) by {
            reveal(Seq::filter);
            assert(s@.take(i + 1).drop_last() =~= s@.take(i as int));
        }
        if v[i] != c {
            r.push(v[i]);
        }
        i += 1;
    }
    assert(s@.take(s@.len() as int) =~= s@);
    r
}

/// The first place at or after `from` where `v` holds `c`, or the end of `v`.
pub fn find_from(v: &Vec<char>, from: usize, c: char) -> (r: usize)
    requires
        from <= v@.len(),
    ensures
        from <= r <= v@.len(),
        forall|k: int| from <= k < r ==> v@[k] != c,
        r < v@.len() ==> v@[r as int] == c,
{
    let mut i: usize = from;
    while i < v.len() && v[i] != c
        invariant
            from <= i <= v@.len(),
            forall|k: int| from <= k < i ==> v@[k] != c,
        decreases v@.len() - i,
    {
        i += 1;
    }
    i
}

/// `before_first` ends at the first `c`.
pub proof fn before_first_at(s: Seq<char>, c: char, k: int)
    requires
        0 <= k <= s.len(),
        forall|j: int| 0 <= j < k ==> s[j] != c,
        k < s.len() ==> s[k] == c,
    ensures
        before_first(s, c) == s.take(k),
    decreases s.len(),
{
    if k == 0 {
        assert(s.take(0) =~= Seq::<char>::empty());
    } else {
        before_first_at(s.drop_first(), c, k - 1);
        assert(s.take(k) =~= seq![s[0]] + s.drop_first().take(k - 1));
    }
}

/// What stands before the first `c` is a start of the text that does not hold it.
pub proof fn before_first_has_none(s: Seq<char>, c: char)
    ensures
        !before_first(s, c).contains(c),
        before_first(s, c).len() <= s.len(),
        before_first(s, c) == s.take(before_first(s, c).len() as int),
    decreases s.len(),
{
    let head = before_first(s, c);
    if s.len() > 0 && s[0] != c {
        let rest = before_first(s.drop_first(), c);
        before_first_has_none(s.drop_first(), c);
        assert forall|i: int| 0 <= i < head.len() implies head[i] != c by {
            if i > 0 {
                assert(rest.contains(rest[i - 1]));
                assert(head[i] == rest[i - 1]);
            }
        }
        assert(head =~= s.take(head.len() as int)) by {
            assert forall|i: int| 1 <= i < head.len() implies head[i] == s[i] by {
                assert(head[i] == rest[i - 1]);
                assert(rest[i - 1] == s.drop_first()[i - 1]);
            }
        }
    } else {
        assert(head =~= s.take(0));
    }
}

/// `after_last` starts behind the last `c`.
pub proof fn after_last_at(s: Seq<char>, c: char, k: int)
    requires
        0 <= k <= s.len(),
        forall|j: int| k <= j < s.len() ==> s[j] != c,
        0 < k ==> s[k - 1] == c,
    ensures
        after_last(s, c) == s.skip(k),
    decreases s.len(),
{
    if k == s.len() {
        assert(s.skip(k) =~= Seq::<char>::empty());
    } else {
        after_last_at(s.drop_last(), c, k);
        assert(s.skip(k) =~= s.drop_last().skip(k).push(s.last()));
    }
}

/// The place behind the last `c` of `v`.
pub fn behind_last(v: &Vec<char>, c: char) -> (r: usize)
    ensures
        r <= v@.len(),
        after_last(v@, c) == v@.skip(r as int),
{
    let mut i: usize = v.len();
    while i > 0 && v[i - 1] != c
        invariant
            i <= v@.len(),
            forall|k: int| i <= k < v@.len() ==> v@[k] != c,
        decreases i,
    {
        i -= 1;
    }
    proof {
        after_last_at(v@, c, i as int);
    }
    i
}

/// Whether `c` is white space.
pub fn char_is_space(c: char) -> (r: bool)
    ensures
        r == is_space(c),
{
    ('\u{9}' <= c && c <= '\u{d}') || c == '\u{20}' || c == '\u{85}' || c == '\u{a0}' || c == '\u{1680}' || (
    '\u{2000}' <= c && c <= '\u{200a}') || c == '\u{2028}' || c == '\u{2029}' || c == '\u{202f}' || c
        == '\u{205f}' || c == '\u{3000}'
}

/// The text of `v[from..to]` without the white space at either end.
pub fn trim(v: &Vec<char>, from: usize, to: usize) -> (r: String)
    requires
        from <= to <= v@.len(),
    ensures
        r@ == trimmed(v@.subrange(from as int, to as int)),
{
    let ghost all = v@.subrange(from as int, to as int);
    let mut a: usize = from;
    while a < to && char_is_space(v[a])
        invariant
            from <= a <= to <= v@.len(),
            trim_start(all) == trim_start(v@.subrange(a as int, to as int)),
        decreases to - a,
    {
        assert(v@.subrange(a as int, to as int).drop_first() =~= v@.subrange(a + 1, to as int));
        a += 1;
    }
    let ghost rest = v@.subrange(a as int, to as int);
    assert(trim_start(all) == rest);
    let mut b: usize = to;
    while a < b && char_is_space(v[b - 1])
        invariant
            a <= b <= to <= v@.len(),
            trim_end(rest) == trim_end(v@.subrange(a as int, b as int)),
        decreases b - a,
    {
        assert(v@.subrange(a as int, b as int).drop_last() =~= v@.subrange(a as int, b - 1));
        b -= 1;
    }
    text_of(v, a, b)
}

/// The lines of `s`.
pub fn lines_of(s: &str) -> (r: Vec<String>)
    ensures
        views(r@) == lines(s@),
{
    let v: Vec<char> = chars_of(s);
    let mut r: Vec<String> = Vec::new();
    let mut from: usize = 0;
    assert(views(r@) + lines(s@.skip(0)) =~= lines(s@)) by {
        assert(s@.skip(0) =~= s@);
    }
    while from < v.len()
        invariant
            v@ == s@,
            from <= v@.len(),
            views(r@) + lines(s@.skip(from as int)) == lines(s@),
        decreases v@.len() - from,
    {
        let to: usize = find_from(&v, from, '\n');
        let ghost rest = s@.skip(from as int);
        let ghost before = views(r@);
        proof {
            before_first_at(rest, '\n', to - from);
            assert(rest.take(to - from) =~= v@.subrange(from as int, to as int));
        }
        if to == v.len() {
            r.push(text_of(&v, from, to));
            assert(v@.subrange(from as int, to as int) =~= rest);
            from = to;
            assert(s@.skip(from as int) =~= Seq::<char>::empty());
            assert(views(r@) =~= before.push(rest));
            assert(before + seq![rest] =~= before.push(rest));
            assert(views(r@) + lines(s@.skip(from as int)) =~= before + lines(rest));
        } else {
            let head: usize = if to > from && v[to - 1] == '\r' {
                to - 1
            } else {
                to
            };
            r.push(text_of(&v, from, head));
            let ghost line = strip_return(rest.take(to - from));
            assert(v@.subrange(from as int, head as int) =~= line);
            assert(s@.skip(to + 1) =~= rest.skip(to - from + 1));
            from = to + 1;
            assert(views(r@) =~= before.push(line));
            assert(before.push(line) + lines(s@.skip(from as int)) =~= before + (seq![line] + lines(
                s@.skip(from as int),
            )));
        }
    }
    assert(s@.skip(from as int) =~= Seq::<char>::empty());
    assert(views(r@) =~= lines(s@));
    r
}

} // verus!
