//! The names of files: from links, in directories, and of the record of a broken download.
use crate::text::{
    after_last, before_first, before_first_at, before_first_has_none, behind_last, chars_of, drop_char, find_from, other_than, text_of, without,
};
use vstd::prelude::*;

verus! {

/// The last segment of a link, up to the first question mark in it.
pub open spec fn url_tail(url: Seq<char>) -> Seq<char> {
    before_first(after_last(url, '/'), '?')
}

/// The path of `name` in `dir`: an absolute name is its own path.
pub open spec fn joined(dir: Seq<char>, name: Seq<char>) -> Seq<char> {
    if name.len() > 0 && name[0] == '/' {
        name
    } else if dir.len() > 0 && dir.last() != '/' {
        dir.push('/') + name
    } else {
        dir + name
    }
}

/// The last segment of a link, up to the first question mark in it.
pub fn tail_of_url(url: &str) -> (r: String)
    ensures
        r@ == url_tail(url@),
{
    let v: Vec<char> = chars_of(url);
    let from: usize = behind_last(&v, '/');
    let to: usize = find_from(&v, from, '?');
    let ghost segment = v@.skip(from as int);
    proof {
        before_first_at(segment, '?', to - from);
        assert(segment.take(to - from) =~= v@.subrange(from as int, to as int));
    }
    text_of(&v, from, to)
}

/// The path of `name` in `dir`.
pub fn join_path(dir: &str, name: &str) -> (r: String)
    ensures
        r@ == joined(dir@, name@),
{
    let d: Vec<char> = chars_of(dir);
    let n: Vec<char> = chars_of(name);
    if n.len() > 0 && n[0] == '/' {
        name.to_string()
    } else {
        let mut r: String = dir.to_string();
        if d.len() > 0 && d[d.len() - 1] != '/' {
            r.push('/');
        }
        r.append(name);
        r
    }
}

/// The name of the record that a broken download of `file_name` leaves: the name without its
/// dots, and `.json`.
pub fn json_fix_name(file_name: String) -> (r: String)
    ensures
        r@ == without(file_name@, '.') + ".json"@,
{
    let mut r: String = drop_char(file_name.as_str(), '.');
    r.append(".json");
    r
}

/// Dropping a character leaves it nowhere.
proof fn without_has_none(s: Seq<char>, c: char)
    ensures
        !without(s, c).contains(c),
    decreases s.len(),
{
    reveal(Seq::filter);
    if s.len() > 0 {
        without_has_none(s.drop_last(), c);
        let rest = without(s.drop_last(), c);
        if s.last() != c {
            assert forall|i: int| 0 <= i < without(s, c).len() implies without(s, c)[i] != c by {
                if i < rest.len() {
                    assert(rest.contains(rest[i]));
                }
            }
        }
    }
}

/// The only dot in the name of a record is the one before `json`.
pub proof fn record_name_has_one_dot(name: Seq<char>, i: int)
    requires
        0 <= i < (without(name, '.') + ".json"@).len(),
    ensures
        (without(name, '.') + ".json"@)[i] == '.' <==> i == without(name, '.').len(),
{
    reveal_strlit(".json");
    without_has_none(name, '.');
    let kept = without(name, '.');
    if i < kept.len() {
        assert(kept.contains(kept[i]));
    }
}

/// Names that differ in a dot share their record.
pub proof fn record_name_ignores_dots(before: Seq<char>, behind: Seq<char>)
    ensures
        without(before.push('.') + behind, '.') + ".json"@ == without(before + behind, '.') + ".json"@,
{
    let keep = other_than('.');
    Seq::filter_distributes_over_add(before.push('.'), behind, keep);
    Seq::filter_distributes_over_add(before, behind, keep);
    assert(before.push('.').filter(keep) =~= before.filter(keep)) by {
        reveal(Seq::filter);
        assert(before.push('.').drop_last() =~= before);
    }
}

/// No slash and no question mark stands in the name that a link gives.
pub proof fn url_tail_is_plain(url: Seq<char>)
    ensures
        !url_tail(url).contains('/'),
        !url_tail(url).contains('?'),
{
    after_last_has_none(url, '/');
    let segment = after_last(url, '/');
    before_first_has_none(segment, '?');
    assert forall|i: int| 0 <= i < url_tail(url).len() implies url_tail(url)[i] != '/' by {
        assert(segment.contains(segment[i]));
    }
}

proof fn after_last_has_none(s: Seq<char>, c: char)
    ensures
        !after_last(s, c).contains(c),
    decreases s.len(),
{
    if s.len() > 0 && s.last() != c {
        after_last_has_none(s.drop_last(), c);
        let rest = after_last(s.drop_last(), c);
        assert forall|i: int| 0 <= i < after_last(s, c).len() implies after_last(s, c)[i] != c by {
            if i < rest.len() {
                assert(rest.contains(rest[i]));
            }
        }
    }
}

/// A query in which no slash stands does not change the name that a link gives.
pub proof fn url_tail_ignores_query(link: Seq<char>, query: Seq<char>)
    requires
        !query.contains('/'),
    ensures
        url_tail(link.push('?') + query) == url_tail(link),
{
    after_last_of_plain_end(link, seq!['?'] + query);
    assert(link.push('?') + query =~= link + (seq!['?'] + query));
    let segment = after_last(link, '/');
    before_first_of_longer(segment, seq!['?'] + query);
}

proof fn after_last_of_plain_end(s: Seq<char>, end: Seq<char>)
    requires
        forall|i: int| 0 <= i < end.len() ==> end[i] != '/',
    ensures
        after_last(s + end, '/') == after_last(s, '/') + end,
    decreases end.len(),
{
    if end.len() == 0 {
        assert(s + end =~= s);
        assert(after_last(s, '/') + end =~= after_last(s, '/'));
    } else {
        after_last_of_plain_end(s, end.drop_last());
        assert((s + end).drop_last() =~= s + end.drop_last());
        assert(after_last(s, '/') + end =~= (after_last(s, '/') + end.drop_last()).push(end.last()));
    }
}

proof fn before_first_of_longer(s: Seq<char>, end: Seq<char>)
    requires
        end.len() > 0,
        end[0] == '?',
    ensures
        before_first(s + end, '?') == before_first(s, '?'),
    decreases s.len(),
{
    if s.len() == 0 {
        assert(s + end =~= end);
    } else {
        assert((s + end).drop_first() =~= s.drop_first() + end);
        before_first_of_longer(s.drop_first(), end);
    }
}

/// The path of a name in a directory ends in the name; where the name is not absolute, it starts
/// with the directory.
pub proof fn joined_keeps_parts(dir: Seq<char>, name: Seq<char>)
    ensures
        joined(dir, name).len() >= name.len(),
        joined(dir, name).skip(joined(dir, name).len() - name.len()) == name,
        name.len() == 0 || name[0] != '/' ==> dir.is_prefix_of(joined(dir, name)),
{
    assert(joined(dir, name).skip(joined(dir, name).len() - name.len()) =~= name);
}

} // verus!
