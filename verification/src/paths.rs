//! Slash-separated file paths, held as text.
//!
//! A path is read by its components: repeated slashes count as one, a slash at the end does not
//! count, and neither does a `.` that is not the first component.

use vstd::prelude::*;
use vstd::string::*;

use crate::text::{
    after_char, before_char, chars_of, join, joined, lemma_before_char, lemma_char_position_facts,
    lemma_split_at_char, lemma_views, opt_view, same_text, starts_with, take_after, take_before,
    views,
};

verus! {

/// `p` without the slashes and the `.` components at its end.
pub open spec fn trimmed_path(p: Seq<char>) -> Seq<char>
    decreases p.len(),
{
    if p.len() > 0 && p.last() == '/' {
        trimmed_path(p.drop_last())
    } else if p.len() > 1 && p.last() == '.' && p[p.len() - 2] == '/' {
        trimmed_path(p.drop_last())
    } else {
        p
    }
}

/// The length of what precedes the part of `p` behind its last `c`: 0 where there is no `c`.
pub open spec fn tail_start(p: Seq<char>, c: char) -> nat
    decreases p.len(),
{
    if p.len() == 0 || p.last() == c {
        p.len()
    } else {
        tail_start(p.drop_last(), c)
    }
}

/// The part of `p` behind its last `c`; all of `p` where there is no `c`.
pub open spec fn tail(p: Seq<char>, c: char) -> Seq<char> {
    p.skip(tail_start(p, c) as int)
}

/// The last component of `p`, where it is a name.
pub open spec fn file_name_of(p: Seq<char>) -> Option<Seq<char>> {
    let name = tail(trimmed_path(p), '/');
    if name == seq!['.'] || name == seq!['.', '.'] || name.len() == 0 {
        None
    } else {
        Some(name)
    }
}

/// What follows the last dot of the file name of `p`. A dot at the start of the name does not
/// count.
pub open spec fn extension_of(p: Seq<char>) -> Option<Seq<char>> {
    match file_name_of(p) {
        Some(name) => if tail_start(name, '.') > 1 {
            Some(tail(name, '.'))
        } else {
            None
        },
        None => None,
    }
}

/// `p` starts at the root directory.
pub open spec fn is_absolute_path(p: Seq<char>) -> bool {
    p.len() > 0 && p[0] == '/'
}

/// `p` as seen from the directory `base`.
pub open spec fn joined_path(base: Seq<char>, p: Seq<char>) -> Seq<char> {
    if is_absolute_path(p) || base.len() == 0 {
        p
    } else if base.last() == '/' {
        base + p
    } else {
        base + seq!['/'] + p
    }
}

/// `p` without its last component. The root directory and the empty path have no parent.
pub open spec fn parent_of(p: Seq<char>) -> Option<Seq<char>> {
    let whole = trimmed_path(p);
    let above = whole.take(tail_start(whole, '/') as int);
    if whole.len() == 0 {
        None
    } else if above.len() > 0 && trimmed_path(above).len() == 0 {
        Some(seq!['/'])
    } else {
        Some(trimmed_path(above))
    }
}

/// Trimming a path shortens it.
pub proof fn lemma_trimmed_path_bound(p: Seq<char>)
    ensures
        trimmed_path(p).len() <= p.len(),
        trimmed_path(p) == p.take(trimmed_path(p).len() as int),
        trimmed_path(p).len() > 0 ==> trimmed_path(p).last() != '/',
    decreases p.len(),
{
    if p.len() > 0 && (p.last() == '/' || p.len() > 1 && p.last() == '.' && p[p.len() - 2] == '/') {
        lemma_trimmed_path_bound(p.drop_last());
        assert(p.drop_last().take(trimmed_path(p).len() as int) =~= p.take(
            trimmed_path(p).len() as int,
        ));
    } else {
        assert(p.take(p.len() as int) =~= p);
    }
}

/// The part of a path behind its last separator starts within the path.
pub proof fn lemma_tail_start_bound(p: Seq<char>, c: char)
    ensures
        tail_start(p, c) <= p.len(),
        p.len() > 0 && p.last() != c ==> tail_start(p, c) < p.len(),
    decreases p.len(),
{
    if p.len() > 0 && p.last() != c {
        lemma_tail_start_bound(p.drop_last(), c);
    }
}

/// The parent of a path is shorter than the path.
pub proof fn lemma_parent_is_shorter(p: Seq<char>)
    ensures
        parent_of(p) matches Some(q) ==> q.len() < p.len(),
{
    let whole = trimmed_path(p);
    lemma_trimmed_path_bound(p);
    lemma_tail_start_bound(whole, '/');
    lemma_trimmed_path_bound(whole.take(tail_start(whole, '/') as int));
}

fn trimmed_length(chars: &Vec<char>, from: usize) -> (to: usize)
    requires
        from <= chars.len(),
    ensures
        to <= from,
        chars@.take(to as int) == trimmed_path(chars@.take(from as int)),
{
    let mut to: usize = from;
    while to > 0 && (chars[to - 1] == '/' || (to > 1 && chars[to - 1] == '.' && chars[to - 2] == '/'))
        invariant
            to <= from <= chars.len(),
            trimmed_path(chars@.take(to as int)) == trimmed_path(chars@.take(from as int)),
        decreases to,
    {
        proof {
            assert(chars@.take(to as int).drop_last() =~= chars@.take(to - 1));
        }
        to -= 1;
    }
    to
}

fn tail_start_at(chars: &Vec<char>, c: char, end: usize) -> (from: usize)
    requires
        end <= chars.len(),
    ensures
        from <= end,
        from == tail_start(chars@.take(end as int), c),
{
    let mut from: usize = end;
    while from > 0 && chars[from - 1] != c
        invariant
            from <= end <= chars.len(),
            tail_start(chars@.take(from as int), c) == tail_start(chars@.take(end as int), c),
        decreases from,
    {
        proof {
            assert(chars@.take(from as int).drop_last() =~= chars@.take(from - 1));
        }
        from -= 1;
    }
    from
}

/// The last component of `p`, where it is a name.
pub fn file_name<'a>(p: &'a str) -> (r: Option<&'a str>)
    ensures
        match r {
            Some(name) => file_name_of(p@) == Some(name@),
            None => file_name_of(p@) is None,
        },
{
    let chars: Vec<char> = chars_of(p);
    let to: usize = trimmed_length(&chars, chars.len());
    let from: usize = tail_start_at(&chars, '/', to);
    let ghost name = tail(trimmed_path(p@), '/');
    proof {
        assert(chars@.take(chars.len() as int) =~= p@);
        assert(name =~= p@.subrange(from as int, to as int));
    }
    if from == to {
        return None;
    }
    if to - from == 1 && chars[from] == '.' {
        assert(name =~= seq!['.']);
        return None;
    }
    if to - from == 2 && chars[from] == '.' && chars[from + 1] == '.' {
        assert(name =~= seq!['.', '.']);
        return None;
    }
    proof {
        assert(name[0] == p@[from as int]);
        if name.len() > 1 {
            assert(name[1] == p@[from + 1]);
        }
    }
    Some(p.substring_char(from, to))
}

/// What follows the last dot of the file name of `p`. A dot at the start of the name does not
/// count.
pub fn extension<'a>(p: &'a str) -> (r: Option<&'a str>)
    ensures
        match r {
            Some(text) => extension_of(p@) == Some(text@),
            None => extension_of(p@) is None,
        },
{
    match file_name(p) {
        Some(name) => {
            let chars: Vec<char> = chars_of(name);
            let from: usize = tail_start_at(&chars, '.', chars.len());
            proof {
                assert(chars@.take(chars.len() as int) =~= name@);
                assert(tail(name@, '.') =~= name@.subrange(from as int, name@.len() as int));
            }
            if from > 1 {
                Some(name.substring_char(from, chars.len()))
            } else {
                None
            }
        },
        None => None,
    }
}

/// Whether `p` starts at the root directory.
pub fn is_absolute(p: &str) -> (r: bool)
    ensures
        r == is_absolute_path(p@),
{
    proof {
        reveal_strlit("/");
        if p@.len() > 0 {
            assert(p@.subrange(0, 1) =~= seq![p@[0]]);
            assert("/"@ =~= seq!['/']);
            assert(p@.subrange(0, 1)[0] == p@[0]);
        }
    }
    starts_with(p, "/")
}

/// `p` as seen from the directory `base`.
pub fn join_path(base: &str, p: &str) -> (r: String)
    ensures
        r@ == joined_path(base@, p@),
{
    let chars: Vec<char> = chars_of(base);
    if is_absolute(p) || chars.len() == 0 {
        return p.to_string();
    }
    let mut out: String = base.to_string();
    if chars[chars.len() - 1] != '/' {
        proof {
            reveal_strlit("/");
            assert("/"@ =~= seq!['/']);
        }
        out.append("/");
    }
    out.append(p);
    out
}

/// `p` without its last component. The root directory and the empty path have no parent.
pub fn parent(p: &str) -> (r: Option<String>)
    ensures
        match r {
            Some(text) => parent_of(p@) == Some(text@),
            None => parent_of(p@) is None,
        },
{
    let chars: Vec<char> = chars_of(p);
    let to: usize = trimmed_length(&chars, chars.len());
    proof {
        assert(chars@.take(chars.len() as int) =~= p@);
    }
    if to == 0 {
        return None;
    }
    let above: usize = tail_start_at(&chars, '/', to);
    proof {
        assert(trimmed_path(p@).take(above as int) =~= chars@.take(above as int));
    }
    let end: usize = trimmed_length(&chars, above);
    if above > 0 && end == 0 {
        proof {
            reveal_strlit("/");
            assert("/"@ =~= seq!['/']);
        }
        return Some("/".to_string());
    }
    proof {
        assert(p@.subrange(0, end as int) =~= chars@.take(end as int));
    }
    Some(p.substring_char(0, end).to_string())
}

proof fn lemma_trimmed_path_behind(front: Seq<char>, p: Seq<char>)
    requires
        trimmed_path(p).len() > 0,
        trimmed_path(p) != seq!['.'],
    ensures
        trimmed_path(front + p) == front + trimmed_path(p),
    decreases p.len(),
{
    let whole = front + p;
    assert(whole.drop_last() =~= front + p.drop_last());
    if p.len() > 0 && (p.last() == '/' || p.len() > 1 && p.last() == '.' && p[p.len() - 2] == '/') {
        lemma_trimmed_path_behind(front, p.drop_last());
        if p.last() != '/' {
            assert(whole[whole.len() - 2] == p[p.len() - 2]);
        }
    } else if p.len() == 1 {
        assert(p =~= seq![p[0]]);
    } else {
        assert(whole[whole.len() - 2] == p[p.len() - 2]);
    }
}

proof fn lemma_tail_behind(front: Seq<char>, p: Seq<char>, c: char)
    requires
        front.len() > 0,
        front.last() == c,
    ensures
        tail_start(front + p, c) == front.len() + tail_start(p, c),
        tail(front + p, c) == tail(p, c),
    decreases p.len(),
{
    let whole = front + p;
    lemma_tail_start_bound(p, c);
    if p.len() == 0 {
        assert(whole =~= front);
        assert(tail(whole, c) =~= tail(p, c));
    } else {
        if p.last() != c {
            lemma_tail_behind(front, p.drop_last(), c);
            assert(whole.drop_last() =~= front + p.drop_last());
        }
        assert(tail(whole, c) =~= tail(p, c));
    }
}

/// The name and the extension of a file do not depend on the directory that its path is seen from.
pub proof fn lemma_base_does_not_matter(base: Seq<char>, p: Seq<char>)
    requires
        file_name_of(p) is Some,
    ensures
        file_name_of(joined_path(base, p)) == file_name_of(p),
        extension_of(joined_path(base, p)) == extension_of(p),
{
    if !is_absolute_path(p) && base.len() > 0 {
        let front = if base.last() == '/' {
            base
        } else {
            base + seq!['/']
        };
        let whole = trimmed_path(p);
        lemma_tail_start_bound(whole, '/');
        if whole == seq!['.'] {
            assert(tail(whole, '/') =~= seq!['.']) by {
                reveal_with_fuel(tail_start, 2);
            }
        }
        lemma_trimmed_path_behind(front, p);
        lemma_tail_behind(front, whole, '/');
        assert(joined_path(base, p) =~= front + p);
    }
}

/// What stands between two slashes, where it is a name. A `.` is no name.
pub open spec fn name_between(part: Seq<char>) -> Seq<Seq<char>> {
    if part.len() == 0 || part == seq!['.'] {
        seq![]
    } else {
        seq![part]
    }
}

/// The names in `p`, from the first to the last.
pub open spec fn names_in(p: Seq<char>) -> Seq<Seq<char>>
    decreases p.len(),
{
    match after_char(p, '/') {
        Some(rest) => name_between(before_char(p, '/')) + names_in(rest),
        None => name_between(before_char(p, '/')),
    }
}

/// The full path `p` as seen from the directory `base`, where it stands in it.
pub open spec fn relative_of(base: Seq<char>, p: Seq<char>) -> Option<Seq<char>> {
    let above = names_in(base);
    let all = names_in(p);
    if base.len() == 0 {
        Some(p)
    } else if is_absolute_path(base) == is_absolute_path(p) && above.len() <= all.len()
        && all.take(above.len() as int) == above {
        Some(joined(all.skip(above.len() as int), "/"@))
    } else {
        None
    }
}

fn push_names<'a>(p: &'a str, names: &mut Vec<&'a str>)
    ensures
        views(final(names)@) == views(old(names)@) + names_in(p@),
    decreases p@.len(),
{
    let first: &str = take_before(p, '/');
    let ghost before = views(names@);
    proof {
        reveal_strlit("");
        reveal_strlit(".");
        assert("."@ =~= seq!['.']);
        assert(first@.len() == 0 ==> first@ =~= ""@);
    }
    let ghost here = name_between(first@);
    if !same_text(first, "") && !same_text(first, ".") {
        names.push(first);
    }
    assert(views(names@) =~= before + here);
    match take_after(p, '/') {
        Some(rest) => {
            push_names(rest, names);
            assert(before + here + names_in(rest@) =~= before + (here + names_in(rest@)));
        },
        None => {},
    }
}

/// The names in `p`, from the first to the last.
pub fn path_names<'a>(p: &'a str) -> (r: Vec<&'a str>)
    ensures
        views(r@) == names_in(p@),
{
    let mut names: Vec<&'a str> = Vec::new();
    assert(views(names@) =~= seq![]);
    push_names(p, &mut names);
    assert(Seq::<Seq<char>>::empty() + names_in(p@) =~= names_in(p@));
    names
}

/// The full path `p` as seen from the directory `base`, where it stands in it.
pub fn relative_path(base: &str, p: &str) -> (r: Option<String>)
    ensures
        opt_view(r) == relative_of(base@, p@),
{
    if chars_of(base).len() == 0 {
        return Some(p.to_string());
    }
    if is_absolute(base) != is_absolute(p) {
        return None;
    }
    let above: Vec<&str> = path_names(base);
    let all: Vec<&str> = path_names(p);
    proof {
        lemma_views(above@);
        lemma_views(all@);
    }
    if above.len() > all.len() {
        return None;
    }
    let mut i: usize = 0;
    while i < above.len()
        invariant
            base@.len() > 0,
            views(above@) == names_in(base@),
            views(all@) == names_in(p@),
            i <= above.len() <= all.len(),
            views(all@).take(i as int) == views(above@).take(i as int),
        decreases above.len() - i,
    {
        let ghost n = above@.len() as int;
        if !same_text(above[i], all[i]) {
            assert(views(all@).take(n)[i as int] != views(above@)[i as int]);
            return None;
        }
        assert(views(all@).take(i + 1) =~= views(all@).take(i as int).push(all@[i as int]@));
        assert(views(above@).take(i + 1) =~= views(above@).take(i as int).push(above@[i as int]@));
        i += 1;
    }
    assert(views(above@).take(i as int) =~= views(above@));
    let mut rest: Vec<&str> = Vec::new();
    assert(views(rest@) =~= views(all@).subrange(above@.len() as int, i as int));
    while i < all.len()
        invariant
            above.len() <= i <= all.len(),
            views(rest@) == views(all@).subrange(above@.len() as int, i as int),
        decreases all.len() - i,
    {
        let ghost done = views(rest@);
        rest.push(all[i]);
        assert(views(rest@) =~= done.push(all@[i as int]@));
        assert(views(all@).subrange(above@.len() as int, i + 1) =~= done.push(all@[i as int]@));
        i += 1;
    }
    assert(views(rest@) =~= views(all@).skip(above@.len() as int));
    Some(join(&rest, "/"))
}

/// A text that can be a name in a path.
pub open spec fn is_name(s: Seq<char>) -> bool {
    s.len() > 0 && s != seq!['.'] && !s.contains('/')
}

/// The names in a path are names.
proof fn lemma_names_are_names(p: Seq<char>)
    ensures
        forall|i: int| 0 <= i < names_in(p).len() ==> is_name(#[trigger] names_in(p)[i]),
    decreases p.len(),
{
    lemma_before_char(p, '/');
    let here = name_between(before_char(p, '/'));
    if let Some(rest) = after_char(p, '/') {
        lemma_names_are_names(rest);
        assert forall|i: int| 0 <= i < names_in(p).len() implies is_name(
            #[trigger] names_in(p)[i],
        ) by {
            if i >= here.len() {
                assert(names_in(p)[i] == names_in(rest)[i - here.len()]);
            } else {
                assert(names_in(p)[i] == here[i]);
            }
        }
    }
}

/// A name is the only name in itself.
proof fn lemma_name_alone(name: Seq<char>)
    requires
        is_name(name),
    ensures
        names_in(name) == seq![name],
{
    lemma_before_char(name, '/');
    if let Some(rest) = after_char(name, '/') {
        assert(before_char(name, '/').len() == name.len());
    }
}

/// The names in a path are those before a slash and those behind it.
proof fn lemma_names_around_slash(front: Seq<char>, back: Seq<char>)
    ensures
        names_in(front + seq!['/'] + back) == names_in(front) + names_in(back),
    decreases front.len(),
{
    let first = before_char(front, '/');
    lemma_before_char(front, '/');
    match after_char(front, '/') {
        Some(rest) => {
            let behind = rest + seq!['/'] + back;
            assert(front + seq!['/'] + back =~= first + seq!['/'] + behind) by {
                lemma_char_position_facts(front, '/');
                assert(front =~= first + seq!['/'] + rest);
            }
            lemma_split_at_char(first, '/', behind);
            lemma_names_around_slash(rest, back);
            let here = name_between(first);
            assert(here + (names_in(rest) + names_in(back)) =~= (here + names_in(rest)) + names_in(
                back,
            ));
        },
        None => {
            assert(first =~= front) by {
                lemma_char_position_facts(front, '/');
            }
            lemma_split_at_char(front, '/', back);
        },
    }
}

/// Names that are joined by slashes are read back as they were.
proof fn lemma_joined_names_are_read_back(names: Seq<Seq<char>>)
    requires
        forall|i: int| 0 <= i < names.len() ==> is_name(#[trigger] names[i]),
    ensures
        names_in(joined(names, "/"@)) == names,
        !is_absolute_path(joined(names, "/"@)),
    decreases names.len(),
{
    reveal_strlit("/");
    assert("/"@ =~= seq!['/']);
    let whole = joined(names, "/"@);
    if names.len() == 0 {
        lemma_before_char(whole, '/');
        assert(names_in(whole) =~= names);
    } else if names.len() == 1 {
        assert(is_name(names[0]));
        lemma_name_alone(names[0]);
        assert(names_in(whole) =~= names);
        assert(names[0].contains(names[0][0]));
    } else {
        let init = names.drop_last();
        lemma_joined_names_are_read_back(init);
        assert(is_name(names.last()));
        lemma_name_alone(names.last());
        lemma_names_around_slash(joined(init, "/"@), names.last());
        assert(whole =~= joined(init, "/"@) + seq!['/'] + names.last());
        assert(names_in(whole) =~= names);
        if joined(init, "/"@).len() == 0 {
            lemma_before_char(joined(init, "/"@), '/');
            assert(names_in(joined(init, "/"@)).len() == 0);
        }
    }
}

/// What a full path is as seen from a directory leads back from there: to a path with the same
/// names.
pub proof fn lemma_relative_paths_lead_back(base: Seq<char>, p: Seq<char>)
    requires
        relative_of(base, p) is Some,
    ensures
        names_in(joined_path(base, relative_of(base, p)->0)) == names_in(p),
        is_absolute_path(joined_path(base, relative_of(base, p)->0)) == is_absolute_path(p),
{
    let rest = relative_of(base, p)->0;
    if base.len() > 0 {
        let below = names_in(p).skip(names_in(base).len() as int);
        lemma_names_are_names(p);
        lemma_joined_names_are_read_back(below);
        assert(names_in(base) + below =~= names_in(p));
        if base.last() == '/' {
            let front = base.drop_last();
            assert(base =~= front + seq!['/'] + Seq::<char>::empty());
            lemma_names_around_slash(front, seq![]);
            lemma_before_char(seq![], '/');
            assert(names_in(seq![]) =~= seq![]);
            assert(names_in(front) + names_in(seq![]) =~= names_in(front));
            assert(base + rest =~= front + seq!['/'] + rest);
            lemma_names_around_slash(front, rest);
        } else {
            lemma_names_around_slash(base, rest);
        }
    }
}

proof fn lemma_no_tail(p: Seq<char>, c: char)
    requires
        !p.contains(c),
    ensures
        tail_start(p, c) == 0,
    decreases p.len(),
{
    if p.len() > 0 {
        let rest = p.drop_last();
        assert(p.contains(p.last()));
        assert forall|i: int| 0 <= i < rest.len() implies rest[i] != c by {
            assert(p.contains(p[i]));
        }
        lemma_no_tail(rest, c);
    }
}

/// A path that ends in a name: that is the name of its file, and what precedes the name is its
/// parent, without slashes at the end; above a name below the root directory there is that.
pub proof fn lemma_last_name_of_path(base: Seq<char>, name: Seq<char>)
    requires
        is_name(name),
        name != seq!['.', '.'],
    ensures
        file_name_of(base + seq!['/'] + name) == Some(name),
        file_name_of(name) == Some(name),
        parent_of(base + seq!['/'] + name) == if trimmed_path(base).len() == 0 {
            Some(seq!['/'])
        } else {
            Some(trimmed_path(base))
        },
        parent_of(name) == Some(Seq::<char>::empty()),
        trimmed_path(base + seq!['/'] + name) == base + seq!['/'] + name,
{
    let front = base + seq!['/'];
    let whole = front + name;
    lemma_no_tail(name, '/');
    lemma_tail_behind(front, name, '/');
    assert(name.contains(name.last()));
    assert(whole.last() == name.last());
    if name.len() > 1 {
        assert(name.contains(name[name.len() - 2]));
        assert(whole[whole.len() - 2] == name[name.len() - 2]);
    } else {
        assert(name =~= seq![name[0]]);
        assert(name[0] != '.');
    }
    assert(trimmed_path(whole) == whole);
    assert(trimmed_path(name) == name);
    assert(tail(name, '/') =~= name);
    assert(tail(whole, '/') =~= name);
    assert(whole.take(front.len() as int) =~= front);
    assert(front.drop_last() =~= base);
    assert(front.last() == '/');
    assert(trimmed_path(front) == trimmed_path(base));
    assert(name.take(0) =~= Seq::<char>::empty());
    assert(trimmed_path(Seq::<char>::empty()) =~= Seq::<char>::empty());
}

/// A slash at the end of a path does not count.
pub proof fn lemma_slash_at_the_end_does_not_count(p: Seq<char>)
    ensures
        file_name_of(p + seq!['/']) == file_name_of(p),
        parent_of(p + seq!['/']) == parent_of(p),
        extension_of(p + seq!['/']) == extension_of(p),
{
    assert((p + seq!['/']).drop_last() =~= p);
}

/// The extension of a file follows the last dot of its name. A name without a dot, and one with
/// a dot at its start alone, has none.
pub proof fn lemma_extension_follows_the_last_dot(
    base: Seq<char>,
    stem: Seq<char>,
    ext: Seq<char>,
)
    requires
        !stem.contains('/'),
        !ext.contains('/'),
        !ext.contains('.'),
        ext.len() > 0,
    ensures
        stem.len() > 0 ==> extension_of(base + seq!['/'] + (stem + seq!['.'] + ext)) == Some(ext),
        stem.len() > 0 ==> extension_of(stem + seq!['.'] + ext) == Some(ext),
        extension_of(base + seq!['/'] + (seq!['.'] + ext)) is None,
        extension_of(base + seq!['/'] + ext) is None,
        extension_of(ext) is None,
{
    let front = stem + seq!['.'];
    let name = front + ext;
    assert(name.len() > 1 && name.last() == ext.last());
    assert(ext.contains(ext.last()));
    assert forall|i: int| 0 <= i < name.len() implies name[i] != '/' by {
        if i < stem.len() {
            assert(stem.contains(stem[i]));
        } else if i > stem.len() {
            assert(ext.contains(ext[i - stem.len() - 1]));
        }
    }
    assert(name != seq!['.', '.']) by {
        assert(name.last() != '.');
    }
    assert(ext != seq!['.', '.']) by {
        assert(ext.last() != '.');
    }
    assert(ext != seq!['.']) by {
        assert(ext.last() != '.');
    }
    lemma_last_name_of_path(base, name);
    lemma_last_name_of_path(base, ext);
    lemma_no_tail(ext, '.');
    lemma_tail_behind(front, ext, '.');
    assert(tail(ext, '.') =~= ext);
    let hidden = seq!['.'] + ext;
    assert(hidden.last() == ext.last());
    assert forall|i: int| 0 <= i < hidden.len() implies hidden[i] != '/' by {
        if i > 0 {
            assert(ext.contains(ext[i - 1]));
        }
    }
    lemma_last_name_of_path(base, hidden);
    lemma_tail_behind(seq!['.'], ext, '.');
}

/// A path that is no full one stands below the directory that it is seen from: its names follow
/// those of the directory. A full path stays as it is.
pub proof fn lemma_joined_paths_have_the_names_of_both(base: Seq<char>, p: Seq<char>)
    ensures
        is_absolute_path(p) ==> joined_path(base, p) == p,
        !is_absolute_path(p) ==> names_in(joined_path(base, p)) == names_in(base) + names_in(p),
        !is_absolute_path(p) && base.len() > 0 ==> {
            &&& is_absolute_path(joined_path(base, p)) == is_absolute_path(base)
            &&& joined_path(base, p).take(base.len() as int) == base
            &&& joined_path(base, p).skip(joined_path(base, p).len() - p.len()) == p
        },
{
    let whole = joined_path(base, p);
    lemma_before_char(Seq::<char>::empty(), '/');
    assert(names_in(Seq::<char>::empty()) =~= seq![]);
    if !is_absolute_path(p) {
        if base.len() == 0 {
            assert(base =~= Seq::<char>::empty());
            assert(names_in(base) + names_in(p) =~= names_in(p));
        } else {
            assert(whole.take(base.len() as int) =~= base);
            assert(whole.skip(whole.len() - p.len()) =~= p);
            assert(whole[0] == base[0]);
            if base.last() == '/' {
                let front = base.drop_last();
                assert(base =~= front + seq!['/'] + Seq::<char>::empty());
                lemma_names_around_slash(front, seq![]);
                assert(names_in(front) + Seq::<Seq<char>>::empty() =~= names_in(front));
                assert(whole =~= front + seq!['/'] + p);
                lemma_names_around_slash(front, p);
            } else {
                lemma_names_around_slash(base, p);
            }
        }
    }
}

/// A full path is seen from a directory just where its names start with those of the directory, and
/// then by the names that follow.
pub proof fn lemma_relative_paths_are_what_follows(base: Seq<char>, p: Seq<char>)
    requires
        base.len() > 0,
    ensures
        relative_of(base, p) is Some <==> is_absolute_path(base) == is_absolute_path(p) && exists|
            below: Seq<Seq<char>>,
        | #[trigger] (names_in(base) + below) == names_in(p),
        relative_of(base, p) matches Some(rest) ==> names_in(base) + names_in(rest) == names_in(p)
            && !is_absolute_path(rest),
{
    let above = names_in(base);
    let all = names_in(p);
    if relative_of(base, p) is Some {
        let below = all.skip(above.len() as int);
        assert(above + below =~= all);
        lemma_names_are_names(p);
        lemma_joined_names_are_read_back(below);
    }
    if exists|below: Seq<Seq<char>>| #[trigger] (above + below) == all {
        let below = choose|below: Seq<Seq<char>>| #[trigger] (above + below) == all;
        assert(all.take(above.len() as int) =~= above);
    }
}

/// The full path of a file below the root directory, by its names.
pub open spec fn spelled(names: Seq<Seq<char>>) -> Seq<char>
    decreases names.len(),
{
    if names.len() == 0 {
        seq![]
    } else {
        spelled(names.drop_last()) + seq!['/'] + names.last()
    }
}

/// A text that names a file or a directory in the directory above it.
pub open spec fn is_entry(s: Seq<char>) -> bool {
    is_name(s) && s != seq!['.', '.']
}

/// The parent of a full path has all names of the path but the last, which names its file.
pub proof fn lemma_spelled_paths(names: Seq<Seq<char>>)
    requires
        names.len() > 0,
        forall|i: int| 0 <= i < names.len() ==> is_entry(#[trigger] names[i]),
    ensures
        file_name_of(spelled(names)) == Some(names.last()),
        parent_of(spelled(names)) == if names.len() == 1 {
            Some(seq!['/'])
        } else {
            Some(spelled(names.drop_last()))
        },
        trimmed_path(spelled(names)) == spelled(names),
        is_absolute_path(spelled(names)),
        names_in(spelled(names)) == names,
        parent_of(seq!['/']) is None,
        file_name_of(seq!['/']) is None,
    decreases names.len(),
{
    let above = names.drop_last();
    let base = spelled(above);
    assert(is_entry(names.last()));
    lemma_last_name_of_path(base, names.last());
    lemma_name_alone(names.last());
    lemma_names_around_slash(base, names.last());
    lemma_before_char(Seq::<char>::empty(), '/');
    assert(names_in(Seq::<char>::empty()) =~= seq![]);
    assert(seq!['/'].drop_last() =~= Seq::<char>::empty());
    reveal_with_fuel(trimmed_path, 2);
    reveal_with_fuel(tail_start, 2);
    assert(trimmed_path(seq!['/']).len() == 0);
    assert(tail(trimmed_path(seq!['/']), '/').len() == 0);
    if above.len() > 0 {
        assert forall|i: int| 0 <= i < above.len() implies is_entry(#[trigger] above[i]) by {
            assert(above[i] == names[i]);
        }
        lemma_spelled_paths(above);
        assert(names_in(spelled(names)) =~= names);
    } else {
        assert(base =~= Seq::<char>::empty());
        assert(names_in(spelled(names)) =~= names);
    }
}

/// A path that ends in `..` names no file, and one that ends in a `.` component what precedes that.
pub proof fn lemma_dots_name_no_files(base: Seq<char>)
    ensures
        file_name_of(base + seq!['/', '.', '.']) is None,
        file_name_of(seq!['.', '.']) is None,
        file_name_of(Seq::<char>::empty()) is None,
        parent_of(Seq::<char>::empty()) is None,
        file_name_of(base + seq!['/', '.']) == file_name_of(base),
        parent_of(base + seq!['/', '.']) == parent_of(base),
        parent_of(base + seq!['/', '.', '.']) == if trimmed_path(base).len() == 0 {
            Some(seq!['/'])
        } else {
            Some(trimmed_path(base))
        },
{
    let up = seq!['.', '.'];
    let front = base + seq!['/'];
    let whole = base + seq!['/', '.', '.'];
    assert(whole =~= front + up);
    assert(!up.contains('/'));
    lemma_no_tail(up, '/');
    lemma_tail_behind(front, up, '/');
    assert(trimmed_path(whole) == whole);
    assert(trimmed_path(up) == up);
    assert(tail(up, '/') =~= up);
    assert(tail(whole, '/') =~= up);
    assert(whole.take(front.len() as int) =~= front);
    assert(front.drop_last() =~= base);
    assert(trimmed_path(front) == trimmed_path(base));
    assert(trimmed_path(Seq::<char>::empty()) =~= Seq::<char>::empty());
    assert(tail(Seq::<char>::empty(), '/') =~= Seq::<char>::empty());
    let here = base + seq!['/', '.'];
    assert(here.drop_last() =~= front);
    assert(here.last() == '.' && here[here.len() - 2] == '/');
    assert(trimmed_path(here) == trimmed_path(base));
}

/// Seen from nowhere, a path stays as it is.
pub proof fn lemma_paths_seen_from_nowhere(p: Seq<char>)
    ensures
        relative_of(Seq::<char>::empty(), p) == Some(p),
        joined_path(Seq::<char>::empty(), p) == p,
{
}

} // verus!
