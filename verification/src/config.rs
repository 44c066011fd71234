//! Build-time settings of the application.
//!
//! Each setting is fixed when the program is built. The program hands the
//! value it was built with (absent when the build did not set it) to the
//! accessor below, which insists that it is present: a program built without
//! one of them is not a program that can run.

use vstd::prelude::*;

verus! {

/// The parts of `s` between occurrences of `sep`, in order: what `str::split`
/// yields for a single-character pattern. There is always at least one part;
/// `k` occurrences of `sep` give `k + 1` parts, some of them possibly empty.
pub open spec fn split_on(s: Seq<char>, sep: char) -> Seq<Seq<char>>
    decreases s.len(),
{
    if s.len() == 0 {
        seq![Seq::<char>::empty()]
    } else {
        let parts = split_on(s.drop_last(), sep);
        if s.last() == sep {
            parts.push(Seq::<char>::empty())
        } else {
            parts.update(parts.len() - 1, parts.last().push(s.last()))
        }
    }
}

/// The parts put back together, with `sep` between each two of them.
pub open spec fn join_with(parts: Seq<Seq<char>>, sep: char) -> Seq<char>
    decreases parts.len(),
{
    if parts.len() == 0 {
        Seq::<char>::empty()
    } else if parts.len() == 1 {
        parts[0]
    } else {
        join_with(parts.drop_last(), sep).push(sep) + parts.last()
    }
}

/// How many times `c` occurs in `s`.
pub open spec fn count_char(s: Seq<char>, c: char) -> nat
    decreases s.len(),
{
    if s.len() == 0 {
        0
    } else {
        count_char(s.drop_last(), c) + if s.last() == c { 1nat } else { 0nat }
    }
}

/// The views of a sequence of string slices.
pub open spec fn str_views(parts: Seq<&str>) -> Seq<Seq<char>> {
    parts.map_values(|p: &str| p@)
}

/// Splitting always yields at least one part, and one more part than there
/// are separators.
pub proof fn lemma_split_len(s: Seq<char>, sep: char)
    ensures
        split_on(s, sep).len() >= 1,
        split_on(s, sep).len() == count_char(s, sep) + 1,
    decreases s.len(),
{
    if s.len() > 0 {
        lemma_split_len(s.drop_last(), sep);
    }
}

/// Appending to the last part appends to the joined text.
proof fn lemma_join_extend_last(parts: Seq<Seq<char>>, sep: char, c: char)
    requires
        parts.len() >= 1,
    ensures
        join_with(parts.update(parts.len() - 1, parts.last().push(c)), sep)
            == join_with(parts, sep).push(c),
{
    let q = parts.update(parts.len() - 1, parts.last().push(c));
    if parts.len() == 1 {
        assert(q[0] == parts[0].push(c));
    } else {
        assert(q.drop_last() =~= parts.drop_last());
        assert(q.last() == parts.last().push(c));
        assert(join_with(q, sep) =~= join_with(parts, sep).push(c));
    }
}

/// Law: putting the parts of a split back together with the separator gives
/// back the text that was split.
pub proof fn lemma_join_split(s: Seq<char>, sep: char)
    ensures
        join_with(split_on(s, sep), sep) == s,
    decreases s.len(),
{
    if s.len() == 0 {
    } else {
        let t = s.drop_last();
        let c = s.last();
        lemma_join_split(t, sep);
        lemma_split_len(t, sep);
        let parts = split_on(t, sep);
        assert(s =~= t.push(c));
        if c == sep {
            let q = parts.push(Seq::<char>::empty());
            assert(q.drop_last() =~= parts);
            assert(join_with(q, sep) =~= t.push(sep));
        } else {
            lemma_join_extend_last(parts, sep, c);
        }
    }
}

/// Law: no part of a split holds the separator.
pub proof fn lemma_split_parts_free_of_sep(s: Seq<char>, sep: char)
    ensures
        forall|i: int|
            0 <= i < split_on(s, sep).len() ==> !(#[trigger] split_on(s, sep)[i]).contains(sep),
    decreases s.len(),
{
    if s.len() > 0 {
        let t = s.drop_last();
        lemma_split_parts_free_of_sep(t, sep);
        lemma_split_len(t, sep);
        let parts = split_on(t, sep);
        if s.last() != sep {
            let last = parts.last().push(s.last());
            assert forall|j: int| 0 <= j < last.len() implies last[j] != sep by {
                if j < parts.last().len() {
                    assert(last[j] == parts.last()[j]);
                    assert(parts[parts.len() - 1] == parts.last());
                }
            }
        }
    }
}

/// The application identifier (also its settings schema and icon name).
pub fn app_id(configured: Option<&'static str>) -> (id: &'static str)
    requires
        configured is Some,
    ensures
        id@ == configured->0@,
{
    configured.unwrap()
}

/// The gettext translation domain.
pub fn gettext_package(configured: Option<&'static str>) -> (package: &'static str)
    requires
        configured is Some,
    ensures
        package@ == configured->0@,
{
    configured.unwrap()
}

/// The directory of the compiled translations.
pub fn localedir(configured: Option<&'static str>) -> (dir: &'static str)
    requires
        configured is Some,
    ensures
        dir@ == configured->0@,
{
    configured.unwrap()
}

/// The path of the compiled resource bundle.
pub fn resources_file(configured: Option<&'static str>) -> (path: &'static str)
    requires
        configured is Some,
    ensures
        path@ == configured->0@,
{
    configured.unwrap()
}

/// The directory of the installed application data.
pub fn pkgdatadir(configured: Option<&'static str>) -> (dir: &'static str)
    requires
        configured is Some,
    ensures
        dir@ == configured->0@,
{
    configured.unwrap()
}

/// The package version.
pub fn version(configured: Option<&'static str>) -> (v: &'static str)
    requires
        configured is Some,
    ensures
        v@ == configured->0@,
{
    configured.unwrap()
}

/// The build profile (such as a development or a release build).
pub fn profile(configured: Option<&'static str>) -> (p: &'static str)
    requires
        configured is Some,
    ensures
        p@ == configured->0@,
{
    configured.unwrap()
}

/// The package authors: the configured list is colon-separated, and each
/// piece between colons is one author, in order.
pub fn authors(configured: Option<&'static str>) -> (names: Vec<&'static str>)
    requires
        configured is Some,
    ensures
        str_views(names@) == split_on(configured->0@, ':'),
{
    let s = configured.unwrap();
    let n = s.unicode_len();
    let mut parts: Vec<&'static str> = Vec::new();
    let mut start: usize = 0;
    let mut i: usize = 0;
    assert(s@.take(0) =~= Seq::<char>::empty());
    assert(str_views(parts@) =~= Seq::<Seq<char>>::empty());
    assert(s@.subrange(0, 0) =~= Seq::<char>::empty());
    assert(split_on(Seq::<char>::empty(), ':') =~= seq![Seq::<char>::empty()]);
    while i < n
        invariant
            start <= i <= n,
            n == s@.len(),
            split_on(s@.take(i as int), ':') == str_views(parts@).push(
                s@.subrange(start as int, i as int),
            ),
        decreases n - i,
    {
        let c = s.get_char(i);
        let ghost prev = str_views(parts@);
        let ghost cur = s@.subrange(start as int, i as int);
        assert(s@.take(i + 1).drop_last() =~= s@.take(i as int));
        assert(s@.take(i + 1).last() == c);
        if c == ':' {
            let piece = s.substring_char(start, i);
            parts.push(piece);
            assert(str_views(parts@) =~= prev.push(cur));
            assert(s@.subrange((i + 1) as int, (i + 1) as int) =~= Seq::<char>::empty());
            assert(split_on(s@.take(i + 1), ':') =~= prev.push(cur).push(Seq::<char>::empty()));
            start = i + 1;
        } else {
            assert(s@.subrange(start as int, i + 1) =~= cur.push(c));
            assert(prev.push(cur).update(prev.len() as int, cur.push(c)) =~= prev.push(cur.push(c)));
        }
        i = i + 1;
    }
    let last = s.substring_char(start, n);
    let ghost prev = str_views(parts@);
    parts.push(last);
    assert(s@.take(n as int) =~= s@);
    assert(str_views(parts@) =~= prev.push(s@.subrange(start as int, n as int)));
    parts
}

} // verus!
