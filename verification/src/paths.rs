//! Which files a run inspects: the patterns of a configuration string, and
//! the included paths without the ignored ones.

use vstd::prelude::*;
use vstd::string::{StrSliceExecFns, StringExecFns};

verus! {

/// The pieces of `text` between its commas, built up character by
/// character: a comma opens a new piece, any other character joins the last one.
pub open spec fn split_on_commas(text: Seq<char>) -> Seq<Seq<char>>
    decreases text.len(),
{
    if text.len() == 0 {
        seq![Seq::<char>::empty()]
    } else {
        let before = split_on_commas(text.drop_last());
        if text.last() == ',' {
            before.push(Seq::<char>::empty())
        } else {
            before.drop_last().push(before.last().push(text.last()))
        }
    }
}

/// The patterns that a comma-separated list names. The empty list names none.
pub open spec fn pattern_list(text: Seq<char>) -> Seq<Seq<char>> {
    if text.len() == 0 {
        Seq::empty()
    } else {
        split_on_commas(text)
    }
}

/// The views of the strings in `strings`.
pub open spec fn views(strings: Seq<String>) -> Seq<Seq<char>> {
    strings.map_values(|s: String| s@)
}

/// The set of paths that occur in `paths`.
pub open spec fn path_set(paths: Seq<String>) -> Set<Seq<char>> {
    views(paths).to_set()
}

/// The patterns that the comma-separated list `text` names, in its order.
pub fn split_patterns(text: &str) -> (patterns: Vec<String>)
    ensures
        views(patterns@) == pattern_list(text@),
{
    let mut patterns: Vec<String> = Vec::new();
    let n = text.unicode_len();
    if n == 0 {
        assert(views(patterns@) =~= pattern_list(text@));
        return patterns;
    }
    let mut start: usize = 0;
    let mut i: usize = 0;
    proof {
        assert(text@.take(0) =~= Seq::<char>::empty());
        assert(text@.subrange(0, 0) =~= Seq::<char>::empty());
        assert(views(patterns@).push(text@.subrange(0, 0)) =~= split_on_commas(text@.take(0)));
    }
    while i < n
        invariant
            n == text@.len(),
            start <= i <= n,
            views(patterns@).push(text@.subrange(start as int, i as int)) == split_on_commas(
                text@.take(i as int),
            ),
        decreases n - i,
    {
        let c = text.get_char(i);
        let ghost before = split_on_commas(text@.take(i as int));
        proof {
            let next = text@.take(i + 1);
            assert(next.drop_last() =~= text@.take(i as int));
            assert(next.last() == c);
            assert(before.last() == text@.subrange(start as int, i as int));
            assert(before.drop_last() =~= views(patterns@));
        }
        if c == ',' {
            let piece = String::from_str(text.substring_char(start, i));
            let ghost old_patterns = patterns@;
            patterns.push(piece);
            start = i + 1;
            proof {
                assert(views(patterns@) =~= views(old_patterns).push(piece@));
                assert(text@.subrange(start as int, i + 1) =~= Seq::<char>::empty());
            }
        } else {
            proof {
                assert(text@.subrange(start as int, i + 1) =~= text@.subrange(
                    start as int,
                    i as int,
                ).push(c));
            }
        }
        i += 1;
    }
    let piece = String::from_str(text.substring_char(start, n));
    let ghost old_patterns = patterns@;
    patterns.push(piece);
    proof {
        assert(text@.take(n as int) =~= text@);
        assert(views(patterns@) =~= views(old_patterns).push(piece@));
    }
    patterns
}

/// Whether `path` occurs in `paths`.
pub fn contains_path(paths: &Vec<String>, path: &String) -> (found: bool)
    ensures
        found == path_set(paths@).contains(path@),
{
    let mut i: usize = 0;
    while i < paths.len()
        invariant
            i <= paths.len(),
            forall|j: int| 0 <= j < i ==> (#[trigger] paths@[j])@ != path@,
        decreases paths.len() - i,
    {
        if paths[i] == *path {
            proof {
                assert(views(paths@)[i as int] == path@);
            }
            return true;
        }
        i += 1;
    }
    proof {
        assert forall|j: int| 0 <= j < views(paths@).len() implies views(paths@)[j] != path@ by {
            assert(views(paths@)[j] == paths@[j]@);
        }
    }
    false
}

/// The paths of `included` that are not in `ignored`, each once, in the
/// order in which `included` first names them.
pub open spec fn kept_paths(included: Seq<Seq<char>>, ignored: Set<Seq<char>>) -> Seq<Seq<char>>
    decreases included.len(),
{
    if included.len() == 0 {
        Seq::empty()
    } else {
        let before = kept_paths(included.drop_last(), ignored);
        let path = included.last();
        if ignored.contains(path) || before.contains(path) {
            before
        } else {
            before.push(path)
        }
    }
}

/// The paths that a run inspects: those of `included` that are not in
/// `ignored`, each once, in the order in which `included` first names them.
pub fn resolve_paths(included: &Vec<String>, ignored: &Vec<String>) -> (resolved: Vec<String>)
    ensures
        views(resolved@) == kept_paths(views(included@), path_set(ignored@)),
        path_set(resolved@) == path_set(included@).difference(path_set(ignored@)),
        views(resolved@).no_duplicates(),
{
    let mut resolved: Vec<String> = Vec::new();
    let mut i: usize = 0;
    proof {
        assert(views(included@).take(0) =~= Seq::<Seq<char>>::empty());
        assert(views(resolved@) =~= Seq::<Seq<char>>::empty());
    }
    while i < included.len()
        invariant
            i <= included.len(),
            views(resolved@) == kept_paths(views(included@).take(i as int), path_set(ignored@)),
        decreases included.len() - i,
    {
        let path = &included[i];
        let ghost before = resolved@;
        proof {
            let next = views(included@).take(i + 1);
            assert(next.drop_last() =~= views(included@).take(i as int));
            assert(next.last() == path@);
        }
        if !contains_path(ignored, path) && !contains_path(&resolved, path) {
            resolved.push(path.clone());
            proof {
                assert(views(resolved@) =~= views(before).push(path@));
            }
        }
        i += 1;
    }
    proof {
        assert(views(included@).take(included.len() as int) =~= views(included@));
        lemma_kept_paths_are_the_difference(views(included@), path_set(ignored@));
    }
    resolved
}

/// What is kept of the included paths is, as a set, the included paths
/// without the ignored ones, and no path is kept twice.
pub proof fn lemma_kept_paths_are_the_difference(included: Seq<Seq<char>>, ignored: Set<Seq<char>>)
    ensures
        kept_paths(included, ignored).to_set() == included.to_set().difference(ignored),
        kept_paths(included, ignored).no_duplicates(),
    decreases included.len(),
{
    if included.len() == 0 {
        assert(kept_paths(included, ignored).to_set() =~= included.to_set().difference(ignored));
    } else {
        let rest = included.drop_last();
        let path = included.last();
        let before = kept_paths(rest, ignored);
        lemma_kept_paths_are_the_difference(rest, ignored);
        assert(included =~= rest.push(path));
        lemma_set_of_push(rest, path);
        if ignored.contains(path) || before.contains(path) {
            assert(before.to_set() =~= included.to_set().difference(ignored));
        } else {
            lemma_set_of_push(before, path);
            assert(before.push(path).to_set() =~= included.to_set().difference(ignored));
        }
    }
}

/// A path that both an included and an ignored pattern matched is not inspected.
pub proof fn lemma_ignored_path_is_excluded(
    included: Seq<Seq<char>>,
    ignored: Set<Seq<char>>,
    path: Seq<char>,
)
    requires
        ignored.contains(path),
    ensures
        !kept_paths(included, ignored).contains(path),
{
    lemma_kept_paths_are_the_difference(included, ignored);
    assert(!kept_paths(included, ignored).to_set().contains(path));
}

/// A path that an included pattern matched and no ignored one is inspected.
pub proof fn lemma_included_path_is_kept(
    included: Seq<Seq<char>>,
    ignored: Set<Seq<char>>,
    path: Seq<char>,
)
    requires
        included.contains(path),
        !ignored.contains(path),
    ensures
        kept_paths(included, ignored).contains(path),
{
    lemma_kept_paths_are_the_difference(included, ignored);
    assert(included.to_set().contains(path));
    assert(kept_paths(included, ignored).to_set().contains(path));
}

/// The set of a sequence with one more item is the set of the sequence with that item.
pub proof fn lemma_set_of_push(items: Seq<Seq<char>>, item: Seq<char>)
    ensures
        items.push(item).to_set() == items.to_set().insert(item),
{
    let pushed = items.push(item);
    assert forall|x: Seq<char>| pushed.to_set().contains(x) <==> items.to_set().insert(
        item,
    ).contains(x) by {
        if pushed.contains(x) {
            let j = choose|j: int| 0 <= j < pushed.len() && pushed[j] == x;
            if j < items.len() {
                assert(items[j] == x);
            }
        }
        if items.contains(x) {
            let j = choose|j: int| 0 <= j < items.len() && items[j] == x;
            assert(pushed[j] == x);
        }
        if x == item {
            assert(pushed[items.len() as int] == x);
        }
    }
    assert(pushed.to_set() =~= items.to_set().insert(item));
}

/// The pieces with a comma between each two of them.
pub open spec fn joined_with_commas(pieces: Seq<Seq<char>>) -> Seq<char>
    decreases pieces.len(),
{
    if pieces.len() == 0 {
        Seq::empty()
    } else if pieces.len() == 1 {
        pieces[0]
    } else {
        joined_with_commas(pieces.drop_last()) + seq![','] + pieces.last()
    }
}

/// Splitting loses nothing: there is always a piece, no piece holds a
/// comma, and the pieces with commas between them are the text again.
pub proof fn lemma_split_then_join(text: Seq<char>)
    ensures
        split_on_commas(text).len() >= 1,
        joined_with_commas(split_on_commas(text)) == text,
        forall|i: int|
            0 <= i < split_on_commas(text).len() ==> !(#[trigger] split_on_commas(text)[i]).contains(
                ',',
            ),
    decreases text.len(),
{
    let pieces = split_on_commas(text);
    if text.len() == 0 {
        assert(joined_with_commas(pieces) =~= text);
    } else {
        let before = split_on_commas(text.drop_last());
        let c = text.last();
        lemma_split_then_join(text.drop_last());
        assert(text =~= text.drop_last().push(c));
        if c == ',' {
            assert(pieces.drop_last() =~= before);
            assert(joined_with_commas(pieces) =~= text);
        } else {
            let grown = before.last().push(c);
            assert(pieces.last() == grown);
            assert(pieces.drop_last() =~= before.drop_last());
            if before.len() == 1 {
                assert(joined_with_commas(pieces) =~= text);
            } else {
                assert(joined_with_commas(before) == joined_with_commas(before.drop_last()) + seq![
                    ',',
                ] + before.last());
                assert(joined_with_commas(pieces) =~= joined_with_commas(before).push(c));
            }
            assert forall|i: int| 0 <= i < pieces.len() implies !(#[trigger] pieces[i]).contains(
                ',',
            ) by {
                if i < pieces.len() - 1 {
                    assert(pieces[i] == before[i]);
                } else {
                    assert(!before.last().contains(','));
                    if grown.contains(',') {
                        let j = choose|j: int| 0 <= j < grown.len() && grown[j] == ',';
                        assert(before.last()[j] == ',');
                    }
                }
            }
        }
    }
}

} // verus!
