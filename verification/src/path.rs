//! Logical paths: splitting a slash-delimited path into its pieces, the
//! directory segments that lead to a file, and the file's name.

use vstd::prelude::*;
use vstd::string::*;

verus! {

/// The character that separates the pieces of a logical path.
pub const SEPARATOR: char = '/';

/// The pieces of `path` between its separators, empty ones included. A path
/// with `n` separators has `n + 1` pieces.
pub open spec fn pieces(path: Seq<char>) -> Seq<Seq<char>>
    decreases path.len(),
{
    if path.len() == 0 {
        seq![Seq::empty()]
    } else {
        let before = pieces(path.drop_last());
        if path.last() == SEPARATOR {
            before.push(Seq::empty())
        } else {
            before.drop_last().push(before.last().push(path.last()))
        }
    }
}

/// The pieces of `all` that are not empty, in order.
pub open spec fn non_empty(all: Seq<Seq<char>>) -> Seq<Seq<char>>
    decreases all.len(),
{
    if all.len() == 0 {
        Seq::empty()
    } else if all.last().len() == 0 {
        non_empty(all.drop_last())
    } else {
        non_empty(all.drop_last()).push(all.last())
    }
}

/// The name of the file that `path` leads to: its last piece, which is empty
/// when the path is empty or ends in a separator.
pub open spec fn file_name_of(path: Seq<char>) -> Seq<char> {
    pieces(path).last()
}

/// The segments of `path`: its non-empty pieces, without the last piece of
/// the path unless `keep_last` is set.
pub open spec fn segments_of(path: Seq<char>, keep_last: bool) -> Seq<Seq<char>> {
    if keep_last {
        non_empty(pieces(path))
    } else {
        non_empty(pieces(path).drop_last())
    }
}

/// What a list of strings holds, as sequences of characters.
pub open spec fn texts(list: Seq<String>) -> Seq<Seq<char>> {
    Seq::new(list.len(), |i: int| list[i]@)
}

/// A path always has a last piece.
pub proof fn lemma_pieces_len(path: Seq<char>)
    ensures
        pieces(path).len() >= 1,
    decreases path.len(),
{
    if path.len() > 0 {
        lemma_pieces_len(path.drop_last());
    }
}

/// Whether `text` holds no separator.
pub open spec fn plain(text: Seq<char>) -> bool {
    forall|i: int| 0 <= i < text.len() ==> text[i] != SEPARATOR
}

/// The path whose pieces are `all`: the pieces in order, with one separator
/// between each two neighbours.
pub open spec fn joined(all: Seq<Seq<char>>) -> Seq<char>
    decreases all.len(),
{
    if all.len() == 0 {
        Seq::empty()
    } else if all.len() == 1 {
        all[0]
    } else {
        joined(all.drop_last()).push(SEPARATOR) + all.last()
    }
}

/// Appending text without a separator to a path lengthens its last piece
/// and leaves the pieces before it as they were.
pub proof fn lemma_pieces_append_plain(path: Seq<char>, tail: Seq<char>)
    requires
        plain(tail),
    ensures
        pieces(path + tail).len() == pieces(path).len() >= 1,
        pieces(path + tail).drop_last() == pieces(path).drop_last(),
        pieces(path + tail).last() == pieces(path).last() + tail,
    decreases tail.len(),
{
    lemma_pieces_len(path);
    if tail.len() == 0 {
        assert(path + tail =~= path);
        assert(pieces(path).last() + tail =~= pieces(path).last());
    } else {
        let shorter = tail.drop_last();
        assert(plain(shorter));
        lemma_pieces_append_plain(path, shorter);
        assert((path + tail).drop_last() =~= path + shorter);
        assert((path + tail).last() == tail.last());
        let before = pieces(path + shorter);
        assert(pieces(path + tail) == before.drop_last().push(before.last().push(tail.last())));
        assert(before.last().push(tail.last()) =~= pieces(path).last() + tail);
        assert(pieces(path + tail).drop_last() =~= pieces(path).drop_last());
    }
}

/// No piece of a path holds a separator.
pub proof fn lemma_pieces_are_plain(path: Seq<char>, i: int)
    requires
        0 <= i < pieces(path).len(),
    ensures
        plain(pieces(path)[i]),
    decreases path.len(),
{
    if path.len() > 0 {
        let before = pieces(path.drop_last());
        lemma_pieces_len(path.drop_last());
        if i < before.len() - 1 {
            lemma_pieces_are_plain(path.drop_last(), i);
        } else if path.last() != SEPARATOR {
            lemma_pieces_are_plain(path.drop_last(), before.len() - 1);
        } else if i < before.len() {
            lemma_pieces_are_plain(path.drop_last(), i);
        }
    }
}

/// A path is its pieces joined by separators: splitting loses nothing and
/// keeps the order.
pub proof fn lemma_pieces_join(path: Seq<char>)
    ensures
        joined(pieces(path)) == path,
    decreases path.len(),
{
    if path.len() == 0 {
        assert(joined(pieces(path)) =~= path);
    } else {
        let shorter = path.drop_last();
        let before = pieces(shorter);
        lemma_pieces_len(shorter);
        lemma_pieces_join(shorter);
        if path.last() == SEPARATOR {
            let all = before.push(Seq::empty());
            assert(all.drop_last() =~= before);
            assert(joined(all) =~= shorter.push(SEPARATOR));
            assert(shorter.push(SEPARATOR) =~= path);
        } else {
            let grown = before.last().push(path.last());
            let all = before.drop_last().push(grown);
            assert(all.drop_last() =~= before.drop_last());
            assert(joined(all) =~= joined(before).push(path.last()));
            assert(shorter.push(path.last()) =~= path);
        }
    }
}

/// A path without a separator is a file name and nothing else: it has no
/// directory segments.
pub proof fn lemma_bare_file_name(path: Seq<char>)
    requires
        plain(path),
    ensures
        file_name_of(path) == path,
        segments_of(path, false) == Seq::<Seq<char>>::empty(),
{
    let nothing = Seq::<char>::empty();
    lemma_pieces_append_plain(nothing, path);
    assert(nothing + path =~= path);
    assert(pieces(nothing).last() + path =~= path);
    assert(pieces(path).drop_last() =~= Seq::<Seq<char>>::empty());
}

/// Where `last` is the place of the last separator of `path`, the file name
/// is what follows it, and the directory segments are the segments of what
/// stands before it, in order.
pub proof fn lemma_split_at_last_separator(path: Seq<char>, last: int)
    requires
        0 <= last < path.len(),
        path[last] == SEPARATOR,
        forall|j: int| last < j < path.len() ==> path[j] != SEPARATOR,
    ensures
        file_name_of(path) == path.subrange(last + 1, path.len() as int),
        segments_of(path, false) == segments_of(path.subrange(0, last), true),
{
    let head = path.subrange(0, last);
    let upto = path.subrange(0, last + 1);
    let tail = path.subrange(last + 1, path.len() as int);
    assert(upto.drop_last() =~= head);
    assert(pieces(upto) == pieces(head).push(Seq::empty()));
    assert(plain(tail));
    lemma_pieces_append_plain(upto, tail);
    assert(upto + tail =~= path);
    assert(Seq::<char>::empty() + tail =~= tail);
    assert(pieces(upto).drop_last() =~= pieces(head));
}

/// Every segment of a path is a name: it is not empty and holds no
/// separator.
pub proof fn lemma_segments_are_names(path: Seq<char>, keep_last: bool, i: int)
    requires
        0 <= i < segments_of(path, keep_last).len(),
    ensures
        segments_of(path, keep_last)[i].len() > 0,
        plain(segments_of(path, keep_last)[i]),
{
    let all = if keep_last {
        pieces(path)
    } else {
        pieces(path).drop_last()
    };
    lemma_non_empty_from(all, i);
    let j = choose|j: int| 0 <= j < all.len() && all[j] == non_empty(all)[i];
    lemma_pieces_are_plain(path, j);
}

/// Each of the non-empty pieces of `all` is one of `all`, and is not empty.
pub proof fn lemma_non_empty_from(all: Seq<Seq<char>>, i: int)
    requires
        0 <= i < non_empty(all).len(),
    ensures
        non_empty(all)[i].len() > 0,
        exists|j: int| 0 <= j < all.len() && all[j] == non_empty(all)[i],
    decreases all.len(),
{
    if all.len() > 0 {
        let before = non_empty(all.drop_last());
        if i < before.len() {
            lemma_non_empty_from(all.drop_last(), i);
            let j = choose|j: int|
                0 <= j < all.drop_last().len() && all.drop_last()[j] == before[i];
            assert(all[j] == non_empty(all)[i]);
        } else {
            assert(all[all.len() - 1] == non_empty(all)[i]);
        }
    }
}

/// Splits `path` into its non-empty leading pieces and its last piece.
fn split_path(path: &str) -> (r: (Vec<String>, String))
    ensures
        texts(r.0@) == non_empty(pieces(path@).drop_last()),
        r.1@ == pieces(path@).last(),
{
    let n: usize = path.unicode_len();
    let mut leading: Vec<String> = Vec::new();
    let mut start: usize = 0;
    let mut i: usize = 0;
    let ghost mut done: Seq<Seq<char>> = Seq::empty();
    proof {
        assert(path@.subrange(0, 0) =~= Seq::<char>::empty());
        assert(pieces(path@.subrange(0, 0)) =~= done.push(path@.subrange(0, 0)));
        assert(texts(leading@) =~= non_empty(done));
    }
    while i < n
        invariant
            n == path@.len(),
            start <= i <= n,
            pieces(path@.subrange(0, i as int)) == done.push(
                path@.subrange(start as int, i as int),
            ),
            texts(leading@) == non_empty(done),
        decreases n - i,
    {
        let c: char = path.get_char(i);
        proof {
            let prefix = path@.subrange(0, i + 1);
            assert(prefix.drop_last() =~= path@.subrange(0, i as int));
            assert(prefix.last() == c);
        }
        if c == SEPARATOR {
            let piece = path.substring_char(start, i);
            let ghost closed = done.push(piece@);
            proof {
                assert(closed.drop_last() =~= done);
                assert(path@.subrange(i + 1, i + 1) =~= Seq::<char>::empty());
            }
            if i > start {
                let ghost before = leading@;
                leading.push(piece.to_owned());
                proof {
                    assert(texts(leading@) =~= texts(before).push(piece@));
                }
            }
            proof {
                done = closed;
            }
            start = i + 1;
        } else {
            proof {
                let grown = done.push(path@.subrange(start as int, i as int));
                assert(grown.drop_last() =~= done);
                assert(path@.subrange(start as int, i as int).push(c) =~= path@.subrange(
                    start as int,
                    i + 1,
                ));
            }
        }
        i = i + 1;
    }
    let last = path.substring_char(start, n);
    proof {
        assert(path@.subrange(0, n as int) =~= path@);
        assert(pieces(path@).drop_last() =~= done);
    }
    (leading, last.to_owned())
}

/// Splits `path` into its segments: the non-empty pieces between separators,
/// in order. Unless `keep_last` is set the last piece of the path, the place
/// of a file's name, is left out.
pub fn tokenise_path(path: &str, keep_last: bool) -> (segments: Vec<String>)
    ensures
        texts(segments@) == segments_of(path@, keep_last),
{
    let (mut leading, last) = split_path(path);
    proof {
        lemma_pieces_len(path@);
    }
    if keep_last && last.as_str().unicode_len() > 0 {
        let ghost before = leading@;
        leading.push(last);
        proof {
            assert(texts(leading@) =~= texts(before).push(last@));
        }
    }
    leading
}

/// The name of the file that `path` leads to: what follows its last
/// separator, or the whole path where it has none.
pub fn file_name(path: &str) -> (name: String)
    ensures
        name@ == file_name_of(path@),
{
    let (_, last) = split_path(path);
    last
}

} // verus!
